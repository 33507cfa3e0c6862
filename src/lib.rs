#![allow(non_snake_case)]

pub mod chip8;
pub mod laws;
pub mod model;

pub use chip8::Chip8;
pub use model::{MachineState, SCREEN_HEIGHT, SCREEN_WIDTH};
