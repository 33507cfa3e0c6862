use crate::model::{
    collides, draw, exec_alu, exec_misc, execute, fetch, first_pressed, font, op_kind, initial_state,
    loaded_memory, load_regs, pixel_index, row_cells,
    sprite_cells, step_spec, store_regs, toggle_all, MachineState,
    DISPLAY_SIZE, FONTSET_SIZE, MAX_PROGRAM_SIZE, MEMORY_SIZE, NUM_KEYS, NUM_REG,
    PROGRAM_LOAD_ADDRESS, SCREEN_HEIGHT, SCREEN_WIDTH, STACK_SIZE,
};
use rand::Rng;
use vstd::prelude::*;

verus! {

broadcast use vstd::array::group_array_axioms;

const FONTSET: [u8; 80] = [
    0xF0, 0x90, 0x90, 0x90, 0xF0, 0x20, 0x60, 0x20, 0x20, 0x70,
    0xF0, 0x10, 0xF0, 0x80, 0xF0, 0xF0, 0x10, 0xF0, 0x10, 0xF0,
    0x90, 0x90, 0xF0, 0x10, 0x10, 0xF0, 0x80, 0xF0, 0x10, 0xF0,
    0xF0, 0x80, 0xF0, 0x90, 0xF0, 0xF0, 0x10, 0x20, 0x40, 0x40,
    0xF0, 0x90, 0xF0, 0x90, 0xF0, 0xF0, 0x90, 0xF0, 0x10, 0xF0,
    0xF0, 0x90, 0xF0, 0x90, 0x90, 0xE0, 0x90, 0xE0, 0x90, 0xE0,
    0xF0, 0x80, 0x80, 0x80, 0xF0, 0xE0, 0x90, 0x90, 0x90, 0xE0,
    0xF0, 0x80, 0xF0, 0x80, 0xF0, 0xF0, 0x80, 0xF0, 0x80, 0x80,
];

/// A CHIP-8 virtual machine: memory, registers, stack, timers, framebuffer and keypad.
///
/// Addresses past the end of memory wrap around to its start, the program
/// counter and index register wrap at 16 bits, the stack pointer wraps
/// around the fixed-capacity stack, and a key index past the keypad reads as
/// not pressed.
pub struct Chip8 {
    memory: [u8; 4096],
    stack: [u16; 128],
    sp: u16,
    v: [u8; 16],
    ir: u16,
    pc: u16,
    delay_timer: u8,
    sound_timer: u8,
    graphics: [bool; 4096],
    keys: [bool; 16],
}

impl View for Chip8 {
    type V = MachineState;

    closed spec fn view(&self) -> MachineState {
        MachineState {
            memory: self.memory@,
            stack: self.stack@,
            sp: self.sp,
            v: self.v@,
            ir: self.ir,
            pc: self.pc,
            delay_timer: self.delay_timer,
            sound_timer: self.sound_timer,
            graphics: self.graphics@,
            keys: self.keys@,
        }
    }
}

impl Chip8 {
    /// The stack pointer lies within the stack.
    pub open spec fn wf(&self) -> bool {
        self@.wf()
    }

    /// A machine with the font at address 0, everything else zero, and the
    /// program counter at the load address.
    pub fn new() -> (r: Self)
        ensures
            r.wf(),
            r@ == initial_state(),
    {
        let mut new_chip = Self {
            sp: 0,
            ir: 0,
            memory: [0; MEMORY_SIZE],
            stack: [0; STACK_SIZE],
            v: [0; NUM_REG],
            keys: [false; NUM_KEYS],
            graphics: [false; DISPLAY_SIZE],
            delay_timer: 0,
            sound_timer: 0,
            pc: PROGRAM_LOAD_ADDRESS as u16,
        };
        let glyphs = FONTSET;
        assert(glyphs@ == font());
        let mut i: usize = 0;
        while i < FONTSET_SIZE
            invariant
                i <= FONTSET_SIZE,
                glyphs@ == font(),
                new_chip.memory@.len() == MEMORY_SIZE,
                forall|a: int|
                    0 <= a < MEMORY_SIZE ==> #[trigger] new_chip.memory@[a] == if a < i {
                        font()[a]
                    } else {
                        0u8
                    },
                new_chip.stack@ == Seq::new(STACK_SIZE as nat, |j: int| 0u16),
                new_chip.v@ == Seq::new(NUM_REG as nat, |j: int| 0u8),
                new_chip.keys@ == Seq::new(NUM_KEYS as nat, |j: int| false),
                new_chip.graphics@ == Seq::new(DISPLAY_SIZE as nat, |j: int| false),
                new_chip.sp == 0,
                new_chip.ir == 0,
                new_chip.pc == PROGRAM_LOAD_ADDRESS,
                new_chip.delay_timer == 0,
                new_chip.sound_timer == 0,
            decreases FONTSET_SIZE - i,
        {
            new_chip.memory[i] = glyphs[i];
            i += 1;
        }
        assert(new_chip@ =~= initial_state());
        new_chip
    }

    /// Store `val` at the stack pointer, then advance the pointer, wrapping at the stack's capacity.
    fn push(&mut self, val: u16)
        requires
            old(self).wf(),
        ensures
            final(self)@ == (MachineState {
                stack: old(self)@.stack.update(old(self).sp as int, val),
                sp: ((old(self).sp + 1) % STACK_SIZE as int) as u16,
                ..old(self)@
            }),
    {
        self.stack[self.sp as usize] = val;
        self.sp = (self.sp + 1) % (STACK_SIZE as u16);
    }

    /// Move the stack pointer back, wrapping at the bottom, and return the slot it reaches.
    fn pop(&mut self) -> (r: u16)
        requires
            old(self).wf(),
        ensures
            final(self).sp == (old(self).sp + STACK_SIZE - 1) % STACK_SIZE as int,
            r == old(self)@.stack[final(self).sp as int],
            final(self)@ == (MachineState { sp: final(self).sp, ..old(self)@ }),
    {
        self.sp = (self.sp + (STACK_SIZE as u16) - 1) % (STACK_SIZE as u16);
        self.stack[self.sp as usize]
    }

    /// Copy a program image into memory at the load address and report its length.
    /// An image longer than the memory above the load address is refused and
    /// nothing is written.
    pub fn loadProgram(&mut self, data: &[u8]) -> (r: Result<usize, String>)
        requires
            old(self).wf(),
        ensures
            final(self).wf(),
            data@.len() <= MAX_PROGRAM_SIZE ==> r == Ok::<usize, String>(data@.len() as usize)
                && final(self)@ == (MachineState {
                memory: loaded_memory(old(self)@.memory, data@),
                ..old(self)@
            }),
            data@.len() > MAX_PROGRAM_SIZE ==> r.is_err() && final(self)@ == old(self)@,
    {
        if data.len() > MEMORY_SIZE - PROGRAM_LOAD_ADDRESS {
            return Err("ROM too big, aborting".to_string());
        }
        let ghost old_memory = self.memory@;
        let mut i: usize = 0;
        while i < data.len()
            invariant
                data@.len() <= MAX_PROGRAM_SIZE,
                i <= data@.len(),
                self.memory@.len() == MEMORY_SIZE,
                old_memory.len() == MEMORY_SIZE,
                forall|a: int|
                    0 <= a < MEMORY_SIZE ==> #[trigger] self.memory@[a] == if PROGRAM_LOAD_ADDRESS
                        <= a < PROGRAM_LOAD_ADDRESS + i {
                        data@[a - PROGRAM_LOAD_ADDRESS]
                    } else {
                        old_memory[a]
                    },
                self@ == (MachineState { memory: self.memory@, ..old(self)@ }),
                old(self)@.memory == old_memory,
                old(self).wf(),
            decreases data@.len() - i,
        {
            self.memory[PROGRAM_LOAD_ADDRESS + i] = data[i];
            i += 1;
        }
        assert(self.memory@ =~= loaded_memory(old_memory, data@));
        Ok(data.len())
    }

    /// The framebuffer, row by row.
    pub fn get_display(&self) -> (r: &[bool])
        ensures
            r@ == self@.graphics,
    {
        self.graphics.as_slice()
    }

    /// Record key `idx` as pressed or released.
    pub fn keypress(&mut self, idx: usize, pressed: bool)
        requires
            old(self).wf(),
            idx < NUM_KEYS,
        ensures
            final(self).wf(),
            final(self)@ == (MachineState { keys: old(self)@.keys.update(idx as int, pressed), ..old(self)@ }),
    {
        self.keys[idx] = pressed;
    }

    /// Whether the pixel at column `x`, row `y` is lit.
    pub fn is_pixel_set(&self, x: usize, y: usize) -> (r: bool)
        requires
            self.wf(),
            x < SCREEN_WIDTH,
            y < SCREEN_HEIGHT,
        ensures
            r == self@.graphics[x + SCREEN_WIDTH * y],
    {
        self.graphics[x + SCREEN_HEIGHT * y]
    }
    /// Register `i` (VF is register 15).
    pub fn register(&self, i: usize) -> (r: u8)
        requires
            self.wf(),
            i < NUM_REG,
        ensures
            r == self@.v[i as int],
    {
        self.v[i]
    }

    /// The byte at address `addr`.
    pub fn memory_at(&self, addr: usize) -> (r: u8)
        requires
            self.wf(),
            addr < MEMORY_SIZE,
        ensures
            r == self@.memory[addr as int],
    {
        self.memory[addr]
    }

    /// The program counter.
    pub fn program_counter(&self) -> (r: u16)
        ensures
            r == self@.pc,
    {
        self.pc
    }

    /// The index register.
    pub fn index_register(&self) -> (r: u16)
        ensures
            r == self@.ir,
    {
        self.ir
    }

    /// The stack pointer.
    pub fn stack_pointer(&self) -> (r: u16)
        ensures
            r == self@.sp,
    {
        self.sp
    }

    /// The delay timer.
    pub fn delay_timer(&self) -> (r: u8)
        ensures
            r == self@.delay_timer,
    {
        self.delay_timer
    }

    /// The sound timer.
    pub fn sound_timer(&self) -> (r: u8)
        ensures
            r == self@.sound_timer,
    {
        self.sound_timer
    }

    /// Arithmetic and logic instructions `8xyn`.
    fn run_alu(&mut self, x: usize, y: usize, n: u16)
        requires
            old(self).wf(),
            x < NUM_REG,
            y < NUM_REG,
        ensures
            final(self)@ == exec_alu(old(self)@, x as int, y as int, n as int),
    {
        let vx = self.v[x];
        let vy = self.v[y];
        if n == 0 {
            self.v[x] = vy;
        } else if n == 1 {
            self.v[x] = vx | vy;
        } else if n == 2 {
            self.v[x] = vx & vy;
        } else if n == 3 {
            self.v[x] = vx ^ vy;
        } else if n == 4 {
            let sum: u16 = vx as u16 + vy as u16;
            self.v[x] = (sum % 256) as u8;
            self.v[15] = if sum > 255 { 1 } else { 0 };
        } else if n == 5 {
            self.v[x] = vx.wrapping_sub(vy);
            self.v[15] = if vx >= vy { 1 } else { 0 };
        } else if n == 6 {
            self.v[x] = vx / 2;
            self.v[15] = vx % 2;
        } else if n == 7 {
            self.v[x] = vy.wrapping_sub(vx);
            self.v[15] = if vy >= vx { 1 } else { 0 };
        } else if n == 0xE {
            self.v[x] = ((vx as u16 * 2) % 256) as u8;
            self.v[15] = vx / 128;
        }
        assert(self@ =~= exec_alu(old(self)@, x as int, y as int, n as int));
    }

    /// Instructions `Fxkk`: timers, index register, key wait and memory transfers.
    fn run_misc(&mut self, x: usize, kk: u16)
        requires
            old(self).wf(),
            x < NUM_REG,
        ensures
            final(self)@ == exec_misc(old(self)@, x as int, kk as int),
    {
        let ghost s0 = self@;
        let vx = self.v[x];
        if kk == 0x07 {
            self.v[x] = self.delay_timer;
        } else if kk == 0x0A {
            let mut i: usize = 0;
            while i < NUM_KEYS && !self.keys[i]
                invariant
                    i <= NUM_KEYS,
                    self@ == s0,
                    s0.wf(),
                    first_pressed(s0.keys, 0) == first_pressed(s0.keys, i as int),
                decreases NUM_KEYS - i,
            {
                i += 1;
            }
            if i < NUM_KEYS {
                self.v[x] = i as u8;
            } else {
                self.pc = self.pc.wrapping_sub(2);
            }
        } else if kk == 0x15 {
            self.delay_timer = vx;
        } else if kk == 0x18 {
            self.sound_timer = vx;
        } else if kk == 0x1E {
            self.ir = self.ir.wrapping_add(vx as u16);
        } else if kk == 0x29 {
            self.ir = vx as u16 * 5;
        } else if kk == 0x55 {
            let mut i: usize = 0;
            while i < x
                invariant
                    i <= x < NUM_REG,
                    s0.wf(),
                    self@ == (MachineState { memory: self.memory@, ..s0 }),
                    self.memory@ == store_regs(s0.memory, s0.ir, s0.v, i as nat),
                decreases x - i,
            {
                self.memory[(self.ir as usize + i) % MEMORY_SIZE] = self.v[i];
                i += 1;
            }
        } else if kk == 0x65 {
            let mut i: usize = 0;
            while i < x
                invariant
                    i <= x < NUM_REG,
                    s0.wf(),
                    self@ == (MachineState { v: self.v@, ..s0 }),
                    self.v@ == load_regs(s0.memory, s0.ir, s0.v, i as int),
                decreases x - i,
            {
                self.v[i] = self.memory[(self.ir as usize + i) % MEMORY_SIZE];
                proof {
                    assert(self.v@ =~= load_regs(s0.memory, s0.ir, s0.v, i + 1));
                }
                i += 1;
            }
        } else if kk == 0x33 {
            let ir = self.ir as usize;
            self.memory[ir % MEMORY_SIZE] = vx / 100;
            self.memory[(ir + 1) % MEMORY_SIZE] = (vx / 10) % 10;
            self.memory[(ir + 2) % MEMORY_SIZE] = vx % 10;
        }
        assert(self@ =~= exec_misc(s0, x as int, kk as int));
    }
    /// `Dxyn`: XOR-draw the `n`-row sprite at the index register onto (Vx, Vy),
    /// wrapping each pixel onto the screen; VF reports whether a lit pixel was toggled.
    fn run_draw(&mut self, x: usize, y: usize, n: usize)
        requires
            old(self).wf(),
            x < NUM_REG,
            y < NUM_REG,
            n < 16,
        ensures
            final(self)@ == draw(old(self)@, x as int, y as int, n as int),
    {
        let ghost s0 = self@;
        let px = self.v[x] as usize;
        let py = self.v[y] as usize;
        let mut flipped = false;
        let mut row: usize = 0;
        while row < n
            invariant
                row <= n < 16,
                s0.wf(),
                px == s0.v[x as int],
                py == s0.v[y as int],
                self@ == (MachineState { graphics: self.graphics@, ..s0 }),
                self.graphics@ == toggle_all(s0.graphics, sprite_cells(s0.memory, s0.ir, s0.v[x as int], s0.v[y as int], row as nat)),
                flipped == collides(s0.graphics, sprite_cells(s0.memory, s0.ir, s0.v[x as int], s0.v[y as int], row as nat)),
            decreases n - row,
        {
            let ghost done = sprite_cells(s0.memory, s0.ir, s0.v[x as int], s0.v[y as int], row as nat);
            let pixels = self.memory[(self.ir as usize + row) % MEMORY_SIZE];
            let mut cell: u8 = 0;
            while cell < 8
                invariant
                    cell <= 8,
                    row < n < 16,
                    s0.wf(),
                    px == s0.v[x as int],
                    py == s0.v[y as int],
                    self@ == (MachineState { graphics: self.graphics@, ..s0 }),
                    self.graphics@ == toggle_all(s0.graphics, done + row_cells(pixels, px as int, py + row, cell as nat)),
                    flipped == collides(s0.graphics, done + row_cells(pixels, px as int, py + row, cell as nat)),
                decreases 8 - cell,
            {
                let ghost before = done + row_cells(pixels, px as int, py + row, cell as nat);
                if pixels & (0b1000_0000u8 >> cell) != 0 {
                    let x_draw = (px + cell as usize) % SCREEN_WIDTH;
                    let y_draw = (py + row) % SCREEN_HEIGHT;
                    let index = x_draw + SCREEN_WIDTH * y_draw;
                    proof {
                        let e = pixel_index(px + cell, py + row);
                        assert(index == e);
                        assert(done + row_cells(pixels, px as int, py + row, (cell + 1) as nat) =~= before.push(e));
                        assert(before.push(e).drop_last() =~= before);
                    }
                    flipped = flipped || self.graphics[index];
                    self.graphics[index] = !self.graphics[index];
                } else {
                    proof {
                        assert(done + row_cells(pixels, px as int, py + row, (cell + 1) as nat) =~= before);
                    }
                }
                cell += 1;
            }
            proof {
                assert(done + row_cells(pixels, px as int, py + row, 8) =~= sprite_cells(s0.memory, s0.ir, s0.v[x as int], s0.v[y as int], (row + 1) as nat));
            }
            row += 1;
        }
        self.v[15] = if flipped { 1 } else { 0 };
        assert(self@ =~= draw(s0, x as int, y as int, n as int));
    }
    /// Apply instruction `op`; the program counter already points past it.
    fn run_instruction(&mut self, op: u16, rnd: u8)
        requires
            old(self).wf(),
        ensures
            final(self)@ == execute(old(self)@, op, rnd),
    {
        let ghost s0 = self@;
        let kind = op / 0x1000;
        let x = ((op / 0x100) % 0x10) as usize;
        let y = ((op / 0x10) % 0x10) as usize;
        let n = op % 0x10;
        let nn = (op % 0x100) as u8;
        let nnn = op % 0x1000;
        if kind == 0 {
            if op == 0x00E0 {
                self.graphics = [false; DISPLAY_SIZE];
            } else if op == 0x00EE {
                let return_addr = self.pop();
                self.pc = return_addr;
            }
        } else if kind == 1 {
            self.pc = nnn;
        } else if kind == 2 {
            self.push(self.pc);
            self.pc = nnn;
        } else if kind == 3 {
            if self.v[x] == nn {
                self.pc = self.pc.wrapping_add(2);
            }
        } else if kind == 4 {
            if self.v[x] != nn {
                self.pc = self.pc.wrapping_add(2);
            }
        } else if kind == 5 {
            if n == 0 && self.v[x] == self.v[y] {
                self.pc = self.pc.wrapping_add(2);
            }
        } else if kind == 6 {
            self.v[x] = nn;
        } else if kind == 7 {
            self.v[x] = self.v[x].wrapping_add(nn);
        } else if kind == 8 {
            self.run_alu(x, y, n);
        } else if kind == 9 {
            if n == 0 && self.v[x] != self.v[y] {
                self.pc = self.pc.wrapping_add(2);
            }
        } else if kind == 0xA {
            self.ir = nnn;
        } else if kind == 0xB {
            self.pc = self.v[0] as u16 + nnn;
        } else if kind == 0xC {
            self.v[x] = rnd & nn;
        } else if kind == 0xD {
            self.run_draw(x, y, n as usize);
        } else if kind == 0xE {
            let k = self.v[x] as usize;
            let pressed = k < NUM_KEYS && self.keys[k];
            if (y == 0x9 && n == 0xE && pressed) || (y == 0xA && n == 0x1 && !pressed) {
                self.pc = self.pc.wrapping_add(2);
            }
        } else {
            self.run_misc(x, op % 0x100);
        }
        assert(self@ =~= execute(s0, op, rnd));
    }

    /// One cycle with `random` as the byte that `Cxnn` masks: fetch the
    /// instruction at the program counter (high byte first), advance the
    /// counter by two, execute the instruction, then count each timer above
    /// one down by one.
    pub fn execute_cycle_with(&mut self, random: u8)
        requires
            old(self).wf(),
        ensures
            final(self).wf(),
            final(self)@ == step_spec(old(self)@, random),
    {
        let ghost s0 = self@;
        let pc = self.pc as usize;
        let higher_byte = self.memory[pc % MEMORY_SIZE] as u16;
        let lower_byte = self.memory[(pc + 1) % MEMORY_SIZE] as u16;
        let opcode = higher_byte * 256 + lower_byte;
        assert(opcode == fetch(s0));
        self.pc = self.pc.wrapping_add(2);
        self.run_instruction(opcode, random);
        if self.delay_timer > 1 {
            self.delay_timer -= 1;
        }
        if self.sound_timer > 1 {
            self.sound_timer -= 1;
        }
        assert(self@ =~= step_spec(s0, random));
    }

    /// Whether the instruction at the program counter is `Cxnn`, the one that draws a random byte.
    pub fn next_needs_random(&self) -> (r: bool)
        requires
            self.wf(),
        ensures
            r == (op_kind(fetch(self@)) == 0xC),
    {
        self.memory[self.pc as usize % MEMORY_SIZE] / 16 == 0xC
    }

    /// One cycle, drawing the random byte for `Cxnn` from the thread's generator.
    pub fn executeCycle(&mut self)
        requires
            old(self).wf(),
        ensures
            final(self).wf(),
            exists|random: u8| final(self)@ == step_spec(old(self)@, random),
    {
        let random = if self.next_needs_random() {
            random_byte()
        } else {
            0
        };
        self.execute_cycle_with(random);
    }
}

/// Relies on rand's `thread_rng().gen_range(0..=255)`: a uniformly drawn byte.
/// The range is not empty, so the call does not panic; nothing is known of the value.
#[verifier::external_body]
fn random_byte() -> (r: u8) {
    rand::thread_rng().gen_range(0..=255u8)
}


} // verus!
