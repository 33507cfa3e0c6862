use vstd::prelude::*;

verus! {

/// Bytes of addressable memory.
pub const MEMORY_SIZE: usize = 4096;

/// Number of general-purpose registers; the last one (VF) doubles as the flag register.
pub const NUM_REG: usize = 16;

/// Capacity of the call stack, in return addresses.
pub const STACK_SIZE: usize = 128;

/// Width of the framebuffer, in pixels.
pub const SCREEN_WIDTH: usize = 64;

/// Height of the framebuffer, in pixels.
pub const SCREEN_HEIGHT: usize = 64;

/// Number of framebuffer cells (`SCREEN_WIDTH * SCREEN_HEIGHT`).
pub const DISPLAY_SIZE: usize = 4096;

/// Number of keys on the hexadecimal keypad.
pub const NUM_KEYS: usize = 16;

/// Address at which a program image is loaded and where execution starts.
pub const PROGRAM_LOAD_ADDRESS: usize = 0x200;

/// Size of the built-in font: sixteen glyphs of five rows each.
pub const FONTSET_SIZE: usize = 80;

/// Largest program image that fits in memory above the load address.
pub const MAX_PROGRAM_SIZE: usize = 3584;

/// The built-in hexadecimal font, one byte per glyph row, most significant bit leftmost.
pub open spec fn font() -> Seq<u8> {
    seq![
        0xF0u8, 0x90, 0x90, 0x90, 0xF0, 0x20, 0x60, 0x20, 0x20, 0x70,
        0xF0, 0x10, 0xF0, 0x80, 0xF0, 0xF0, 0x10, 0xF0, 0x10, 0xF0,
        0x90, 0x90, 0xF0, 0x10, 0x10, 0xF0, 0x80, 0xF0, 0x10, 0xF0,
        0xF0, 0x80, 0xF0, 0x90, 0xF0, 0xF0, 0x10, 0x20, 0x40, 0x40,
        0xF0, 0x90, 0xF0, 0x90, 0xF0, 0xF0, 0x90, 0xF0, 0x10, 0xF0,
        0xF0, 0x90, 0xF0, 0x90, 0x90, 0xE0, 0x90, 0xE0, 0x90, 0xE0,
        0xF0, 0x80, 0x80, 0x80, 0xF0, 0xE0, 0x90, 0x90, 0x90, 0xE0,
        0xF0, 0x80, 0xF0, 0x80, 0xF0, 0xF0, 0x80, 0xF0, 0x80, 0x80,
    ]
}

/// The abstract state of the machine.
#[verifier::ext_equal]
pub struct MachineState {
    pub memory: Seq<u8>,
    pub stack: Seq<u16>,
    pub sp: u16,
    pub v: Seq<u8>,
    pub ir: u16,
    pub pc: u16,
    pub delay_timer: u8,
    pub sound_timer: u8,
    pub graphics: Seq<bool>,
    pub keys: Seq<bool>,
}

impl MachineState {
    /// Every buffer has its fixed size and the stack pointer lies within the stack.
    pub open spec fn wf(self) -> bool {
        &&& self.memory.len() == MEMORY_SIZE
        &&& self.stack.len() == STACK_SIZE
        &&& self.sp < STACK_SIZE
        &&& self.v.len() == NUM_REG
        &&& self.graphics.len() == DISPLAY_SIZE
        &&& self.keys.len() == NUM_KEYS
    }
}

/// The state right after construction.
pub open spec fn initial_state() -> MachineState {
    MachineState {
        memory: Seq::new(MEMORY_SIZE as nat, |a: int| if a < FONTSET_SIZE { font()[a] } else { 0u8 }),
        stack: Seq::new(STACK_SIZE as nat, |i: int| 0u16),
        sp: 0,
        v: Seq::new(NUM_REG as nat, |i: int| 0u8),
        ir: 0,
        pc: PROGRAM_LOAD_ADDRESS as u16,
        delay_timer: 0,
        sound_timer: 0,
        graphics: Seq::new(DISPLAY_SIZE as nat, |i: int| false),
        keys: Seq::new(NUM_KEYS as nat, |i: int| false),
    }
}

/// Memory after placing `data` at the load address.
pub open spec fn loaded_memory(memory: Seq<u8>, data: Seq<u8>) -> Seq<u8> {
    memory.subrange(0, PROGRAM_LOAD_ADDRESS as int) + data + memory.subrange(
        PROGRAM_LOAD_ADDRESS + data.len(),
        memory.len() as int,
    )
}

/// Memory addresses wrap around the end of memory.
pub open spec fn mem_addr(a: int) -> int {
    a % (MEMORY_SIZE as int)
}

/// 16-bit wraparound.
pub open spec fn wrap16(a: int) -> u16 {
    (a % 0x10000) as u16
}

/// The instruction at the program counter: high byte first.
pub open spec fn fetch(s: MachineState) -> u16 {
    (s.memory[mem_addr(s.pc as int)] as int * 256 + s.memory[mem_addr(s.pc + 1)] as int) as u16
}

/// Highest nibble of an instruction.
pub open spec fn op_kind(op: u16) -> int {
    op as int / 0x1000
}

/// Second nibble: the register `x`.
pub open spec fn op_x(op: u16) -> int {
    (op as int / 0x100) % 0x10
}

/// Third nibble: the register `y`.
pub open spec fn op_y(op: u16) -> int {
    (op as int / 0x10) % 0x10
}

/// Lowest nibble.
pub open spec fn op_n(op: u16) -> int {
    op as int % 0x10
}

/// Low byte.
pub open spec fn op_nn(op: u16) -> u8 {
    (op as int % 0x100) as u8
}

/// Low twelve bits: an address.
pub open spec fn op_nnn(op: u16) -> u16 {
    (op as int % 0x1000) as u16
}

pub open spec fn with_pc(s: MachineState, pc: u16) -> MachineState {
    MachineState { pc, ..s }
}

/// Skip the next instruction.
pub open spec fn skip(s: MachineState) -> MachineState {
    with_pc(s, wrap16(s.pc + 2))
}

pub open spec fn skip_if(s: MachineState, cond: bool) -> MachineState {
    if cond {
        skip(s)
    } else {
        s
    }
}

pub open spec fn set_reg(s: MachineState, x: int, val: u8) -> MachineState {
    MachineState { v: s.v.update(x, val), ..s }
}

/// Set register `x` to `val`, then the flag register to `flag`.
pub open spec fn set_reg_flag(s: MachineState, x: int, val: u8, flag: u8) -> MachineState {
    MachineState { v: s.v.update(x, val).update(0xF, flag), ..s }
}

/// Whether key `k` exists and is held down.
pub open spec fn key_down(s: MachineState, k: u8) -> bool {
    k < NUM_KEYS && s.keys[k as int]
}

/// The lowest index at or above `i` of a pressed key, or `NUM_KEYS` when there is none.
pub open spec fn first_pressed(keys: Seq<bool>, i: int) -> int
    decreases NUM_KEYS - i,
{
    if i >= NUM_KEYS || i < 0 {
        NUM_KEYS as int
    } else if keys[i] {
        i
    } else {
        first_pressed(keys, i + 1)
    }
}

/// Framebuffer cell of the pixel at column `px`, row `py`, both wrapped onto the screen.
pub open spec fn pixel_index(px: int, py: int) -> int {
    px % (SCREEN_WIDTH as int) + (SCREEN_WIDTH as int) * (py % (SCREEN_HEIGHT as int))
}

/// Bit `c` of a sprite row, counted from the most significant bit.
pub open spec fn sprite_bit(row: u8, c: u8) -> bool {
    row & (0x80u8 >> c) != 0
}

/// Cells toggled by the first `c` bits of the sprite row `row` placed at (`x`, `y`), in order.
pub open spec fn row_cells(row: u8, x: int, y: int, c: nat) -> Seq<int>
    decreases c,
{
    if c == 0 {
        Seq::empty()
    } else {
        let prev = row_cells(row, x, y, (c - 1) as nat);
        if sprite_bit(row, (c - 1) as u8) {
            prev.push(pixel_index(x + c - 1, y))
        } else {
            prev
        }
    }
}

/// Cells toggled by the first `rows` rows of the sprite read from `memory` at `ir`, in order.
pub open spec fn sprite_cells(memory: Seq<u8>, ir: u16, x: u8, y: u8, rows: nat) -> Seq<int>
    decreases rows,
{
    if rows == 0 {
        Seq::empty()
    } else {
        sprite_cells(memory, ir, x, y, (rows - 1) as nat) + row_cells(
            memory[mem_addr(ir + rows - 1)],
            x as int,
            y + rows - 1,
            8,
        )
    }
}

/// The framebuffer after toggling each of `cells` in order.
pub open spec fn toggle_all(g: Seq<bool>, cells: Seq<int>) -> Seq<bool>
    decreases cells.len(),
{
    if cells.len() == 0 {
        g
    } else {
        let prev = toggle_all(g, cells.drop_last());
        prev.update(cells.last(), !prev[cells.last()])
    }
}

/// Whether some cell was already lit at the moment it was toggled.
pub open spec fn collides(g: Seq<bool>, cells: Seq<int>) -> bool
    decreases cells.len(),
{
    if cells.len() == 0 {
        false
    } else {
        collides(g, cells.drop_last()) || toggle_all(g, cells.drop_last())[cells.last()]
    }
}

/// `Dxyn`: XOR-draw an `n`-row sprite at (Vx, Vy); VF reports a collision.
pub open spec fn draw(s: MachineState, x: int, y: int, n: int) -> MachineState {
    let cells = sprite_cells(s.memory, s.ir, s.v[x], s.v[y], n as nat);
    MachineState {
        graphics: toggle_all(s.graphics, cells),
        v: s.v.update(0xF, if collides(s.graphics, cells) { 1u8 } else { 0u8 }),
        ..s
    }
}

/// Memory after storing registers V0..V(k-1) at `ir`, `ir + 1`, ...
pub open spec fn store_regs(memory: Seq<u8>, ir: u16, v: Seq<u8>, k: nat) -> Seq<u8>
    decreases k,
{
    if k == 0 {
        memory
    } else {
        store_regs(memory, ir, v, (k - 1) as nat).update(mem_addr(ir + k - 1), v[k - 1])
    }
}

/// Registers after loading V0..V(k-1) from memory at `ir`, `ir + 1`, ...
pub open spec fn load_regs(memory: Seq<u8>, ir: u16, v: Seq<u8>, k: int) -> Seq<u8> {
    Seq::new(v.len(), |i: int| if i < k { memory[mem_addr(ir + i)] } else { v[i] })
}

/// Arithmetic and logic instructions `8xyn`.
pub open spec fn exec_alu(s: MachineState, x: int, y: int, n: int) -> MachineState {
    let vx = s.v[x] as int;
    let vy = s.v[y] as int;
    if n == 0 {
        set_reg(s, x, s.v[y])
    } else if n == 1 {
        set_reg(s, x, s.v[x] | s.v[y])
    } else if n == 2 {
        set_reg(s, x, s.v[x] & s.v[y])
    } else if n == 3 {
        set_reg(s, x, s.v[x] ^ s.v[y])
    } else if n == 4 {
        set_reg_flag(s, x, ((vx + vy) % 256) as u8, if vx + vy > 255 { 1 } else { 0 })
    } else if n == 5 {
        set_reg_flag(s, x, ((vx - vy + 256) % 256) as u8, if vx >= vy { 1 } else { 0 })
    } else if n == 6 {
        set_reg_flag(s, x, (vx / 2) as u8, (vx % 2) as u8)
    } else if n == 7 {
        set_reg_flag(s, x, ((vy - vx + 256) % 256) as u8, if vy >= vx { 1 } else { 0 })
    } else if n == 0xE {
        set_reg_flag(s, x, ((vx * 2) % 256) as u8, (vx / 128) as u8)
    } else {
        s
    }
}

/// Instructions `Fxkk`: timers, index register, key wait and memory transfers.
pub open spec fn exec_misc(s: MachineState, x: int, kk: int) -> MachineState {
    let vx = s.v[x];
    if kk == 0x07 {
        set_reg(s, x, s.delay_timer)
    } else if kk == 0x0A {
        let k = first_pressed(s.keys, 0);
        if k < NUM_KEYS {
            set_reg(s, x, k as u8)
        } else {
            with_pc(s, wrap16(s.pc - 2 + 0x10000))
        }
    } else if kk == 0x15 {
        MachineState { delay_timer: vx, ..s }
    } else if kk == 0x18 {
        MachineState { sound_timer: vx, ..s }
    } else if kk == 0x1E {
        MachineState { ir: wrap16(s.ir + vx), ..s }
    } else if kk == 0x29 {
        MachineState { ir: (vx * 5) as u16, ..s }
    } else if kk == 0x55 {
        MachineState { memory: store_regs(s.memory, s.ir, s.v, x as nat), ..s }
    } else if kk == 0x65 {
        MachineState { v: load_regs(s.memory, s.ir, s.v, x), ..s }
    } else if kk == 0x33 {
        MachineState {
            memory: s.memory.update(mem_addr(s.ir as int), (vx / 100) as u8).update(
                mem_addr(s.ir + 1),
                ((vx / 10) % 10) as u8,
            ).update(mem_addr(s.ir + 2), (vx % 10) as u8),
            ..s
        }
    } else {
        s
    }
}

/// The effect of instruction `op` on a state whose program counter already points past it.
pub open spec fn execute(s: MachineState, op: u16, rnd: u8) -> MachineState {
    let kind = op_kind(op);
    let x = op_x(op);
    let y = op_y(op);
    let n = op_n(op);
    let nn = op_nn(op);
    let nnn = op_nnn(op);
    if kind == 0 {
        if op == 0x00E0 {
            MachineState { graphics: Seq::new(DISPLAY_SIZE as nat, |i: int| false), ..s }
        } else if op == 0x00EE {
            let sp = ((s.sp + STACK_SIZE - 1) % STACK_SIZE as int) as u16;
            MachineState { sp, pc: s.stack[sp as int], ..s }
        } else {
            s
        }
    } else if kind == 1 {
        with_pc(s, nnn)
    } else if kind == 2 {
        MachineState {
            stack: s.stack.update(s.sp as int, s.pc),
            sp: ((s.sp + 1) % STACK_SIZE as int) as u16,
            pc: nnn,
            ..s
        }
    } else if kind == 3 {
        skip_if(s, s.v[x] == nn)
    } else if kind == 4 {
        skip_if(s, s.v[x] != nn)
    } else if kind == 5 {
        skip_if(s, n == 0 && s.v[x] == s.v[y])
    } else if kind == 6 {
        set_reg(s, x, nn)
    } else if kind == 7 {
        set_reg(s, x, ((s.v[x] + nn) % 256) as u8)
    } else if kind == 8 {
        exec_alu(s, x, y, n)
    } else if kind == 9 {
        skip_if(s, n == 0 && s.v[x] != s.v[y])
    } else if kind == 0xA {
        MachineState { ir: nnn, ..s }
    } else if kind == 0xB {
        with_pc(s, (s.v[0] + nnn) as u16)
    } else if kind == 0xC {
        set_reg(s, x, rnd & nn)
    } else if kind == 0xD {
        draw(s, x, y, n)
    } else if kind == 0xE {
        if y == 0x9 && n == 0xE {
            skip_if(s, key_down(s, s.v[x]))
        } else if y == 0xA && n == 0x1 {
            skip_if(s, !key_down(s, s.v[x]))
        } else {
            s
        }
    } else {
        exec_misc(s, x, op as int % 0x100)
    }
}

/// A timer above one counts down by one; at one or zero it stays.
pub open spec fn tick(t: u8) -> u8 {
    if t > 1 {
        (t - 1) as u8
    } else {
        t
    }
}

/// One machine cycle: fetch, advance the program counter, execute, tick the timers.
/// `rnd` is the random byte that `Cxnn` masks.
pub open spec fn step_spec(s: MachineState, rnd: u8) -> MachineState {
    let op = fetch(s);
    let t = execute(with_pc(s, wrap16(s.pc + 2)), op, rnd);
    MachineState { delay_timer: tick(t.delay_timer), sound_timer: tick(t.sound_timer), ..t }
}

/// The state after one cycle for each of `rnds`, in order.
pub open spec fn run(s: MachineState, rnds: Seq<u8>) -> MachineState
    decreases rnds.len(),
{
    if rnds.len() == 0 {
        s
    } else {
        step_spec(run(s, rnds.drop_last()), rnds.last())
    }
}

} // verus!
