use crate::model::{
    collides, draw, fetch, first_pressed, mem_addr, op_kind, op_n, op_nn, op_nnn, op_x, op_y,
    pixel_index, row_cells, run, sprite_bit, sprite_cells, step_spec, store_regs, toggle_all, wrap16, MachineState, NUM_KEYS,
};
use vstd::arithmetic::div_mod::{lemma_fundamental_div_mod, lemma_fundamental_div_mod_converse};
use vstd::prelude::*;

verus! {

/// An instruction assembled from four nibbles decodes back into them.
proof fn lemma_decode(op: u16, k: int, x: int, y: int, n: int)
    requires
        0 <= k < 16,
        0 <= x < 16,
        0 <= y < 16,
        0 <= n < 16,
        op == 0x1000 * k + 0x100 * x + 0x10 * y + n,
    ensures
        op_kind(op) == k,
        op_x(op) == x,
        op_y(op) == y,
        op_n(op) == n,
        op_nn(op) == 0x10 * y + n,
        op_nnn(op) == 0x100 * x + 0x10 * y + n,
        op as int % 0x100 == 0x10 * y + n,
{
    let o = op as int;
    lemma_fundamental_div_mod_converse(o, 0x1000, k, 0x100 * x + 0x10 * y + n);
    lemma_fundamental_div_mod_converse(o, 0x100, 0x10 * k + x, 0x10 * y + n);
    lemma_fundamental_div_mod_converse(0x10 * k + x, 0x10, k, x);
    lemma_fundamental_div_mod_converse(o, 0x10, 0x100 * k + 0x10 * x + y, n);
    lemma_fundamental_div_mod_converse(0x100 * k + 0x10 * x + y, 0x10, 0x10 * k + x, y);
}

/// `6xnn` sets register `x` to `nn` and leaves the other registers alone.
#[verifier::rlimit(40)]
pub proof fn lemma_load_immediate(s: MachineState, x: int, nn: u8, rnd: u8)
    requires
        s.wf(),
        0 <= x < 16,
        fetch(s) == 0x6000 + 0x100 * x + nn,
    ensures
        step_spec(s, rnd).v[x] == nn,
        forall|i: int| 0 <= i < 16 && i != x ==> step_spec(s, rnd).v[i] == s.v[i],
{
    lemma_decode(fetch(s), 6, x, nn as int / 16, nn as int % 16);
}

/// `7xnn` adds `nn` to register `x` modulo 256; no other register, VF included, changes.
#[verifier::rlimit(40)]
pub proof fn lemma_add_immediate(s: MachineState, x: int, nn: u8, rnd: u8)
    requires
        s.wf(),
        0 <= x < 16,
        fetch(s) == 0x7000 + 0x100 * x + nn,
    ensures
        step_spec(s, rnd).v[x] == (s.v[x] + nn) % 256,
        forall|i: int| 0 <= i < 16 && i != x ==> step_spec(s, rnd).v[i] == s.v[i],
{
    lemma_decode(fetch(s), 7, x, nn as int / 16, nn as int % 16);
}

/// `8xy4` (x other than VF) stores the sum modulo 256 in Vx and the carry in VF.
#[verifier::rlimit(40)]
pub proof fn lemma_add_carry(s: MachineState, x: int, y: int, rnd: u8)
    requires
        s.wf(),
        0 <= x < 15,
        0 <= y < 16,
        fetch(s) == 0x8004 + 0x100 * x + 0x10 * y,
    ensures
        step_spec(s, rnd).v[x] == (s.v[x] + s.v[y]) % 256,
        step_spec(s, rnd).v[0xF] == if s.v[x] + s.v[y] > 255 { 1u8 } else { 0u8 },
{
    lemma_decode(fetch(s), 8, x, y, 4);
}

/// `8xy5` (x other than VF) stores Vx - Vy modulo 256 in Vx, and in VF 1 when no borrow occurred.
#[verifier::rlimit(40)]
pub proof fn lemma_sub_borrow(s: MachineState, x: int, y: int, rnd: u8)
    requires
        s.wf(),
        0 <= x < 15,
        0 <= y < 16,
        fetch(s) == 0x8005 + 0x100 * x + 0x10 * y,
    ensures
        step_spec(s, rnd).v[x] == (s.v[x] - s.v[y] + 256) % 256,
        step_spec(s, rnd).v[0xF] == if s.v[x] >= s.v[y] { 1u8 } else { 0u8 },
{
    lemma_decode(fetch(s), 8, x, y, 5);
}

/// Two jumps in a row (`1nnn` to `a`, then `1nnn` to `b` found at `a`) end at `b`,
/// and the stack is as it was.
#[verifier::rlimit(40)]
pub proof fn lemma_jump_twice(s: MachineState, a: u16, b: u16, r1: u8, r2: u8)
    requires
        s.wf(),
        a < 0x1000,
        b < 0x1000,
        fetch(s) == 0x1000 + a,
        fetch(step_spec(s, r1)) == 0x1000 + b,
    ensures
        step_spec(step_spec(s, r1), r2).pc == b,
        step_spec(step_spec(s, r1), r2).sp == s.sp,
        step_spec(step_spec(s, r1), r2).stack == s.stack,
{
    lemma_decode(fetch(s), 1, a as int / 0x100, (a as int / 0x10) % 0x10, a as int % 0x10);
    lemma_decode(
        fetch(step_spec(s, r1)),
        1,
        b as int / 0x100,
        (b as int / 0x10) % 0x10,
        b as int % 0x10,
    );
}

/// A call (`2nnn`) followed by a return (`00EE`) at its target resumes at the
/// instruction after the call, with the stack pointer where it was.
#[verifier::rlimit(40)]
pub proof fn lemma_call_return(s: MachineState, a: u16, r1: u8, r2: u8)
    requires
        s.wf(),
        a < 0x1000,
        fetch(s) == 0x2000 + a,
        fetch(step_spec(s, r1)) == 0x00EE,
    ensures
        step_spec(step_spec(s, r1), r2).pc == wrap16(s.pc + 2),
        step_spec(step_spec(s, r1), r2).sp == s.sp,
{
    lemma_decode(fetch(s), 2, a as int / 0x100, (a as int / 0x10) % 0x10, a as int % 0x10);
    lemma_decode(fetch(step_spec(s, r1)), 0, 0, 0xE, 0xE);
}

/// The scan for a pressed key from index `i` on finds the lowest one, or
/// `NUM_KEYS` when none at or above `i` is pressed.
pub proof fn lemma_first_pressed(keys: Seq<bool>, i: int)
    requires
        keys.len() == NUM_KEYS,
        0 <= i <= NUM_KEYS,
    ensures
        i <= first_pressed(keys, i) <= NUM_KEYS,
        forall|j: int| i <= j < first_pressed(keys, i) ==> !keys[j],
        first_pressed(keys, i) < NUM_KEYS ==> keys[first_pressed(keys, i)],
    decreases NUM_KEYS - i,
{
    if i < NUM_KEYS && !keys[i] {
        lemma_first_pressed(keys, i + 1);
    }
}

/// One cycle of `Fx0A` with no key down changes nothing but the timers.
#[verifier::rlimit(40)]
proof fn lemma_wait_key_step(s: MachineState, x: int, rnd: u8)
    requires
        s.wf(),
        0 <= x < 16,
        fetch(s) == 0xF00A + 0x100 * x,
        forall|k: int| 0 <= k < NUM_KEYS ==> !s.keys[k],
    ensures
        step_spec(s, rnd) == (MachineState {
            delay_timer: step_spec(s, rnd).delay_timer,
            sound_timer: step_spec(s, rnd).sound_timer,
            ..s
        }),
{
    lemma_decode(fetch(s), 0xF, x, 0, 0xA);
    lemma_first_pressed(s.keys, 0);
    assert(step_spec(s, rnd).pc == s.pc);
    assert(step_spec(s, rnd) =~= (MachineState {
        delay_timer: step_spec(s, rnd).delay_timer,
        sound_timer: step_spec(s, rnd).sound_timer,
        ..s
    }));
}

/// While no key is down, `Fx0A` keeps the program counter on itself: over any
/// number of cycles the machine changes in its timers alone.
pub proof fn lemma_wait_key_blocks(s: MachineState, x: int, rnds: Seq<u8>)
    requires
        s.wf(),
        0 <= x < 16,
        fetch(s) == 0xF00A + 0x100 * x,
        forall|k: int| 0 <= k < NUM_KEYS ==> !s.keys[k],
    ensures
        run(s, rnds) == (MachineState {
            delay_timer: run(s, rnds).delay_timer,
            sound_timer: run(s, rnds).sound_timer,
            ..s
        }),
    decreases rnds.len(),
{
    if rnds.len() > 0 {
        let prev = run(s, rnds.drop_last());
        lemma_wait_key_blocks(s, x, rnds.drop_last());
        assert(prev.memory == s.memory && prev.pc == s.pc);
        lemma_wait_key_step(prev, x, rnds.last());
    }
}

/// Once a key is down, `Fx0A` stores the lowest-indexed pressed key in Vx and moves on.
#[verifier::rlimit(40)]
pub proof fn lemma_wait_key_proceeds(s: MachineState, x: int, k: int, rnd: u8)
    requires
        s.wf(),
        0 <= x < 16,
        fetch(s) == 0xF00A + 0x100 * x,
        0 <= k < NUM_KEYS,
        s.keys[k],
    ensures
        step_spec(s, rnd).pc == wrap16(s.pc + 2),
        step_spec(s, rnd).v[x] <= k,
        s.keys[step_spec(s, rnd).v[x] as int],
        forall|j: int| 0 <= j < step_spec(s, rnd).v[x] ==> !s.keys[j],
{
    lemma_decode(fetch(s), 0xF, x, 0, 0xA);
    lemma_first_pressed(s.keys, 0);
}

/// Registers V0..V(k-1) land at `ir`, `ir + 1`, ... and every other byte keeps its value.
pub proof fn lemma_store_regs(memory: Seq<u8>, ir: u16, v: Seq<u8>, k: nat)
    requires
        memory.len() == 4096,
        k <= v.len(),
        k <= 16,
    ensures
        store_regs(memory, ir, v, k).len() == 4096,
        forall|j: int| 0 <= j < k ==> #[trigger] store_regs(memory, ir, v, k)[mem_addr(ir + j)] == v[j],
        forall|a: int|
            0 <= a < 4096 && (forall|j: int| 0 <= j < k ==> a != #[trigger] mem_addr(ir + j))
                ==> store_regs(memory, ir, v, k)[a] == memory[a],
    decreases k,
{
    if k > 0 {
        lemma_store_regs(memory, ir, v, (k - 1) as nat);
        assert forall|j: int| 0 <= j < k - 1 implies #[trigger] mem_addr(ir + j) != mem_addr(ir + k - 1) by {}
    }
}

/// `Fx55` then `Fx65` with the same x and index register hand back V0..V(x-1),
/// whatever the register file held in between; the byte at IR + x is left as it was.
#[verifier::rlimit(40)]
pub proof fn lemma_store_load_round_trip(
    s: MachineState,
    t: MachineState,
    x: int,
    r1: u8,
    r2: u8,
)
    requires
        s.wf(),
        t.wf(),
        1 <= x <= 15,
        fetch(s) == 0xF055 + 0x100 * x,
        t.memory == step_spec(s, r1).memory,
        t.ir == s.ir,
        fetch(t) == 0xF065 + 0x100 * x,
    ensures
        forall|i: int| 0 <= i < x ==> step_spec(t, r2).v[i] == s.v[i],
        step_spec(s, r1).memory[mem_addr(s.ir + x)] == s.memory[mem_addr(s.ir + x)],
{
    lemma_decode(fetch(s), 0xF, x, 5, 5);
    lemma_decode(fetch(t), 0xF, x, 6, 5);
    lemma_store_regs(s.memory, s.ir, s.v, x as nat);
    assert forall|j: int| 0 <= j < x implies mem_addr(s.ir + x) != #[trigger] mem_addr(s.ir + j) by {}
    assert forall|i: int| 0 <= i < x implies step_spec(t, r2).v[i] == s.v[i] by {
        assert(t.memory[mem_addr(s.ir + i)] == s.v[i]);
    }
}

/// A column (or row) reached `c` steps after `base`, wrapped onto the screen,
/// lies `c` steps after `base` modulo the screen size.
proof fn lemma_wrapped_offset(base: int, c: int)
    requires
        0 <= base,
        0 <= c < 64,
    ensures
        (((base + c) % 64) - base) % 64 == c,
{
    lemma_fundamental_div_mod(base + c, 64);
    let q = (base + c) / 64;
    lemma_fundamental_div_mod_converse(((base + c) % 64) - base, 64, -q, c);
}

/// The cell of a pixel lies on the screen, in the wrapped row and column.
proof fn lemma_pixel_index(px: int, py: int)
    requires
        0 <= px,
        0 <= py,
    ensures
        0 <= pixel_index(px, py) < 4096,
        pixel_index(px, py) / 64 == py % 64,
        pixel_index(px, py) % 64 == px % 64,
{
    lemma_fundamental_div_mod_converse(pixel_index(px, py), 64, py % 64, px % 64);
}

/// The cells of one sprite row are distinct, lie on row `y` of the screen, and
/// each lies fewer than `c` columns after `x`.
proof fn lemma_row_cells(row: u8, x: int, y: int, c: nat)
    requires
        0 <= x,
        0 <= y,
        c <= 8,
    ensures
        row_cells(row, x, y, c).no_duplicates(),
        forall|i: int|
            0 <= i < row_cells(row, x, y, c).len() ==> {
                let e = #[trigger] row_cells(row, x, y, c)[i];
                &&& 0 <= e < 4096
                &&& e / 64 == y % 64
                &&& (e % 64 - x) % 64 < c
            },
    decreases c,
{
    if c > 0 {
        let prev = row_cells(row, x, y, (c - 1) as nat);
        lemma_row_cells(row, x, y, (c - 1) as nat);
        if sprite_bit(row, (c - 1) as u8) {
            let e = pixel_index(x + c - 1, y);
            lemma_pixel_index(x + c - 1, y);
            lemma_wrapped_offset(x, c - 1);
            let cur = prev.push(e);
            assert forall|i: int, j: int| 0 <= i < j < cur.len() implies cur[i] != cur[j] by {
                if j == cur.len() - 1 {
                    assert(cur[i] == prev[i]);
                }
            }
        }
    }
}

/// The cells of a sprite of up to sixteen rows are distinct screen cells, and
/// each lies fewer than `rows` rows below `y`.
proof fn lemma_sprite_cells(memory: Seq<u8>, ir: u16, x: u8, y: u8, rows: nat)
    requires
        rows <= 16,
    ensures
        sprite_cells(memory, ir, x, y, rows).no_duplicates(),
        forall|i: int|
            0 <= i < sprite_cells(memory, ir, x, y, rows).len() ==> {
                let e = #[trigger] sprite_cells(memory, ir, x, y, rows)[i];
                &&& 0 <= e < 4096
                &&& (e / 64 - y) % 64 < rows
            },
    decreases rows,
{
    if rows > 0 {
        let prev = sprite_cells(memory, ir, x, y, (rows - 1) as nat);
        let yr = y + rows - 1;
        let cur_row = row_cells(memory[mem_addr(ir + rows - 1)], x as int, yr, 8);
        lemma_sprite_cells(memory, ir, x, y, (rows - 1) as nat);
        lemma_row_cells(memory[mem_addr(ir + rows - 1)], x as int, yr, 8);
        lemma_wrapped_offset(y as int, rows - 1);
        let all = prev + cur_row;
        assert forall|i: int| 0 <= i < all.len() implies {
            let e = #[trigger] all[i];
            &&& 0 <= e < 4096
            &&& (e / 64 - y) % 64 < rows
        } by {
            if i >= prev.len() {
                assert(all[i] == cur_row[i - prev.len()]);
            }
        }
        assert forall|i: int, j: int| 0 <= i < j < all.len() implies all[i] != all[j] by {
            if j >= prev.len() {
                assert(all[j] == cur_row[j - prev.len()]);
                if i >= prev.len() {
                    assert(all[i] == cur_row[i - prev.len()]);
                } else {
                    assert(all[i] == prev[i]);
                }
            }
        }
    }
}

/// Toggling distinct cells flips exactly those cells; a collision is reported
/// exactly when one of them was lit beforehand.
proof fn lemma_toggle_distinct(g: Seq<bool>, cells: Seq<int>)
    requires
        cells.no_duplicates(),
        forall|i: int| 0 <= i < cells.len() ==> 0 <= #[trigger] cells[i] < g.len(),
    ensures
        toggle_all(g, cells).len() == g.len(),
        forall|a: int|
            0 <= a < g.len() ==> #[trigger] toggle_all(g, cells)[a] == (g[a] != cells.contains(a)),
        collides(g, cells) == exists|i: int| 0 <= i < cells.len() && g[#[trigger] cells[i]],
    decreases cells.len(),
{
    if cells.len() > 0 {
        let prev = cells.drop_last();
        let last = cells.last();
        assert forall|i: int, j: int| 0 <= i < j < prev.len() implies prev[i] != prev[j] by {
            assert(prev[i] == cells[i] && prev[j] == cells[j]);
        }
        assert forall|i: int| 0 <= i < prev.len() implies 0 <= #[trigger] prev[i] < g.len() by {
            assert(prev[i] == cells[i]);
        }
        lemma_toggle_distinct(g, prev);
        assert(!prev.contains(last)) by {
            if prev.contains(last) {
                let k = choose|k: int| 0 <= k < prev.len() && prev[k] == last;
                assert(cells[k] == cells[cells.len() - 1]);
            }
        }
        assert forall|a: int| 0 <= a < g.len() implies cells.contains(a) == (prev.contains(a) || a
            == last) by {
            if prev.contains(a) {
                let k = choose|k: int| 0 <= k < prev.len() && prev[k] == a;
                assert(cells[k] == a);
            }
            if a == last {
                assert(cells[cells.len() - 1] == a);
            }
            if cells.contains(a) && a != last {
                let k = choose|k: int| 0 <= k < cells.len() && cells[k] == a;
                assert(prev[k] == a);
            }
        }
        if exists|i: int| 0 <= i < cells.len() && g[#[trigger] cells[i]] {
            let i = choose|i: int| 0 <= i < cells.len() && g[#[trigger] cells[i]];
            if i < prev.len() {
                assert(prev[i] == cells[i]);
            }
        }
        if exists|i: int| 0 <= i < prev.len() && g[#[trigger] prev[i]] {
            let i = choose|i: int| 0 <= i < prev.len() && g[#[trigger] prev[i]];
            assert(cells[i] == prev[i]);
        }
    }
}

/// Drawing a sprite (registers x and y other than VF) onto pixels that are all
/// dark reports no collision; drawing the same sprite at the same place again
/// puts the framebuffer back as it was, and reports a collision exactly when
/// the sprite lit any pixel.
pub proof fn lemma_draw_twice(s: MachineState, x: int, y: int, n: int)
    requires
        s.wf(),
        0 <= x < 15,
        0 <= y < 15,
        0 <= n < 16,
    ensures
        draw(draw(s, x, y, n), x, y, n).graphics == s.graphics,
        (forall|j: int|
            0 <= j < sprite_cells(s.memory, s.ir, s.v[x], s.v[y], n as nat).len()
                ==> !s.graphics[#[trigger] sprite_cells(s.memory, s.ir, s.v[x], s.v[y], n as nat)[j]])
            ==> draw(s, x, y, n).v[0xF] == 0 && draw(draw(s, x, y, n), x, y, n).v[0xF] == if sprite_cells(
            s.memory,
            s.ir,
            s.v[x],
            s.v[y],
            n as nat,
        ).len() > 0 {
            1u8
        } else {
            0u8
        },
{
    let cells = sprite_cells(s.memory, s.ir, s.v[x], s.v[y], n as nat);
    let s1 = draw(s, x, y, n);
    lemma_sprite_cells(s.memory, s.ir, s.v[x], s.v[y], n as nat);
    lemma_toggle_distinct(s.graphics, cells);
    assert(s1.v[x] == s.v[x] && s1.v[y] == s.v[y]);
    assert(sprite_cells(s1.memory, s1.ir, s1.v[x], s1.v[y], n as nat) == cells);
    lemma_toggle_distinct(s1.graphics, cells);
    assert(draw(s1, x, y, n).graphics =~= s.graphics);
    if forall|j: int| 0 <= j < cells.len() ==> !s.graphics[#[trigger] cells[j]] {
        if cells.len() > 0 {
            assert(cells.contains(cells[0]));
            assert(s1.graphics[cells[0]]);
        } else {
            if exists|i: int| 0 <= i < cells.len() && s1.graphics[#[trigger] cells[i]] {
                assert(false);
            }
        }
    }
}

/// A cycle on `Dxyn` draws as `draw` does: same framebuffer, same registers.
#[verifier::rlimit(40)]
pub proof fn lemma_draw_instruction(s: MachineState, x: int, y: int, n: int, rnd: u8)
    requires
        s.wf(),
        0 <= x < 16,
        0 <= y < 16,
        0 <= n < 16,
        fetch(s) == 0xD000 + 0x100 * x + 0x10 * y + n,
    ensures
        step_spec(s, rnd).graphics == draw(s, x, y, n).graphics,
        step_spec(s, rnd).v == draw(s, x, y, n).v,
{
    lemma_decode(fetch(s), 0xD, x, y, n);
}

} // verus!
