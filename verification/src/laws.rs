//! Laws of the machine, proved once and for all over the transition
//! functions of `semantics`: the arithmetic of the carry and borrow flags,
//! the XOR involution and collision behaviour of sprite drawing, edge
//! wraparound, call/return pairing, and the blocking await-key poll.

use vstd::prelude::*;
use crate::decode::{nib1, nib_x, low8};
use crate::state::{CpuView, wf};
use crate::semantics::{spec_add_reg, spec_sub_reg, spec_shr, spec_call, spec_ret,
    spec_await_key, spec_advance, spec_step, StepOut, opcode_at, screen_after_draw,
    draw_collision, draw_hits, hits_prefix, collide_prefix, sprite_bit, target_index,
    lemma_target_decompose, lemma_first_pressed_none, lemma_first_pressed_found};

verus! {

/// For every pair of registers X != 15 and Y and whatever bytes they hold,
/// add-reg leaves the low byte of the sum in X and the carry bit in the
/// flag.  (With X = 15 the flag write wins, so X is the flag itself there.)
pub proof fn lemma_add_reg_arith(s: CpuView, x: int, y: int)
    requires
        wf(s),
        0 <= x < 16,
        0 <= y < 16,
        x != 15,
    ensures
        spec_add_reg(s, x, y).regs[x] == (s.regs[x] + s.regs[y]) % 256,
        spec_add_reg(s, x, y).regs[15]
            == (if s.regs[x] + s.regs[y] >= 256 { 1u8 } else { 0u8 }),
{
}

/// For every pair of registers X != 15 and Y, sub-reg leaves the low byte
/// of X - Y in X, and the flag is 1 exactly when X >= Y (no borrow).
pub proof fn lemma_sub_reg_borrow(s: CpuView, x: int, y: int)
    requires
        wf(s),
        0 <= x < 16,
        0 <= y < 16,
        x != 15,
    ensures
        spec_sub_reg(s, x, y).regs[x] == (s.regs[x] - s.regs[y]) % 256,
        spec_sub_reg(s, x, y).regs[15]
            == (if s.regs[x] >= s.regs[y] { 1u8 } else { 0u8 }),
{
}

/// For every register X != 15 and value v it holds, shift-right leaves
/// v >> 1 (that is, v / 2) in X and the low bit v & 1 (v mod 2) in the flag.
pub proof fn lemma_shift_right(s: CpuView, x: int)
    requires
        wf(s),
        0 <= x < 16,
        x != 15,
    ensures
        spec_shr(s, x).regs[x] == s.regs[x] >> 1u8,
        spec_shr(s, x).regs[15] == s.regs[x] & 1,
        spec_shr(s, x).regs[x] == s.regs[x] / 2,
        spec_shr(s, x).regs[15] == s.regs[x] % 2,
{
    let v = s.regs[x];
    assert(v >> 1u8 == v / 2) by (bit_vector);
    assert(v & 1 == v % 2) by (bit_vector);
}

/// Drawing one sprite twice at the same coordinates restores every pixel
/// (XOR is an involution), and the second pass collides exactly on the
/// pixels the first pass turned on.
pub proof fn lemma_draw_twice(sc: Seq<bool>, mem: Seq<u8>, i: int, x0: int, y0: int, n: int)
    requires
        sc.len() == 2048,
    ensures
        screen_after_draw(screen_after_draw(sc, mem, i, x0, y0, n), mem, i, x0, y0, n)
            == sc,
        draw_collision(screen_after_draw(sc, mem, i, x0, y0, n), mem, i, x0, y0, n)
            == (exists|row: int, col: int|
                0 <= row < n && 0 <= col < 8
                && sprite_bit(mem[i + row], col)
                && !sc[#[trigger] target_index(x0, y0, row, col)]),
{
    let s1 = screen_after_draw(sc, mem, i, x0, y0, n);
    assert(screen_after_draw(s1, mem, i, x0, y0, n) =~= sc);
    let lit = (exists|row: int, col: int|
        0 <= row < n && 0 <= col < 8
        && sprite_bit(mem[i + row], col)
        && !sc[#[trigger] target_index(x0, y0, row, col)]);
    if draw_collision(s1, mem, i, x0, y0, n) {
        let (row, col) = choose|row: int, col: int|
            0 <= row && 0 <= col < 8 && (row < n || (row == n && col < 0))
            && sprite_bit(mem[i + row], col)
            && s1[#[trigger] target_index(x0, y0, row, col)];
        let t = target_index(x0, y0, row, col);
        lemma_target_decompose(x0, y0, row, col);
        assert(hits_prefix(mem, i, x0, y0, n, 0, t));
        assert(s1[t] == !sc[t]);
        assert(lit);
    }
    if lit {
        let (row, col) = choose|row: int, col: int|
            0 <= row < n && 0 <= col < 8
            && sprite_bit(mem[i + row], col)
            && !sc[#[trigger] target_index(x0, y0, row, col)];
        let t = target_index(x0, y0, row, col);
        lemma_target_decompose(x0, y0, row, col);
        assert(hits_prefix(mem, i, x0, y0, n, 0, t));
        assert(s1[t]);
        assert(collide_prefix(s1, mem, i, x0, y0, n, 0));
    }
}

/// Wraparound at the right edge: the 8 columns of a sprite drawn at column
/// 60 land on columns 60..63 and then 0..3, never outside the buffer.
pub proof fn lemma_wrap_at_column_60(col: int)
    requires
        0 <= col < 8,
    ensures
        0 <= (60 + col) % 64 < 64,
        col < 4 ==> (60 + col) % 64 == 60 + col,
        col >= 4 ==> (60 + col) % 64 == col - 4,
{
    if col < 4 {
        vstd::arithmetic::div_mod::lemma_small_mod((60 + col) as nat, 64);
    } else {
        vstd::arithmetic::div_mod::lemma_mod_add_multiples_vanish(col - 4, 64);
        vstd::arithmetic::div_mod::lemma_small_mod((col - 4) as nat, 64);
    }
}

/// Every pixel a sprite drawn at column 60 touches lies in one of the two
/// wrapped column bands.
pub proof fn lemma_draw_at_60_stays_wrapped(
    mem: Seq<u8>, i: int, y0: int, n: int, k: int,
)
    requires
        0 <= k < 2048,
        draw_hits(mem, i, 60, y0, n, k),
    ensures
        60 <= k % 64 <= 63 || 0 <= k % 64 <= 3,
{
    let (row, col) = choose|row: int, col: int|
        0 <= row && 0 <= col < 8 && (row < n || (row == n && col < 0))
        && sprite_bit(mem[i + row], col)
        && #[trigger] target_index(60, y0, row, col) == k;
    lemma_target_decompose(60, y0, row, col);
    lemma_wrap_at_column_60(col);
}

/// A call followed by a return restores the exact program counter saved at
/// call time, from any well-formed state with stack room.
pub proof fn lemma_call_then_return(s: CpuView, nnn: int)
    requires
        wf(s),
        s.sp < 64,
    ensures
        spec_ret(spec_call(s, nnn)).pc == s.pc,
{
}

/// With no key among 0..14 pressed, a step at an await-key instruction
/// leaves the machine exactly as it was: the rollback cancels the advance,
/// so the same instruction re-executes next step.
pub proof fn lemma_await_key_blocked_step(s: CpuView, rnd: u8)
    requires
        wf(s),
        s.pc + 1 < 4096,
        nib1(opcode_at(s)) == 0xF,
        low8(opcode_at(s)) == 0x0A,
        forall|k: int| 0 <= k < 15 ==> s.keypad[k] == 0,
    ensures
        spec_step(s, rnd) == StepOut::Ran(s),
{
    lemma_first_pressed_none(s.keypad);
    assert(spec_await_key(spec_advance(s), nib_x(opcode_at(s)) as int) =~~= s);
}

/// State unchanged across a whole run of blocked steps, whatever bytes the
/// random source would have produced.
pub open spec fn stays_blocked(s: CpuView, rnds: Seq<u8>) -> bool
    decreases rnds.len(),
{
    rnds.len() == 0
        || (spec_step(s, rnds[0]) == StepOut::Ran(s) && stays_blocked(s, rnds.drop_first()))
}

/// Any number N of consecutive steps with no key pressed leaves the machine
/// (in particular the program counter) unchanged.
pub proof fn lemma_await_key_blocked_many(s: CpuView, rnds: Seq<u8>)
    requires
        wf(s),
        s.pc + 1 < 4096,
        nib1(opcode_at(s)) == 0xF,
        low8(opcode_at(s)) == 0x0A,
        forall|k: int| 0 <= k < 15 ==> s.keypad[k] == 0,
    ensures
        stays_blocked(s, rnds),
    decreases rnds.len(),
{
    if rnds.len() > 0 {
        lemma_await_key_blocked_step(s, rnds[0]);
        lemma_await_key_blocked_many(s, rnds.drop_first());
    }
}

/// On the step where key k, the lowest pressed index among 0..14, is down,
/// await-key stores k into register X and the program counter advances
/// normally.
pub proof fn lemma_await_key_press(s: CpuView, rnd: u8, k: int)
    requires
        wf(s),
        s.pc + 1 < 4096,
        nib1(opcode_at(s)) == 0xF,
        low8(opcode_at(s)) == 0x0A,
        0 <= k < 15,
        s.keypad[k] != 0,
        forall|j: int| 0 <= j < k ==> s.keypad[j] == 0,
    ensures
        spec_step(s, rnd) == StepOut::Ran(CpuView {
            pc: s.pc + 2,
            regs: s.regs.update(nib_x(opcode_at(s)) as int, k as u8),
            ..s
        }),
{
    lemma_first_pressed_found(s.keypad, k);
    assert(spec_await_key(spec_advance(s), nib_x(opcode_at(s)) as int) =~~= (CpuView {
        pc: s.pc + 2,
        regs: s.regs.update(nib_x(opcode_at(s)) as int, k as u8),
        ..s
    }));
}

} // verus!
