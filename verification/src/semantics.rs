//! The meaning of every instruction, as transition functions on the machine
//! view, and a one-step interpreter `spec_step` that fetches, advances the
//! program counter, decodes and dispatches exactly as the executable engine
//! does.  The executable machine is proved against these functions.

use vstd::prelude::*;
use crate::decode::{nib1, nib_x, nib_y, low4, low8, low12};
use crate::state::{CpuView, FaultKind, Fault, StepEvent};
use crate::font::font_seq;

verus! {

/// The address space at power-on: the font in the reserved region, zero
/// everywhere else.
pub open spec fn initial_memory() -> Seq<u8> {
    Seq::new(4096, |k: int| if k < 80 { font_seq()[k] } else { 0u8 })
}

/// The machine at power-on: everything zeroed except the program counter,
/// which starts at 0x200, and the preloaded font.
pub open spec fn spec_init() -> CpuView {
    CpuView {
        screen: Seq::new(2048, |k: int| false),
        memory: initial_memory(),
        regs: Seq::new(16, |k: int| 0u8),
        index: 0,
        pc: 0x200,
        stack: Seq::new(64, |k: int| 0u16),
        sp: 0,
        keypad: Seq::new(16, |k: int| 0u8),
        dt: 0,
        st: 0,
        draw_flag: false,
    }
}

/// The address space after a program image is copied in at 0x200.
pub open spec fn spec_load(s: CpuView, prog: Seq<u8>) -> CpuView {
    CpuView {
        memory: Seq::new(4096, |k: int|
            if 0x200 <= k < 0x200 + prog.len() { prog[k - 0x200] } else { s.memory[k] }),
        ..s
    }
}

/// The instruction word at the program counter, big-endian.
pub open spec fn opcode_at(s: CpuView) -> u16 {
    (s.memory[s.pc] * 256 + s.memory[s.pc + 1]) as u16
}

/// The program counter advanced past the fetched instruction.  This happens
/// before dispatch, so jumps, calls and skips overwrite or add to the already
/// advanced counter.
pub open spec fn spec_advance(s: CpuView) -> CpuView {
    CpuView { pc: s.pc + 2, ..s }
}

/// clear-screen: every pixel off, buffer marked dirty.
pub open spec fn spec_cls(s: CpuView) -> CpuView {
    CpuView { screen: Seq::new(2048, |k: int| false), draw_flag: true, ..s }
}

/// return: pop the saved address into the program counter.
pub open spec fn spec_ret(s: CpuView) -> CpuView {
    CpuView { sp: s.sp - 1, pc: s.stack[s.sp - 1] as int, ..s }
}

/// jump: program counter := the 12-bit address operand.
pub open spec fn spec_jump(s: CpuView, nnn: int) -> CpuView {
    CpuView { pc: nnn, ..s }
}

/// call: push the (already advanced) program counter, then jump.
pub open spec fn spec_call(s: CpuView, nnn: int) -> CpuView {
    CpuView { stack: s.stack.update(s.sp, s.pc as u16), sp: s.sp + 1, pc: nnn, ..s }
}

/// Conditional skip: advance the program counter 2 further bytes when the
/// condition holds.
pub open spec fn spec_skip_if(s: CpuView, cond: bool) -> CpuView {
    if cond { CpuView { pc: s.pc + 2, ..s } } else { s }
}

/// load-imm: register X := the immediate.
pub open spec fn spec_load_imm(s: CpuView, x: int, nn: u8) -> CpuView {
    CpuView { regs: s.regs.update(x, nn), ..s }
}

/// add-imm: register X := (X + immediate) mod 256; the flag is untouched.
pub open spec fn spec_add_imm(s: CpuView, x: int, nn: u8) -> CpuView {
    CpuView { regs: s.regs.update(x, ((s.regs[x] + nn) % 256) as u8), ..s }
}

/// reg-copy: register X := register Y.
pub open spec fn spec_copy(s: CpuView, x: int, y: int) -> CpuView {
    CpuView { regs: s.regs.update(x, s.regs[y]), ..s }
}

/// bitwise OR: register X := X | Y; no flag side effect.
pub open spec fn spec_or(s: CpuView, x: int, y: int) -> CpuView {
    CpuView { regs: s.regs.update(x, s.regs[x] | s.regs[y]), ..s }
}

/// bitwise AND: register X := X & Y; no flag side effect.
pub open spec fn spec_and(s: CpuView, x: int, y: int) -> CpuView {
    CpuView { regs: s.regs.update(x, s.regs[x] & s.regs[y]), ..s }
}

/// bitwise XOR: register X := X ^ Y; no flag side effect.
pub open spec fn spec_xor(s: CpuView, x: int, y: int) -> CpuView {
    CpuView { regs: s.regs.update(x, s.regs[x] ^ s.regs[y]), ..s }
}

/// add-reg: register X := low byte of X + Y; the flag is the carry bit.
/// The flag is written after the sum, so with X = 15 the flag wins.
pub open spec fn spec_add_reg(s: CpuView, x: int, y: int) -> CpuView {
    let sum = s.regs[x] + s.regs[y];
    CpuView {
        regs: s.regs.update(x, (sum % 256) as u8)
            .update(15, if sum >= 256 { 1u8 } else { 0u8 }),
        ..s
    }
}

/// sub-reg: register X := low byte of X - Y; the flag is 1 exactly when no
/// borrow occurred, that is when X >= Y.  Flag written last.
pub open spec fn spec_sub_reg(s: CpuView, x: int, y: int) -> CpuView {
    let diff = s.regs[x] - s.regs[y];
    CpuView {
        regs: s.regs.update(x, ((diff % 256) as u8))
            .update(15, if s.regs[x] >= s.regs[y] { 1u8 } else { 0u8 }),
        ..s
    }
}

/// subn-reg: register X := low byte of Y - X, same borrow convention
/// (flag 1 exactly when Y >= X).  Flag written last.
pub open spec fn spec_subn_reg(s: CpuView, x: int, y: int) -> CpuView {
    let diff = s.regs[y] - s.regs[x];
    CpuView {
        regs: s.regs.update(x, ((diff % 256) as u8))
            .update(15, if s.regs[y] >= s.regs[x] { 1u8 } else { 0u8 }),
        ..s
    }
}

/// shift-right: the flag takes the lowest bit of X before the shift, then
/// register X := X >> 1.  The flag is written first, so with X = 15 the
/// shifted value wins.
pub open spec fn spec_shr(s: CpuView, x: int) -> CpuView {
    CpuView {
        regs: s.regs.update(15, s.regs[x] & 1).update(x, s.regs[x] >> 1),
        ..s
    }
}

/// shift-left: the flag takes the highest bit of X before the shift, then
/// register X := low byte of X << 1.  Flag written first.
pub open spec fn spec_shl(s: CpuView, x: int) -> CpuView {
    CpuView {
        regs: s.regs.update(15, (s.regs[x] & 0x80) >> 7).update(x, s.regs[x] << 1),
        ..s
    }
}

/// load-index: index register := the 12-bit address operand.
pub open spec fn spec_load_index(s: CpuView, nnn: int) -> CpuView {
    CpuView { index: nnn, ..s }
}

/// jump-indexed: program counter := register 0 + the 12-bit address operand,
/// computed in full (no truncation to a byte).
pub open spec fn spec_jump_indexed(s: CpuView, nnn: int) -> CpuView {
    CpuView { pc: s.regs[0] + nnn, ..s }
}

/// random-and: register X := r & immediate, where r is whatever byte the
/// random source produced.
pub open spec fn spec_rnd(s: CpuView, x: int, nn: u8, r: u8) -> CpuView {
    CpuView { regs: s.regs.update(x, r & nn), ..s }
}

/// get-delay-timer: register X := delay timer.
pub open spec fn spec_get_dt(s: CpuView, x: int) -> CpuView {
    CpuView { regs: s.regs.update(x, s.dt), ..s }
}

/// set-delay-timer.
pub open spec fn spec_set_dt(s: CpuView, x: int) -> CpuView {
    CpuView { dt: s.regs[x], ..s }
}

/// set-sound-timer.
pub open spec fn spec_set_st(s: CpuView, x: int) -> CpuView {
    CpuView { st: s.regs[x], ..s }
}

/// add-to-index: index register := (index + X) masked to the address space.
pub open spec fn spec_add_index(s: CpuView, x: int) -> CpuView {
    CpuView { index: (s.index + s.regs[x]) % 4096, ..s }
}

/// set-index-to-glyph: index register := address of the font glyph for the
/// digit in register X; glyphs are 5 bytes each starting at address 0.
pub open spec fn spec_glyph(s: CpuView, x: int) -> CpuView {
    CpuView { index: 5 * s.regs[x], ..s }
}

/// store-bcd: the three decimal digits of register X, written at the index
/// register: hundreds, tens, ones.
pub open spec fn spec_store_bcd(s: CpuView, x: int) -> CpuView {
    let v = s.regs[x];
    CpuView {
        memory: s.memory.update(s.index, v / 100)
            .update(s.index + 1, v % 100 / 10)
            .update(s.index + 2, v % 10),
        ..s
    }
}

/// store-registers: registers 0..X inclusive written to memory at the index
/// register, in ascending order.
pub open spec fn spec_store_regs(s: CpuView, x: int) -> CpuView {
    CpuView {
        memory: Seq::new(4096, |k: int|
            if s.index <= k <= s.index + x { s.regs[k - s.index] } else { s.memory[k] }),
        ..s
    }
}

/// load-registers: memory at the index register read into registers 0..X
/// inclusive, in ascending order.
pub open spec fn spec_load_regs(s: CpuView, x: int) -> CpuView {
    CpuView {
        regs: Seq::new(16, |k: int|
            if 0 <= k <= x { s.memory[s.index + k] } else { s.regs[k] }),
        ..s
    }
}

/// The first pressed key at index `k` or above, scanning indices 0..14
/// inclusive; -1 when none of them is pressed.
pub open spec fn first_pressed(kp: Seq<u8>, k: int) -> int
    decreases 15 - k,
{
    if k < 0 || k >= 15 {
        -1
    } else if kp[k] != 0 {
        k
    } else {
        first_pressed(kp, k + 1)
    }
}

proof fn lemma_first_pressed_found_from(kp: Seq<u8>, k: int, j: int)
    requires
        0 <= j <= k < 15,
        kp[k] != 0,
        forall|j2: int| 0 <= j2 < k ==> kp[j2] == 0,
    ensures
        first_pressed(kp, j) == k,
    decreases k - j,
{
    if j < k {
        lemma_first_pressed_found_from(kp, k, j + 1);
    }
}

/// The scan finds exactly the lowest pressed index among 0..14.
pub proof fn lemma_first_pressed_found(kp: Seq<u8>, k: int)
    requires
        0 <= k < 15,
        kp[k] != 0,
        forall|j: int| 0 <= j < k ==> kp[j] == 0,
    ensures
        first_pressed(kp, 0) == k,
{
    lemma_first_pressed_found_from(kp, k, 0);
}

proof fn lemma_first_pressed_none_from(kp: Seq<u8>, j: int)
    requires
        0 <= j,
        forall|j2: int| 0 <= j2 < 15 ==> kp[j2] == 0,
    ensures
        first_pressed(kp, j) == -1,
    decreases 15 - j,
{
    if j < 15 {
        lemma_first_pressed_none_from(kp, j + 1);
    }
}

/// With no key among 0..14 pressed, the scan reports none.
pub proof fn lemma_first_pressed_none(kp: Seq<u8>)
    requires
        forall|j: int| 0 <= j < 15 ==> kp[j] == 0,
    ensures
        first_pressed(kp, 0) == -1,
{
    lemma_first_pressed_none_from(kp, 0);
}

/// await-key: if a key among 0..14 is pressed, the lowest such index goes
/// into register X and execution proceeds; otherwise the program counter is
/// rolled back 2 bytes so the same instruction re-executes next step.
pub open spec fn spec_await_key(s: CpuView, x: int) -> CpuView {
    let f = first_pressed(s.keypad, 0);
    if f >= 0 {
        CpuView { regs: s.regs.update(x, f as u8), ..s }
    } else {
        CpuView { pc: s.pc - 2, ..s }
    }
}

// ---------------------------------------------------------------------------
// Sprite composition.

/// Bit `col` of a sprite row byte, most-significant bit first.
pub open spec fn sprite_bit(b: u8, col: int) -> bool {
    (b >> ((7 - col) as u8)) & 1 == 1
}

/// Frame-buffer position of sprite cell (row, col) drawn at origin
/// (x0, y0): both axes wrap independently.
pub open spec fn target_index(x0: int, y0: int, row: int, col: int) -> int {
    ((y0 + row) % 32) * 64 + (x0 + col) % 64
}

/// Some sprite cell among the first `r` full rows, or among the first `c`
/// cells of row `r`, has its bit set and lands on pixel `k`.
pub open spec fn hits_prefix(
    mem: Seq<u8>, i: int, x0: int, y0: int, r: int, c: int, k: int,
) -> bool {
    exists |row: int, col: int|
        0 <= row && 0 <= col < 8 && (row < r || (row == r && col < c))
        && sprite_bit(mem[i + row], col)
        && #[trigger] target_index(x0, y0, row, col) == k
}

/// Some cell of the full n-row sprite has its bit set and lands on pixel `k`.
pub open spec fn draw_hits(mem: Seq<u8>, i: int, x0: int, y0: int, n: int, k: int) -> bool {
    hits_prefix(mem, i, x0, y0, n, 0, k)
}

/// The screen after XOR-compositing the cells of the first `r` full rows and
/// the first `c` cells of row `r`.
pub open spec fn screen_prefix(
    sc: Seq<bool>, mem: Seq<u8>, i: int, x0: int, y0: int, r: int, c: int,
) -> Seq<bool> {
    Seq::new(2048, |k: int| sc[k] != hits_prefix(mem, i, x0, y0, r, c, k))
}

/// The screen after drawing the full n-row sprite: each pixel flipped
/// exactly when a set sprite bit lands on it.
pub open spec fn screen_after_draw(
    sc: Seq<bool>, mem: Seq<u8>, i: int, x0: int, y0: int, n: int,
) -> Seq<bool> {
    screen_prefix(sc, mem, i, x0, y0, n, 0)
}

/// Some cell among the prefix has its bit set and lands on a pixel that was
/// already on in `sc`: a collision.
pub open spec fn collide_prefix(
    sc: Seq<bool>, mem: Seq<u8>, i: int, x0: int, y0: int, r: int, c: int,
) -> bool {
    exists |row: int, col: int|
        0 <= row && 0 <= col < 8 && (row < r || (row == r && col < c))
        && sprite_bit(mem[i + row], col)
        && sc[#[trigger] target_index(x0, y0, row, col)]
}

/// Collision of the full n-row sprite against screen `sc`.
pub open spec fn draw_collision(
    sc: Seq<bool>, mem: Seq<u8>, i: int, x0: int, y0: int, n: int,
) -> bool {
    collide_prefix(sc, mem, i, x0, y0, n, 0)
}

/// draw-sprite: the n rows at the index register, 8 bits wide, composited by
/// XOR at the origin held in registers X and Y; the flag becomes the
/// collision indicator; the buffer is marked dirty.
pub open spec fn spec_draw(s: CpuView, x: int, y: int, n: int) -> CpuView {
    let x0 = s.regs[x] as int;
    let y0 = s.regs[y] as int;
    CpuView {
        screen: screen_after_draw(s.screen, s.memory, s.index, x0, y0, n),
        regs: s.regs.update(15,
            if draw_collision(s.screen, s.memory, s.index, x0, y0, n) { 1u8 } else { 0u8 }),
        draw_flag: true,
        ..s
    }
}

/// Adding a shift below the modulus moves a value to a different residue.
proof fn lemma_mod_shift_ne(a: int, d: int, m: int)
    requires
        0 <= a,
        0 < d < m,
    ensures
        (a + d) % m != a % m,
{
    vstd::arithmetic::div_mod::lemma_fundamental_div_mod(a, m);
    vstd::arithmetic::div_mod::lemma_mod_division_less_than_divisor(a, m);
    let q = a / m;
    let r = a % m;
    assert(a == m * q + r);
    assert(m * q == q * m) by (nonlinear_arith);
    if r + d < m {
        assert(a + d == q * m + (r + d));
        vstd::arithmetic::div_mod::lemma_fundamental_div_mod_converse(a + d, m, q, r + d);
    } else {
        assert((q + 1) * m == q * m + m) by (nonlinear_arith);
        assert(a + d == (q + 1) * m + (r + d - m));
        vstd::arithmetic::div_mod::lemma_fundamental_div_mod_converse(
            a + d, m, q + 1, r + d - m);
    }
}

/// A target position is inside the frame buffer, and its row and column are
/// recovered by division and remainder.
pub proof fn lemma_target_decompose(x0: int, y0: int, row: int, col: int)
    ensures
        ({
            let t = target_index(x0, y0, row, col);
            &&& 0 <= t < 2048
            &&& t % 64 == (x0 + col) % 64
            &&& t / 64 == (y0 + row) % 32
        }),
{
    let px = (x0 + col) % 64;
    let py = (y0 + row) % 32;
    vstd::arithmetic::div_mod::lemma_mod_division_less_than_divisor(x0 + col, 64);
    vstd::arithmetic::div_mod::lemma_mod_division_less_than_divisor(y0 + row, 32);
    vstd::arithmetic::div_mod::lemma_fundamental_div_mod_converse(py * 64 + px, 64, py, px);
}

/// Distinct cells of one sprite land on distinct pixels: the 8 columns stay
/// within one wrapped row span, and at most 15 rows wrap without colliding.
pub proof fn lemma_cell_injective(
    x0: int, y0: int, row: int, col: int, row2: int, col2: int,
)
    requires
        0 <= x0,
        0 <= y0,
        0 <= row < 16,
        0 <= col < 8,
        0 <= row2 < 16,
        0 <= col2 < 8,
        !(row == row2 && col == col2),
    ensures
        target_index(x0, y0, row, col) != target_index(x0, y0, row2, col2),
{
    lemma_target_decompose(x0, y0, row, col);
    lemma_target_decompose(x0, y0, row2, col2);
    if row != row2 {
        if row < row2 {
            lemma_mod_shift_ne(y0 + row, row2 - row, 32);
        } else {
            lemma_mod_shift_ne(y0 + row2, row - row2, 32);
        }
    } else {
        if col < col2 {
            lemma_mod_shift_ne(x0 + col, col2 - col, 64);
        } else {
            lemma_mod_shift_ne(x0 + col2, col - col2, 64);
        }
    }
}

// ---------------------------------------------------------------------------
// One full step.

/// Outcome of one step of the interpreter: a recognized instruction ran, an
/// unrecognized word was skipped, or a fatal fault was detected.  The view
/// carried is the machine state afterwards.
pub ghost enum StepOut {
    Ran(CpuView),
    Unknown(u16, CpuView),
    Failed(FaultKind, CpuView),
}

/// Dispatch of one fetched instruction word against the already advanced
/// state `s`.  The family is the top nibble; families 0, 8 and 14 are
/// sub-selected by the bottom nibble and family 15 by the low byte.  `rnd`
/// is the byte the random source produced, read only by random-and.
pub open spec fn spec_dispatch(s: CpuView, op: u16, rnd: u8) -> StepOut {
    let x = nib_x(op) as int;
    let y = nib_y(op) as int;
    let nn = low8(op);
    let nnn = low12(op) as int;
    let n = low4(op) as int;
    match nib1(op) {
        0 => if low4(op) == 0x0 {
            StepOut::Ran(spec_cls(s))
        } else if low4(op) == 0xE {
            if s.sp == 0 {
                StepOut::Failed(FaultKind::StackUnderflow, s)
            } else {
                StepOut::Ran(spec_ret(s))
            }
        } else {
            StepOut::Unknown(op, s)
        },
        1 => StepOut::Ran(spec_jump(s, nnn)),
        2 => if s.sp >= 64 {
            StepOut::Failed(FaultKind::StackOverflow, s)
        } else {
            StepOut::Ran(spec_call(s, nnn))
        },
        3 => StepOut::Ran(spec_skip_if(s, s.regs[x] == nn)),
        4 => StepOut::Ran(spec_skip_if(s, s.regs[x] != nn)),
        5 => StepOut::Ran(spec_skip_if(s, s.regs[x] == s.regs[y])),
        6 => StepOut::Ran(spec_load_imm(s, x, nn)),
        7 => StepOut::Ran(spec_add_imm(s, x, nn)),
        8 => match low4(op) {
            0x0 => StepOut::Ran(spec_copy(s, x, y)),
            0x1 => StepOut::Ran(spec_or(s, x, y)),
            0x2 => StepOut::Ran(spec_and(s, x, y)),
            0x3 => StepOut::Ran(spec_xor(s, x, y)),
            0x4 => StepOut::Ran(spec_add_reg(s, x, y)),
            0x5 => StepOut::Ran(spec_sub_reg(s, x, y)),
            0x6 => StepOut::Ran(spec_shr(s, x)),
            0x7 => StepOut::Ran(spec_subn_reg(s, x, y)),
            0xE => StepOut::Ran(spec_shl(s, x)),
            _ => StepOut::Unknown(op, s),
        },
        9 => StepOut::Ran(spec_skip_if(s, s.regs[x] != s.regs[y])),
        10 => StepOut::Ran(spec_load_index(s, nnn)),
        11 => StepOut::Ran(spec_jump_indexed(s, nnn)),
        12 => StepOut::Ran(spec_rnd(s, x, nn, rnd)),
        13 => if s.index + n > 4096 {
            StepOut::Failed(FaultKind::OutOfRange, s)
        } else {
            StepOut::Ran(spec_draw(s, x, y, n))
        },
        14 => match low4(op) {
            0xE => if s.regs[x] >= 16 {
                StepOut::Failed(FaultKind::OutOfRange, s)
            } else {
                StepOut::Ran(spec_skip_if(s, s.keypad[s.regs[x] as int] != 0))
            },
            0x1 => if s.regs[x] >= 16 {
                StepOut::Failed(FaultKind::OutOfRange, s)
            } else {
                StepOut::Ran(spec_skip_if(s, s.keypad[s.regs[x] as int] == 0))
            },
            _ => StepOut::Unknown(op, s),
        },
        _ => match low8(op) {
            0x07 => StepOut::Ran(spec_get_dt(s, x)),
            0x0A => StepOut::Ran(spec_await_key(s, x)),
            0x15 => StepOut::Ran(spec_set_dt(s, x)),
            0x18 => StepOut::Ran(spec_set_st(s, x)),
            0x1E => StepOut::Ran(spec_add_index(s, x)),
            0x29 => StepOut::Ran(spec_glyph(s, x)),
            0x33 => if s.index + 2 >= 4096 {
                StepOut::Failed(FaultKind::OutOfRange, s)
            } else {
                StepOut::Ran(spec_store_bcd(s, x))
            },
            0x55 => if s.index + x >= 4096 {
                StepOut::Failed(FaultKind::OutOfRange, s)
            } else {
                StepOut::Ran(spec_store_regs(s, x))
            },
            0x65 => if s.index + x >= 4096 {
                StepOut::Failed(FaultKind::OutOfRange, s)
            } else {
                StepOut::Ran(spec_load_regs(s, x))
            },
            _ => StepOut::Unknown(op, s),
        },
    }
}

/// One full step: fetch (out of range is fatal), advance the program counter
/// by 2, then dispatch.
pub open spec fn spec_step(s: CpuView, rnd: u8) -> StepOut {
    if s.pc + 1 >= 4096 {
        StepOut::Failed(FaultKind::FetchOutOfRange, s)
    } else {
        spec_dispatch(spec_advance(s), opcode_at(s), rnd)
    }
}

/// Relates the result and post-state of one executable step to the one-step
/// interpreter: the machine lands in the interpreter's state and reports the
/// interpreter's outcome, with a fault carrying the faulting instruction and
/// its address (word 0 when the fetch itself was out of range).
pub open spec fn step_matches(
    pre: CpuView, post: CpuView, rnd: u8, r: Result<StepEvent, Fault>,
) -> bool {
    match spec_step(pre, rnd) {
        StepOut::Ran(s) => post == s && r == Ok::<StepEvent, Fault>(StepEvent::Executed),
        StepOut::Unknown(op, s) => post == s
            && r == Ok::<StepEvent, Fault>(StepEvent::Unrecognized(op)),
        StepOut::Failed(k, s) => post == s && r == Err::<StepEvent, Fault>(Fault {
            kind: k,
            pc: pre.pc as usize,
            op: if k == FaultKind::FetchOutOfRange { 0 } else { opcode_at(pre) },
        }),
    }
}

} // verus!
