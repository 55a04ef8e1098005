//! The executable machine.  Every method is proved against the transition
//! functions of `semantics`: one instruction handler per opcode, a
//! fetch-decode-dispatch `tick`, and the 60 Hz timer step.  Fatal conditions
//! (out-of-range access, stack overflow and underflow) are detected and
//! returned as faults; the verified code never panics.

use vstd::prelude::*;
use crate::decode::{get_1, get_2, get_3, get_4, get_nn, get_nnn,
    nib_x, nib_y, low4, low8, low12, lemma_decode_bounds};
use crate::font::font_bytes;
use crate::semantics::{initial_memory, spec_init, spec_load, spec_advance, spec_cls,
    spec_ret, spec_jump, spec_call, spec_skip_if, spec_load_imm, spec_add_imm, spec_copy,
    spec_or, spec_and, spec_xor, spec_add_reg, spec_sub_reg, spec_subn_reg, spec_shr,
    spec_shl, spec_load_index, spec_jump_indexed, spec_rnd, spec_get_dt, spec_set_dt,
    spec_set_st, spec_add_index, spec_glyph, spec_store_bcd, spec_store_regs,
    spec_load_regs, spec_await_key, opcode_at,
    step_matches, sprite_bit, target_index, hits_prefix,
    screen_prefix, collide_prefix, spec_draw,
    lemma_first_pressed_found, lemma_first_pressed_none,
    lemma_target_decompose, lemma_cell_injective};
use crate::state::{CpuView, Fault, FaultKind, StepEvent};

verus! {

/// A byte vector of length `n`, all `b`.
fn filled_bytes(n: usize, b: u8) -> (r: Vec<u8>)
    ensures
        r@ == Seq::new(n as nat, |k: int| b),
{
    let mut v: Vec<u8> = Vec::new();
    while v.len() < n
        invariant
            v@.len() <= n,
            forall|k: int| 0 <= k < v@.len() ==> v@[k] == b,
        decreases n - v@.len(),
    {
        v.push(b);
    }
    proof {
        assert(v@ =~= Seq::new(n as nat, |k: int| b));
    }
    v
}

/// A pixel vector of length `n`, all off.
fn blank_pixels(n: usize) -> (r: Vec<bool>)
    ensures
        r@ == Seq::new(n as nat, |k: int| false),
{
    let mut v: Vec<bool> = Vec::new();
    while v.len() < n
        invariant
            v@.len() <= n,
            forall|k: int| 0 <= k < v@.len() ==> !v@[k],
        decreases n - v@.len(),
    {
        v.push(false);
    }
    proof {
        assert(v@ =~= Seq::new(n as nat, |k: int| false));
    }
    v
}

/// A word vector of length `n`, all zero.
fn zero_words(n: usize) -> (r: Vec<u16>)
    ensures
        r@ == Seq::new(n as nat, |k: int| 0u16),
{
    let mut v: Vec<u16> = Vec::new();
    while v.len() < n
        invariant
            v@.len() <= n,
            forall|k: int| 0 <= k < v@.len() ==> v@[k] == 0u16,
        decreases n - v@.len(),
    {
        v.push(0);
    }
    proof {
        assert(v@ =~= Seq::new(n as nat, |k: int| 0u16));
    }
    v
}

/// Relies on rand::random::<u8>: produces a byte.  Nothing is assumed about
/// its value, so everything proved of the machine holds for every outcome.
#[verifier::external_body]
fn random_byte() -> u8 {
    rand::random::<u8>()
}

/// The machine: address space, register file, call stack, frame buffer,
/// input latch and timers.  Its view is a `CpuView`.
pub struct CPU {
    screen: Vec<bool>,
    memory: Vec<u8>,
    register: Vec<u8>,
    index: usize,
    pc: usize,
    stack: Vec<u16>,
    sp: usize,
    keypad: Vec<u8>,
    dt: u8,
    st: u8,
    draw_flag: bool,
}

impl View for CPU {
    type V = CpuView;

    closed spec fn view(&self) -> CpuView {
        CpuView {
            screen: self.screen@,
            memory: self.memory@,
            regs: self.register@,
            index: self.index as int,
            pc: self.pc as int,
            stack: self.stack@,
            sp: self.sp as int,
            keypad: self.keypad@,
            dt: self.dt,
            st: self.st,
            draw_flag: self.draw_flag,
        }
    }
}

impl CPU {
    /// The machine is well-formed: see `state::wf`.
    pub open spec fn wf(&self) -> bool {
        crate::state::wf(self@)
    }

    /// A zeroed machine: program counter at 0x200, font preloaded.
    pub fn new() -> (r: CPU)
        ensures
            r.wf(),
            r@ == spec_init(),
    {
        let mut memory = font_bytes();
        while memory.len() < 4096
            invariant
                80 <= memory@.len() <= 4096,
                forall|k: int| 0 <= k < memory@.len() ==> memory@[k] == initial_memory()[k],
            decreases 4096 - memory@.len(),
        {
            memory.push(0);
        }
        let cpu = CPU {
            screen: blank_pixels(2048),
            memory,
            register: filled_bytes(16, 0),
            index: 0,
            pc: 0x200,
            stack: zero_words(64),
            sp: 0,
            keypad: filled_bytes(16, 0),
            dt: 0,
            st: 0,
            draw_flag: false,
        };
        proof {
            assert(cpu@.memory =~= initial_memory());
            assert(cpu@ =~~= spec_init());
        }
        cpu
    }

    /// Copy a program image into the address space starting at 0x200.  The
    /// image must fit; a longer one is the loader's error, surfaced before
    /// any step runs.
    pub fn load_buffer_to_memory(&mut self, buffer: Vec<u8>)
        requires
            old(self).wf(),
            buffer@.len() <= 4096 - 0x200,
        ensures
            final(self).wf(),
            final(self)@ == spec_load(old(self)@, buffer@),
    {
        let ghost s0 = self@;
        let mut i: usize = 0;
        while i < buffer.len()
            invariant
                wf_frame_memory(s0, self@),
                i <= buffer@.len() <= 4096 - 0x200,
                self@.memory.len() == 4096,
                forall|k: int| 0x200 <= k < 0x200 + i ==> self@.memory[k] == buffer@[k - 0x200],
                forall|k: int| 0 <= k < 4096 && !(0x200 <= k < 0x200 + i)
                    ==> self@.memory[k] == s0.memory[k],
            decreases buffer@.len() - i,
        {
            self.memory.set(i + 512, buffer[i]);
            i = i + 1;
        }
        proof {
            assert(self@.memory =~= spec_load(s0, buffer@).memory);
            assert(self@ =~~= spec_load(s0, buffer@));
        }
    }

    /// Overwrite one entry of the input latch; the host does this for all 16
    /// keys before each step.
    pub fn set_keypad(&mut self, value: u8, index: usize)
        requires
            old(self).wf(),
            index < 16,
        ensures
            final(self).wf(),
            final(self)@ == (CpuView { keypad: old(self)@.keypad.update(index as int, value), ..old(self)@ }),
    {
        self.keypad.set(index, value);
    }

    /// Set or clear the dirty flag; the host clears it after a render pass.
    pub fn set_draw(&mut self, b: bool)
        requires
            old(self).wf(),
        ensures
            final(self).wf(),
            final(self)@ == (CpuView { draw_flag: b, ..old(self)@ }),
    {
        self.draw_flag = b;
    }

    /// Whether the frame buffer changed since the flag was last reset.
    pub fn should_draw(&self) -> (r: bool)
        ensures
            r == self@.draw_flag,
    {
        self.draw_flag
    }

    /// Read the two instruction bytes at the program counter, big-endian.
    /// Out of range is the fatal fetch fault.
    pub fn fetch_opcode(&self) -> (r: Result<u16, FaultKind>)
        requires
            self.wf(),
        ensures
            self@.pc + 1 < 4096 ==> r == Ok::<u16, FaultKind>(opcode_at(self@)),
            self@.pc + 1 >= 4096 ==> r == Err::<u16, FaultKind>(FaultKind::FetchOutOfRange),
    {
        if self.pc >= 4095 {
            return Err(FaultKind::FetchOutOfRange);
        }
        let high_order = self.memory[self.pc];
        let low_order = self.memory[self.pc + 1];
        let h = high_order as u16;
        let l = low_order as u16;
        proof {
            assert(((h << 8) | l) == h * 256 + l) by (bit_vector)
                requires
                    h < 256,
                    l < 256,
            ;
        }
        Ok((h << 8) | l)
    }

    /// The 60 Hz step: each timer counts down by one, never below zero.
    /// Driven by the host at a fixed cadence, independent of `tick`.
    pub fn tick_timer(&mut self)
        requires
            old(self).wf(),
        ensures
            final(self).wf(),
            final(self)@ == (CpuView {
                dt: if old(self)@.dt > 0 { (old(self)@.dt - 1) as u8 } else { 0 },
                st: if old(self)@.st > 0 { (old(self)@.st - 1) as u8 } else { 0 },
                ..old(self)@
            }),
    {
        if self.dt > 0 {
            self.dt = self.dt - 1;
        }
        if self.st > 0 {
            self.st = self.st - 1;
        }
    }

    /// clear-screen: every pixel off, buffer marked dirty.
    pub fn op_00e0(&mut self, _op: u16)
        requires
            old(self).wf(),
        ensures
            final(self).wf(),
            final(self)@ == spec_cls(old(self)@),
    {
        self.screen = blank_pixels(2048);
        self.draw_flag = true;
    }

    /// return: pop the saved address; an empty stack is the fatal underflow.
    pub fn op_00ee(&mut self, _op: u16) -> (r: Result<(), FaultKind>)
        requires
            old(self).wf(),
        ensures
            final(self).wf(),
            old(self)@.sp == 0 ==> r == Err::<(), FaultKind>(FaultKind::StackUnderflow)
                && final(self)@ == old(self)@,
            old(self)@.sp > 0 ==> r == Ok::<(), FaultKind>(())
                && final(self)@ == spec_ret(old(self)@),
    {
        if self.sp == 0 {
            return Err(FaultKind::StackUnderflow);
        }
        self.sp = self.sp - 1;
        self.pc = self.stack[self.sp] as usize;
        Ok(())
    }

    /// jump: program counter := the address operand.
    pub fn op_1nnn(&mut self, op: u16)
        requires
            old(self).wf(),
        ensures
            final(self).wf(),
            final(self)@ == spec_jump(old(self)@, low12(op) as int),
    {
        self.pc = get_nnn(op) as usize;
    }

    /// call: push the advanced program counter and jump; a full stack is the
    /// fatal overflow.
    pub fn op_2nnn(&mut self, op: u16) -> (r: Result<(), FaultKind>)
        requires
            old(self).wf(),
        ensures
            final(self).wf(),
            old(self)@.sp >= 64 ==> r == Err::<(), FaultKind>(FaultKind::StackOverflow)
                && final(self)@ == old(self)@,
            old(self)@.sp < 64 ==> r == Ok::<(), FaultKind>(())
                && final(self)@ == spec_call(old(self)@, low12(op) as int),
    {
        if self.sp >= 64 {
            return Err(FaultKind::StackOverflow);
        }
        self.stack.set(self.sp, self.pc as u16);
        self.sp = self.sp + 1;
        self.pc = get_nnn(op) as usize;
        Ok(())
    }

    /// skip-if-eq-imm: skip 2 further bytes when register X equals the
    /// immediate.
    pub fn op_3xnn(&mut self, op: u16)
        requires
            old(self).wf(),
            old(self)@.pc + 4 < 0x10000,
        ensures
            final(self).wf(),
            final(self)@ == spec_skip_if(old(self)@,
                old(self)@.regs[nib_x(op) as int] == low8(op)),
    {
        if self.register[get_2(op) as usize] == get_nn(op) {
            self.pc = self.pc + 2;
        }
    }

    /// skip-if-ne-imm.
    pub fn op_4xnn(&mut self, op: u16)
        requires
            old(self).wf(),
            old(self)@.pc + 4 < 0x10000,
        ensures
            final(self).wf(),
            final(self)@ == spec_skip_if(old(self)@,
                old(self)@.regs[nib_x(op) as int] != low8(op)),
    {
        if self.register[get_2(op) as usize] != get_nn(op) {
            self.pc = self.pc + 2;
        }
    }

    /// skip-if-reg-eq.
    pub fn op_5xy0(&mut self, op: u16)
        requires
            old(self).wf(),
            old(self)@.pc + 4 < 0x10000,
        ensures
            final(self).wf(),
            final(self)@ == spec_skip_if(old(self)@,
                old(self)@.regs[nib_x(op) as int] == old(self)@.regs[nib_y(op) as int]),
    {
        if self.register[get_2(op) as usize] == self.register[get_3(op) as usize] {
            self.pc = self.pc + 2;
        }
    }

    /// load-imm: register X := the immediate.
    pub fn op_6xnn(&mut self, op: u16)
        requires
            old(self).wf(),
        ensures
            final(self).wf(),
            final(self)@ == spec_load_imm(old(self)@, nib_x(op) as int, low8(op)),
    {
        self.register.set(get_2(op) as usize, get_nn(op));
    }

    /// add-imm: register X := (X + immediate) mod 256; no flag change.
    pub fn op_7xnn(&mut self, op: u16)
        requires
            old(self).wf(),
        ensures
            final(self).wf(),
            final(self)@ == spec_add_imm(old(self)@, nib_x(op) as int, low8(op)),
    {
        let x = get_2(op) as usize;
        let sum: u16 = self.register[x] as u16 + get_nn(op) as u16;
        self.register.set(x, (sum % 256) as u8);
    }

    /// reg-copy: register X := register Y.
    pub fn op_8xy0(&mut self, op: u16)
        requires
            old(self).wf(),
        ensures
            final(self).wf(),
            final(self)@ == spec_copy(old(self)@, nib_x(op) as int, nib_y(op) as int),
    {
        self.register.set(get_2(op) as usize, self.register[get_3(op) as usize]);
    }

    /// bitwise OR.
    pub fn op_8xy1(&mut self, op: u16)
        requires
            old(self).wf(),
        ensures
            final(self).wf(),
            final(self)@ == spec_or(old(self)@, nib_x(op) as int, nib_y(op) as int),
    {
        let v = self.register[get_2(op) as usize] | self.register[get_3(op) as usize];
        self.register.set(get_2(op) as usize, v);
    }

    /// bitwise AND.
    pub fn op_8xy2(&mut self, op: u16)
        requires
            old(self).wf(),
        ensures
            final(self).wf(),
            final(self)@ == spec_and(old(self)@, nib_x(op) as int, nib_y(op) as int),
    {
        let v = self.register[get_2(op) as usize] & self.register[get_3(op) as usize];
        self.register.set(get_2(op) as usize, v);
    }

    /// bitwise XOR.
    pub fn op_8xy3(&mut self, op: u16)
        requires
            old(self).wf(),
        ensures
            final(self).wf(),
            final(self)@ == spec_xor(old(self)@, nib_x(op) as int, nib_y(op) as int),
    {
        let v = self.register[get_2(op) as usize] ^ self.register[get_3(op) as usize];
        self.register.set(get_2(op) as usize, v);
    }

    /// add-reg: register X := low byte of X + Y; flag := carry.
    pub fn op_8xy4(&mut self, op: u16)
        requires
            old(self).wf(),
        ensures
            final(self).wf(),
            final(self)@ == spec_add_reg(old(self)@, nib_x(op) as int, nib_y(op) as int),
    {
        let x = get_2(op) as usize;
        let sum: u16 = self.register[x] as u16 + self.register[get_3(op) as usize] as u16;
        self.register.set(x, (sum % 256) as u8);
        self.register.set(15, if sum >= 256 { 1 } else { 0 });
    }

    /// sub-reg: register X := low byte of X - Y; flag := 1 exactly when no
    /// borrow occurred.
    pub fn op_8xy5(&mut self, op: u16)
        requires
            old(self).wf(),
        ensures
            final(self).wf(),
            final(self)@ == spec_sub_reg(old(self)@, nib_x(op) as int, nib_y(op) as int),
    {
        let x = get_2(op) as usize;
        let a = self.register[x];
        let b = self.register[get_3(op) as usize];
        let diff: u16 = (a as u16 + 256) - (b as u16);
        proof {
            vstd::arithmetic::div_mod::lemma_mod_add_multiples_vanish(a - b, 256);
        }
        self.register.set(x, (diff % 256) as u8);
        self.register.set(15, if a >= b { 1 } else { 0 });
    }

    /// shift-right: flag := lowest bit of X, then register X := X >> 1.
    pub fn op_8xy6(&mut self, op: u16)
        requires
            old(self).wf(),
        ensures
            final(self).wf(),
            final(self)@ == spec_shr(old(self)@, nib_x(op) as int),
    {
        let x = get_2(op) as usize;
        let xr: u8 = self.register[x];
        self.register.set(15, xr & 1);
        self.register.set(x, xr >> 1);
    }

    /// subn-reg: register X := low byte of Y - X, same borrow convention.
    pub fn op_8xy7(&mut self, op: u16)
        requires
            old(self).wf(),
        ensures
            final(self).wf(),
            final(self)@ == spec_subn_reg(old(self)@, nib_x(op) as int, nib_y(op) as int),
    {
        let x = get_2(op) as usize;
        let a = self.register[x];
        let b = self.register[get_3(op) as usize];
        let diff: u16 = (b as u16 + 256) - (a as u16);
        proof {
            vstd::arithmetic::div_mod::lemma_mod_add_multiples_vanish(b - a, 256);
        }
        self.register.set(x, (diff % 256) as u8);
        self.register.set(15, if b >= a { 1 } else { 0 });
    }

    /// shift-left: flag := highest bit of X, then register X := low byte of
    /// X << 1.
    pub fn op_8xye(&mut self, op: u16)
        requires
            old(self).wf(),
        ensures
            final(self).wf(),
            final(self)@ == spec_shl(old(self)@, nib_x(op) as int),
    {
        let x = get_2(op) as usize;
        let xr: u8 = self.register[x];
        self.register.set(15, (xr & 0x80) >> 7);
        self.register.set(x, xr << 1);
    }

    /// skip-if-reg-ne.
    pub fn op_9xy0(&mut self, op: u16)
        requires
            old(self).wf(),
            old(self)@.pc + 4 < 0x10000,
        ensures
            final(self).wf(),
            final(self)@ == spec_skip_if(old(self)@,
                old(self)@.regs[nib_x(op) as int] != old(self)@.regs[nib_y(op) as int]),
    {
        let xr: u8 = self.register[get_2(op) as usize];
        let yr: u8 = self.register[get_3(op) as usize];
        if xr != yr {
            self.pc = self.pc + 2;
        }
    }

    /// load-index: index register := the address operand.
    pub fn op_annn(&mut self, op: u16)
        requires
            old(self).wf(),
        ensures
            final(self).wf(),
            final(self)@ == spec_load_index(old(self)@, low12(op) as int),
    {
        self.index = get_nnn(op) as usize;
    }

    /// jump-indexed: program counter := register 0 + the address operand.
    pub fn op_bnnn(&mut self, op: u16)
        requires
            old(self).wf(),
        ensures
            final(self).wf(),
            final(self)@ == spec_jump_indexed(old(self)@, low12(op) as int),
    {
        self.pc = self.register[0] as usize + get_nnn(op) as usize;
    }

    /// random-and: register X := random byte & immediate.  The byte comes
    /// from the random source, so only its masked shape is promised.
    pub fn op_cxnn(&mut self, op: u16)
        requires
            old(self).wf(),
        ensures
            final(self).wf(),
            exists|r: u8| final(self)@ == spec_rnd(old(self)@, nib_x(op) as int, low8(op), r),
    {
        let r = random_byte();
        self.op_cxnn_masked(op, r);
    }

    /// The deterministic part of random-and: register X := r & immediate,
    /// for a caller-supplied byte r.
    pub fn op_cxnn_masked(&mut self, op: u16, r: u8)
        requires
            old(self).wf(),
        ensures
            final(self).wf(),
            final(self)@ == spec_rnd(old(self)@, nib_x(op) as int, low8(op), r),
    {
        self.register.set(get_2(op) as usize, r & get_nn(op));
    }

    /// skip-if-key-pressed: latch index given by register X; an index past
    /// the latch is a fatal out-of-range access.
    pub fn op_ex9e(&mut self, op: u16) -> (r: Result<(), FaultKind>)
        requires
            old(self).wf(),
            old(self)@.pc + 4 < 0x10000,
        ensures
            final(self).wf(),
            old(self)@.regs[nib_x(op) as int] >= 16
                ==> r == Err::<(), FaultKind>(FaultKind::OutOfRange)
                && final(self)@ == old(self)@,
            old(self)@.regs[nib_x(op) as int] < 16
                ==> r == Ok::<(), FaultKind>(())
                && final(self)@ == spec_skip_if(old(self)@,
                    old(self)@.keypad[old(self)@.regs[nib_x(op) as int] as int] != 0),
    {
        let k = self.register[get_2(op) as usize];
        if k >= 16 {
            return Err(FaultKind::OutOfRange);
        }
        if self.keypad[k as usize] != 0 {
            self.pc = self.pc + 2;
        }
        Ok(())
    }

    /// skip-if-key-not-pressed.
    pub fn op_exa1(&mut self, op: u16) -> (r: Result<(), FaultKind>)
        requires
            old(self).wf(),
            old(self)@.pc + 4 < 0x10000,
        ensures
            final(self).wf(),
            old(self)@.regs[nib_x(op) as int] >= 16
                ==> r == Err::<(), FaultKind>(FaultKind::OutOfRange)
                && final(self)@ == old(self)@,
            old(self)@.regs[nib_x(op) as int] < 16
                ==> r == Ok::<(), FaultKind>(())
                && final(self)@ == spec_skip_if(old(self)@,
                    old(self)@.keypad[old(self)@.regs[nib_x(op) as int] as int] == 0),
    {
        let k = self.register[get_2(op) as usize];
        if k >= 16 {
            return Err(FaultKind::OutOfRange);
        }
        if self.keypad[k as usize] == 0 {
            self.pc = self.pc + 2;
        }
        Ok(())
    }

    /// get-delay-timer: register X := delay timer.
    pub fn op_fx07(&mut self, op: u16)
        requires
            old(self).wf(),
        ensures
            final(self).wf(),
            final(self)@ == spec_get_dt(old(self)@, nib_x(op) as int),
    {
        self.register.set(get_2(op) as usize, self.dt);
    }

    /// await-key: the lowest pressed key among 0..14 goes into register X;
    /// with none pressed the program counter is rolled back 2 bytes so the
    /// same instruction re-executes next step (a busy wait, not a
    /// suspension).
    pub fn op_fx0a(&mut self, op: u16)
        requires
            old(self).wf(),
            old(self)@.pc >= 2,
        ensures
            final(self).wf(),
            final(self)@ == spec_await_key(old(self)@, nib_x(op) as int),
    {
        let ghost s0 = self@;
        let x = get_2(op) as usize;
        let mut i: usize = 0;
        while i < 15
            invariant
                self.wf(),
                s0 == self@,
                s0 == old(self)@,
                i <= 15,
                x == nib_x(op) as usize,
                x < 16,
                forall|j: int| 0 <= j < i ==> self@.keypad[j] == 0,
            decreases 15 - i,
        {
            if self.keypad[i] != 0 {
                proof {
                    lemma_first_pressed_found(s0.keypad, i as int);
                }
                self.register.set(x, i as u8);
                return;
            }
            i = i + 1;
        }
        proof {
            lemma_first_pressed_none(s0.keypad);
        }
        self.pc = self.pc - 2;
    }

    /// set-delay-timer.
    pub fn op_fx15(&mut self, op: u16)
        requires
            old(self).wf(),
        ensures
            final(self).wf(),
            final(self)@ == spec_set_dt(old(self)@, nib_x(op) as int),
    {
        self.dt = self.register[get_2(op) as usize];
    }

    /// set-sound-timer.
    pub fn op_fx18(&mut self, op: u16)
        requires
            old(self).wf(),
        ensures
            final(self).wf(),
            final(self)@ == spec_set_st(old(self)@, nib_x(op) as int),
    {
        self.st = self.register[get_2(op) as usize];
    }

    /// add-to-index, masked to the address space.
    pub fn op_fx1e(&mut self, op: u16)
        requires
            old(self).wf(),
        ensures
            final(self).wf(),
            final(self)@ == spec_add_index(old(self)@, nib_x(op) as int),
    {
        self.index = (self.index + self.register[get_2(op) as usize] as usize) % 4096;
    }

    /// set-index-to-glyph: 5 bytes per glyph, starting at address 0.
    pub fn op_fx29(&mut self, op: u16)
        requires
            old(self).wf(),
        ensures
            final(self).wf(),
            final(self)@ == spec_glyph(old(self)@, nib_x(op) as int),
    {
        self.index = 5 * self.register[get_2(op) as usize] as usize;
    }

    /// store-bcd: three decimal digits of register X at the index register.
    pub fn op_fx33(&mut self, op: u16) -> (r: Result<(), FaultKind>)
        requires
            old(self).wf(),
        ensures
            final(self).wf(),
            old(self)@.index + 2 >= 4096 ==> r == Err::<(), FaultKind>(FaultKind::OutOfRange)
                && final(self)@ == old(self)@,
            old(self)@.index + 2 < 4096 ==> r == Ok::<(), FaultKind>(())
                && final(self)@ == spec_store_bcd(old(self)@, nib_x(op) as int),
    {
        if self.index + 2 >= 4096 {
            return Err(FaultKind::OutOfRange);
        }
        let dec = self.register[get_2(op) as usize];
        self.memory.set(self.index, dec / 100);
        self.memory.set(self.index + 1, dec % 100 / 10);
        self.memory.set(self.index + 2, dec % 10);
        Ok(())
    }

    /// store-registers: registers 0..X inclusive into memory at the index
    /// register.
    pub fn op_fx55(&mut self, op: u16) -> (r: Result<(), FaultKind>)
        requires
            old(self).wf(),
        ensures
            final(self).wf(),
            old(self)@.index + nib_x(op) >= 4096 ==> r == Err::<(), FaultKind>(FaultKind::OutOfRange)
                && final(self)@ == old(self)@,
            old(self)@.index + nib_x(op) < 4096 ==> r == Ok::<(), FaultKind>(())
                && final(self)@ == spec_store_regs(old(self)@, nib_x(op) as int),
    {
        let x = get_2(op) as usize;
        if self.index > 4096 - 1 - x {
            return Err(FaultKind::OutOfRange);
        }
        let ghost s0 = self@;
        let mut k: usize = 0;
        while k < x + 1
            invariant
                wf_frame_memory(s0, self@),
                self@.memory.len() == 4096,
                k <= x + 1,
                x == nib_x(op) as usize,
                x < 16,
                s0.index + x < 4096,
                self@.index == s0.index,
                forall|m: int| s0.index <= m < s0.index + k ==> self@.memory[m] == s0.regs[m - s0.index],
                forall|m: int| 0 <= m < 4096 && !(s0.index <= m < s0.index + k)
                    ==> self@.memory[m] == s0.memory[m],
            decreases x + 1 - k,
        {
            self.memory.set(self.index + k, self.register[k]);
            k = k + 1;
        }
        proof {
            assert(self@.memory =~= spec_store_regs(s0, nib_x(op) as int).memory);
            assert(self@ =~~= spec_store_regs(s0, nib_x(op) as int));
        }
        Ok(())
    }

    /// load-registers: memory at the index register into registers 0..X
    /// inclusive.
    pub fn op_fx65(&mut self, op: u16) -> (r: Result<(), FaultKind>)
        requires
            old(self).wf(),
        ensures
            final(self).wf(),
            old(self)@.index + nib_x(op) >= 4096 ==> r == Err::<(), FaultKind>(FaultKind::OutOfRange)
                && final(self)@ == old(self)@,
            old(self)@.index + nib_x(op) < 4096 ==> r == Ok::<(), FaultKind>(())
                && final(self)@ == spec_load_regs(old(self)@, nib_x(op) as int),
    {
        let x = get_2(op) as usize;
        if self.index > 4096 - 1 - x {
            return Err(FaultKind::OutOfRange);
        }
        let ghost s0 = self@;
        let mut k: usize = 0;
        while k < x + 1
            invariant
                wf_frame_regs(s0, self@),
                self@.regs.len() == 16,
                k <= x + 1,
                x == nib_x(op) as usize,
                x < 16,
                s0.index + x < 4096,
                forall|m: int| 0 <= m < k ==> self@.regs[m] == s0.memory[s0.index + m],
                forall|m: int| k <= m < 16 ==> self@.regs[m] == s0.regs[m],
            decreases x + 1 - k,
        {
            self.register.set(k, self.memory[self.index + k]);
            k = k + 1;
        }
        proof {
            assert(self@.regs =~= spec_load_regs(s0, nib_x(op) as int).regs);
            assert(self@ =~~= spec_load_regs(s0, nib_x(op) as int));
        }
        Ok(())
    }

    /// draw-sprite: the low nibble gives the height N; N rows of 8 bits are
    /// read at the index register and XOR-composited at the origin held in
    /// registers X and Y, wrapping on both axes; the flag register becomes
    /// the collision indicator and the buffer is marked dirty.  Sprite rows
    /// past the end of the address space are a fatal out-of-range access.
    #[verifier::rlimit(50)]
    pub fn draw(&mut self, op: u16) -> (r: Result<(), FaultKind>)
        requires
            old(self).wf(),
        ensures
            final(self).wf(),
            old(self)@.index + low4(op) > 4096
                ==> r == Err::<(), FaultKind>(FaultKind::OutOfRange)
                && final(self)@ == old(self)@,
            old(self)@.index + low4(op) <= 4096 ==> r == Ok::<(), FaultKind>(())
                && final(self)@ == spec_draw(old(self)@,
                    nib_x(op) as int, nib_y(op) as int, low4(op) as int),
    {
        let n = get_4(op) as usize;
        if n > 4096 - self.index {
            return Err(FaultKind::OutOfRange);
        }
        let x_coord = self.register[get_2(op) as usize] as usize;
        let y_coord = self.register[get_3(op) as usize] as usize;
        let ghost s0 = self@;
        let ghost x0 = x_coord as int;
        let ghost y0 = y_coord as int;
        let ghost i0 = s0.index;
        self.register.set(0xF, 0);
        let mut row: usize = 0;
        while row < n
            invariant
                wf_frame_screen_flag(s0, self@),
                self@.regs =~= s0.regs.update(15,
                    if collide_prefix(s0.screen, s0.memory, i0, x0, y0, row as int, 0) {
                        1u8
                    } else {
                        0u8
                    }),
                self@.screen =~= screen_prefix(s0.screen, s0.memory, i0, x0, y0, row as int, 0),
                row <= n,
                n == low4(op),
                n <= 15,
                i0 + n <= 4096,
                i0 == s0.index,
                x0 == s0.regs[nib_x(op) as int],
                y0 == s0.regs[nib_y(op) as int],
                0 <= x0 < 256,
                0 <= y0 < 256,
                x_coord as int == x0,
                y_coord as int == y0,
            decreases n - row,
        {
            let byte = self.memory[self.index + row];
            let ghost rr = row as int;
            let mut col: usize = 0;
            while col < 8
                invariant
                    wf_frame_screen_flag(s0, self@),
                    self@.regs =~= s0.regs.update(15,
                        if collide_prefix(s0.screen, s0.memory, i0, x0, y0, rr, col as int) {
                            1u8
                        } else {
                            0u8
                        }),
                    self@.screen =~= screen_prefix(s0.screen, s0.memory, i0, x0, y0, rr, col as int),
                    col <= 8,
                    rr == row as int,
                    row < n,
                    byte == s0.memory[i0 + rr],
                    n == low4(op),
                    n <= 15,
                    i0 + n <= 4096,
                    i0 == s0.index,
                    x0 == s0.regs[nib_x(op) as int],
                    y0 == s0.regs[nib_y(op) as int],
                    0 <= x0 < 256,
                    0 <= y0 < 256,
                    x_coord as int == x0,
                    y_coord as int == y0,
                decreases 8 - col,
            {
                let sh: u8 = (7 - col) as u8;
                let ghost cc = col as int;
                if (byte >> sh) & 1 == 1 {
                    let px = (x_coord + col) % 64;
                    let py = (y_coord + row) % 32;
                    let idx = py * 64 + px;
                    proof {
                        assert(sprite_bit(s0.memory[i0 + rr], cc));
                        lemma_target_decompose(x0, y0, rr, cc);
                        assert(idx == target_index(x0, y0, rr, cc));
                        assert(idx < 2048);
                    }
                    let cur = self.screen[idx];
                    if cur {
                        self.register.set(0xF, 1);
                    }
                    self.screen.set(idx, !cur);
                    proof {
                        // No cell before (rr, cc) lands on this pixel, so its
                        // prior state is still its original state.
                        assert forall|row2: int, col2: int|
                            0 <= row2 && 0 <= col2 < 8
                            && (row2 < rr || (row2 == rr && col2 < cc))
                            implies #[trigger] target_index(x0, y0, row2, col2) != idx
                        by {
                            lemma_cell_injective(x0, y0, row2, col2, rr, cc);
                        }
                        assert(!hits_prefix(s0.memory, i0, x0, y0, rr, cc, idx as int));
                        assert(cur == s0.screen[idx as int]);
                        assert(hits_prefix(s0.memory, i0, x0, y0, rr, cc + 1, idx as int));
                        assert forall|k: int| 0 <= k < 2048 && k != idx implies
                            #[trigger] hits_prefix(s0.memory, i0, x0, y0, rr, cc + 1, k)
                                == hits_prefix(s0.memory, i0, x0, y0, rr, cc, k)
                        by {
                            if hits_prefix(s0.memory, i0, x0, y0, rr, cc + 1, k) {
                                let (row2, col2) = choose|row2: int, col2: int|
                                    0 <= row2 && 0 <= col2 < 8
                                    && (row2 < rr || (row2 == rr && col2 < cc + 1))
                                    && sprite_bit(s0.memory[i0 + row2], col2)
                                    && #[trigger] target_index(x0, y0, row2, col2) == k;
                                assert(!(row2 == rr && col2 == cc));
                                assert(hits_prefix(s0.memory, i0, x0, y0, rr, cc, k));
                            }
                        }
                        assert(self@.screen =~= screen_prefix(
                            s0.screen, s0.memory, i0, x0, y0, rr, cc + 1));
                        // The collision indicator gains exactly this pixel's
                        // prior state.
                        if cur {
                            assert(collide_prefix(s0.screen, s0.memory, i0, x0, y0, rr, cc + 1));
                            assert(self@.regs =~= s0.regs.update(15, 1u8));
                        } else {
                            assert(collide_prefix(s0.screen, s0.memory, i0, x0, y0, rr, cc + 1)
                                == collide_prefix(s0.screen, s0.memory, i0, x0, y0, rr, cc))
                            by {
                                if collide_prefix(s0.screen, s0.memory, i0, x0, y0, rr, cc + 1) {
                                    let (row2, col2) = choose|row2: int, col2: int|
                                        0 <= row2 && 0 <= col2 < 8
                                        && (row2 < rr || (row2 == rr && col2 < cc + 1))
                                        && sprite_bit(s0.memory[i0 + row2], col2)
                                        && s0.screen[#[trigger] target_index(x0, y0, row2, col2)];
                                    assert(!(row2 == rr && col2 == cc));
                                    assert(collide_prefix(s0.screen, s0.memory, i0, x0, y0, rr, cc));
                                }
                            }
                        }
                    }
                } else {
                    proof {
                        assert(!sprite_bit(s0.memory[i0 + rr], cc));
                        assert forall|k: int| 0 <= k < 2048 implies
                            #[trigger] hits_prefix(s0.memory, i0, x0, y0, rr, cc + 1, k)
                                == hits_prefix(s0.memory, i0, x0, y0, rr, cc, k)
                        by {
                            if hits_prefix(s0.memory, i0, x0, y0, rr, cc + 1, k) {
                                let (row2, col2) = choose|row2: int, col2: int|
                                    0 <= row2 && 0 <= col2 < 8
                                    && (row2 < rr || (row2 == rr && col2 < cc + 1))
                                    && sprite_bit(s0.memory[i0 + row2], col2)
                                    && #[trigger] target_index(x0, y0, row2, col2) == k;
                                assert(!(row2 == rr && col2 == cc));
                                assert(hits_prefix(s0.memory, i0, x0, y0, rr, cc, k));
                            }
                        }
                        assert(self@.screen =~= screen_prefix(
                            s0.screen, s0.memory, i0, x0, y0, rr, cc + 1));
                        assert(collide_prefix(s0.screen, s0.memory, i0, x0, y0, rr, cc + 1)
                            == collide_prefix(s0.screen, s0.memory, i0, x0, y0, rr, cc))
                        by {
                            if collide_prefix(s0.screen, s0.memory, i0, x0, y0, rr, cc + 1) {
                                let (row2, col2) = choose|row2: int, col2: int|
                                    0 <= row2 && 0 <= col2 < 8
                                    && (row2 < rr || (row2 == rr && col2 < cc + 1))
                                    && sprite_bit(s0.memory[i0 + row2], col2)
                                    && s0.screen[#[trigger] target_index(x0, y0, row2, col2)];
                                assert(!(row2 == rr && col2 == cc));
                                assert(collide_prefix(s0.screen, s0.memory, i0, x0, y0, rr, cc));
                            }
                        }
                    }
                }
                col = col + 1;
            }
            proof {
                // A full row of 8 cells is the same prefix as the next row
                // with no cells yet.
                assert forall|k: int| 0 <= k < 2048 implies
                    #[trigger] hits_prefix(s0.memory, i0, x0, y0, rr + 1, 0, k)
                        == hits_prefix(s0.memory, i0, x0, y0, rr, 8, k)
                by {
                    if hits_prefix(s0.memory, i0, x0, y0, rr + 1, 0, k) {
                        let (row2, col2) = choose|row2: int, col2: int|
                            0 <= row2 && 0 <= col2 < 8
                            && (row2 < rr + 1 || (row2 == rr + 1 && col2 < 0))
                            && sprite_bit(s0.memory[i0 + row2], col2)
                            && #[trigger] target_index(x0, y0, row2, col2) == k;
                        assert(hits_prefix(s0.memory, i0, x0, y0, rr, 8, k));
                    }
                    if hits_prefix(s0.memory, i0, x0, y0, rr, 8, k) {
                        let (row2, col2) = choose|row2: int, col2: int|
                            0 <= row2 && 0 <= col2 < 8
                            && (row2 < rr || (row2 == rr && col2 < 8))
                            && sprite_bit(s0.memory[i0 + row2], col2)
                            && #[trigger] target_index(x0, y0, row2, col2) == k;
                        assert(hits_prefix(s0.memory, i0, x0, y0, rr + 1, 0, k));
                    }
                }
                assert(screen_prefix(s0.screen, s0.memory, i0, x0, y0, rr + 1, 0)
                    =~= screen_prefix(s0.screen, s0.memory, i0, x0, y0, rr, 8));
                assert(collide_prefix(s0.screen, s0.memory, i0, x0, y0, rr + 1, 0)
                    == collide_prefix(s0.screen, s0.memory, i0, x0, y0, rr, 8))
                by {
                    if collide_prefix(s0.screen, s0.memory, i0, x0, y0, rr + 1, 0) {
                        let (row2, col2) = choose|row2: int, col2: int|
                            0 <= row2 && 0 <= col2 < 8
                            && (row2 < rr + 1 || (row2 == rr + 1 && col2 < 0))
                            && sprite_bit(s0.memory[i0 + row2], col2)
                            && s0.screen[#[trigger] target_index(x0, y0, row2, col2)];
                        assert(collide_prefix(s0.screen, s0.memory, i0, x0, y0, rr, 8));
                    }
                    if collide_prefix(s0.screen, s0.memory, i0, x0, y0, rr, 8) {
                        let (row2, col2) = choose|row2: int, col2: int|
                            0 <= row2 && 0 <= col2 < 8
                            && (row2 < rr || (row2 == rr && col2 < 8))
                            && sprite_bit(s0.memory[i0 + row2], col2)
                            && s0.screen[#[trigger] target_index(x0, y0, row2, col2)];
                        assert(collide_prefix(s0.screen, s0.memory, i0, x0, y0, rr + 1, 0));
                    }
                }
            }
            row = row + 1;
        }
        self.draw_flag = true;
        proof {
            assert(self@ =~~= spec_draw(s0, nib_x(op) as int, nib_y(op) as int,
                low4(op) as int));
        }
        Ok(())
    }

    /// One fetch-decode-execute cycle, proved against the one-step
    /// interpreter `spec_step`, for some byte from the random source (the
    /// byte is read only by random-and).  A fatal fault carries the faulting
    /// instruction and its address and must end the run; an unrecognized
    /// word is reported and skipped without corrupting any state.
    #[verifier::rlimit(100)]
    pub fn tick(&mut self) -> (r: Result<StepEvent, Fault>)
        requires
            old(self).wf(),
        ensures
            final(self).wf(),
            exists|rnd: u8| #[trigger] step_matches(old(self)@, final(self)@, rnd, r),
    {
        let ghost s0 = self@;
        let pc_at = self.pc;
        let op = match self.fetch_opcode() {
            Ok(op) => op,
            Err(k) => {
                let f = Fault { kind: k, pc: pc_at, op: 0 };
                proof {
                    assert(step_matches(s0, self@, 0u8, Err::<StepEvent, Fault>(f)));
                }
                return Err(f);
            },
        };
        self.pc = self.pc + 2;
        let ghost s1 = self@;
        proof {
            assert(s1 =~~= spec_advance(s0));
            lemma_decode_bounds(op);
        }
        match get_1(op) {
            0x0 => {
                let sub = get_4(op);
                if sub == 0x0 {
                    self.op_00e0(op);
                } else if sub == 0xE {
                    if let Err(k) = self.op_00ee(op) {
                        let f = Fault { kind: k, pc: pc_at, op };
                        proof {
                            assert(step_matches(s0, self@, 0u8, Err::<StepEvent, Fault>(f)));
                        }
                        return Err(f);
                    }
                } else {
                    proof {
                        assert(step_matches(s0, self@, 0u8,
                            Ok::<StepEvent, Fault>(StepEvent::Unrecognized(op))));
                    }
                    return Ok(StepEvent::Unrecognized(op));
                }
            },
            0x1 => self.op_1nnn(op),
            0x2 => {
                if let Err(k) = self.op_2nnn(op) {
                    let f = Fault { kind: k, pc: pc_at, op };
                    proof {
                        assert(step_matches(s0, self@, 0u8, Err::<StepEvent, Fault>(f)));
                    }
                    return Err(f);
                }
            },
            0x3 => self.op_3xnn(op),
            0x4 => self.op_4xnn(op),
            0x5 => self.op_5xy0(op),
            0x6 => self.op_6xnn(op),
            0x7 => self.op_7xnn(op),
            0x8 => {
                let sub = get_4(op);
                if sub == 0x0 {
                    self.op_8xy0(op);
                } else if sub == 0x1 {
                    self.op_8xy1(op);
                } else if sub == 0x2 {
                    self.op_8xy2(op);
                } else if sub == 0x3 {
                    self.op_8xy3(op);
                } else if sub == 0x4 {
                    self.op_8xy4(op);
                } else if sub == 0x5 {
                    self.op_8xy5(op);
                } else if sub == 0x6 {
                    self.op_8xy6(op);
                } else if sub == 0x7 {
                    self.op_8xy7(op);
                } else if sub == 0xE {
                    self.op_8xye(op);
                } else {
                    proof {
                        assert(step_matches(s0, self@, 0u8,
                            Ok::<StepEvent, Fault>(StepEvent::Unrecognized(op))));
                    }
                    return Ok(StepEvent::Unrecognized(op));
                }
            },
            0x9 => self.op_9xy0(op),
            0xA => self.op_annn(op),
            0xB => self.op_bnnn(op),
            0xC => {
                self.op_cxnn(op);
                proof {
                    let rnd = choose|rr: u8|
                        self@ == spec_rnd(s1, nib_x(op) as int, low8(op), rr);
                    assert(step_matches(s0, self@, rnd,
                        Ok::<StepEvent, Fault>(StepEvent::Executed)));
                }
                return Ok(StepEvent::Executed);
            },
            0xD => {
                if let Err(k) = self.op_dxyn(op) {
                    let f = Fault { kind: k, pc: pc_at, op };
                    proof {
                        assert(step_matches(s0, self@, 0u8, Err::<StepEvent, Fault>(f)));
                    }
                    return Err(f);
                }
            },
            0xE => {
                let sub = get_4(op);
                if sub == 0xE {
                    if let Err(k) = self.op_ex9e(op) {
                        let f = Fault { kind: k, pc: pc_at, op };
                        proof {
                            assert(step_matches(s0, self@, 0u8, Err::<StepEvent, Fault>(f)));
                        }
                        return Err(f);
                    }
                } else if sub == 0x1 {
                    if let Err(k) = self.op_exa1(op) {
                        let f = Fault { kind: k, pc: pc_at, op };
                        proof {
                            assert(step_matches(s0, self@, 0u8, Err::<StepEvent, Fault>(f)));
                        }
                        return Err(f);
                    }
                } else {
                    proof {
                        assert(step_matches(s0, self@, 0u8,
                            Ok::<StepEvent, Fault>(StepEvent::Unrecognized(op))));
                    }
                    return Ok(StepEvent::Unrecognized(op));
                }
            },
            _ => {
                let sub = get_nn(op);
                if sub == 0x07 {
                    self.op_fx07(op);
                } else if sub == 0x0A {
                    self.op_fx0a(op);
                } else if sub == 0x15 {
                    self.op_fx15(op);
                } else if sub == 0x18 {
                    self.op_fx18(op);
                } else if sub == 0x1E {
                    self.op_fx1e(op);
                } else if sub == 0x29 {
                    self.op_fx29(op);
                } else if sub == 0x33 {
                    if let Err(k) = self.op_fx33(op) {
                        let f = Fault { kind: k, pc: pc_at, op };
                        proof {
                            assert(step_matches(s0, self@, 0u8, Err::<StepEvent, Fault>(f)));
                        }
                        return Err(f);
                    }
                } else if sub == 0x55 {
                    if let Err(k) = self.op_fx55(op) {
                        let f = Fault { kind: k, pc: pc_at, op };
                        proof {
                            assert(step_matches(s0, self@, 0u8, Err::<StepEvent, Fault>(f)));
                        }
                        return Err(f);
                    }
                } else if sub == 0x65 {
                    if let Err(k) = self.op_fx65(op) {
                        let f = Fault { kind: k, pc: pc_at, op };
                        proof {
                            assert(step_matches(s0, self@, 0u8, Err::<StepEvent, Fault>(f)));
                        }
                        return Err(f);
                    }
                } else {
                    proof {
                        assert(step_matches(s0, self@, 0u8,
                            Ok::<StepEvent, Fault>(StepEvent::Unrecognized(op))));
                    }
                    return Ok(StepEvent::Unrecognized(op));
                }
            },
        }
        proof {
            assert(step_matches(s0, self@, 0u8, Ok::<StepEvent, Fault>(StepEvent::Executed)));
        }
        Ok(StepEvent::Executed)
    }

    /// draw-sprite, dispatched under its opcode.
    pub fn op_dxyn(&mut self, op: u16) -> (r: Result<(), FaultKind>)
        requires
            old(self).wf(),
        ensures
            final(self).wf(),
            old(self)@.index + low4(op) > 4096
                ==> r == Err::<(), FaultKind>(FaultKind::OutOfRange)
                && final(self)@ == old(self)@,
            old(self)@.index + low4(op) <= 4096 ==> r == Ok::<(), FaultKind>(())
                && final(self)@ == spec_draw(old(self)@,
                    nib_x(op) as int, nib_y(op) as int, low4(op) as int),
    {
        self.draw(op)
    }

    /// Register `k`.
    pub fn reg(&self, k: usize) -> (r: u8)
        requires
            self.wf(),
            k < 16,
        ensures
            r == self@.regs[k as int],
    {
        self.register[k]
    }

    /// The pixel at column `x`, row `y`.
    pub fn pixel(&self, x: usize, y: usize) -> (r: bool)
        requires
            self.wf(),
            x < 64,
            y < 32,
        ensures
            r == self@.screen[y * 64 + x],
    {
        self.screen[y * 64 + x]
    }

    /// The byte at address `addr`.
    pub fn mem(&self, addr: usize) -> (r: u8)
        requires
            self.wf(),
            addr < 4096,
        ensures
            r == self@.memory[addr as int],
    {
        self.memory[addr]
    }

    /// The program counter.
    pub fn pc(&self) -> (r: usize)
        ensures
            r == self@.pc,
    {
        self.pc
    }

    /// The index register.
    pub fn index_register(&self) -> (r: usize)
        ensures
            r == self@.index,
    {
        self.index
    }

    /// Number of occupied call-stack slots.
    pub fn stack_depth(&self) -> (r: usize)
        ensures
            r == self@.sp,
    {
        self.sp
    }

    /// The delay timer, for host-side pacing.
    pub fn delay_timer(&self) -> (r: u8)
        ensures
            r == self@.dt,
    {
        self.dt
    }

    /// The sound timer, for host-side audio cueing.
    pub fn sound_timer(&self) -> (r: u8)
        ensures
            r == self@.st,
    {
        self.st
    }
}

/// All components but the address space agree; used while a loop rewrites
/// memory in place.
pub open spec fn wf_frame_memory(s0: CpuView, s: CpuView) -> bool {
    &&& s.screen == s0.screen
    &&& s.regs == s0.regs
    &&& s.index == s0.index
    &&& s.pc == s0.pc
    &&& s.stack == s0.stack
    &&& s.sp == s0.sp
    &&& s.keypad == s0.keypad
    &&& s.dt == s0.dt
    &&& s.st == s0.st
    &&& s.draw_flag == s0.draw_flag
    &&& crate::state::wf(s0)
}

/// All components but the frame buffer and the flag register agree; used
/// while the sprite loops rewrite them in place (the dirty flag is set only
/// after the loops are done).
pub open spec fn wf_frame_screen_flag(s0: CpuView, s: CpuView) -> bool {
    &&& s.memory == s0.memory
    &&& s.index == s0.index
    &&& s.pc == s0.pc
    &&& s.stack == s0.stack
    &&& s.sp == s0.sp
    &&& s.keypad == s0.keypad
    &&& s.dt == s0.dt
    &&& s.st == s0.st
    &&& s.draw_flag == s0.draw_flag
    &&& crate::state::wf(s0)
}

/// All components but the register file agree; used while a loop rewrites
/// registers in place.
pub open spec fn wf_frame_regs(s0: CpuView, s: CpuView) -> bool {
    &&& s.screen == s0.screen
    &&& s.memory == s0.memory
    &&& s.index == s0.index
    &&& s.pc == s0.pc
    &&& s.stack == s0.stack
    &&& s.sp == s0.sp
    &&& s.keypad == s0.keypad
    &&& s.dt == s0.dt
    &&& s.st == s0.st
    &&& s.draw_flag == s0.draw_flag
    &&& crate::state::wf(s0)
}

} // verus!
