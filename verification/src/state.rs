//! The mathematical view of the machine: a ghost record of every component
//! (frame buffer, address space, register file, call stack, input latch,
//! timers), its well-formedness predicate, and the fault and event types that
//! one execution step can report.

use vstd::prelude::*;

verus! {

/// Pixels per frame-buffer row.
pub const WIDTH: usize = 64;

/// Frame-buffer rows.
pub const HEIGHT: usize = 32;

/// Pixels in the whole frame buffer.
pub const DISPLAY_SIZE: usize = 2048;

/// Bytes in the address space.
pub const MEMORY_SIZE: usize = 4096;

/// Capacity of the call stack.
pub const STACK_DEPTH: usize = 64;

/// Where a program image is loaded and where execution starts.
pub const PROGRAM_START: usize = 0x200;

/// The kind of a fatal execution fault.  A fault ends the run: the machine
/// state after it is not meaningful for further execution.
#[derive(Clone, Copy, Debug, PartialEq, Eq, Structural)]
pub enum FaultKind {
    /// The program counter does not name two in-range instruction bytes.
    FetchOutOfRange,
    /// An instruction addressed a byte outside the address space, or a key
    /// index outside the input latch.
    OutOfRange,
    /// A call was issued with the stack already full.
    StackOverflow,
    /// A return was issued with the stack already empty.
    StackUnderflow,
}

/// A fatal fault, identifying the faulting instruction and its address.
#[derive(Clone, Copy, Debug, PartialEq, Eq, Structural)]
pub struct Fault {
    pub kind: FaultKind,
    /// Address of the faulting instruction: the program counter at fetch time.
    pub pc: usize,
    /// The faulting instruction word; 0 when the fetch itself was out of range.
    pub op: u16,
}

/// What one successful execution step did.
#[derive(Clone, Copy, Debug, PartialEq, Eq, Structural)]
pub enum StepEvent {
    /// A recognized instruction was executed.
    Executed,
    /// The fetched word decodes to no instruction; the step was a no-op
    /// beyond advancing the program counter.  The word is reported so the
    /// host can surface a diagnostic.
    Unrecognized(u16),
}

/// The machine state as mathematics.  The frame buffer is row-major:
/// pixel (column px, row py) is `screen[py * 64 + px]`.
#[verifier::ext_equal]
pub ghost struct CpuView {
    /// 2048 pixels, row-major.
    pub screen: Seq<bool>,
    /// 4096 bytes; 0x000..0x200 is reserved, font glyphs start at 0.
    pub memory: Seq<u8>,
    /// 16 general-purpose registers; register 15 doubles as the flag.
    pub regs: Seq<u8>,
    /// The index register, kept within the address space.
    pub index: int,
    /// The program counter.
    pub pc: int,
    /// 64 return-address slots.
    pub stack: Seq<u16>,
    /// Number of occupied stack slots; also the next free slot.
    pub sp: int,
    /// 16 key states; nonzero means pressed.
    pub keypad: Seq<u8>,
    /// Delay timer.
    pub dt: u8,
    /// Sound timer.
    pub st: u8,
    /// Set when the frame buffer changed; the host consumes and resets it.
    pub draw_flag: bool,
}

/// Well-formedness: the sizes of every component, the stack pointer within
/// capacity, the index register within the address space, and the program
/// counter within the range a stored 16-bit return address can name.
pub open spec fn wf(s: CpuView) -> bool {
    &&& s.screen.len() == 2048
    &&& s.memory.len() == 4096
    &&& s.regs.len() == 16
    &&& s.stack.len() == 64
    &&& s.keypad.len() == 16
    &&& 0 <= s.sp <= 64
    &&& 0 <= s.pc < 0x10000
    &&& 0 <= s.index < 4096
}

} // verus!
