//! The mathematical model of the machine: one ghost record for the whole
//! state, its well-formedness condition, and the state a machine holds right
//! after construction or reset (all zero except the glyph table).

use vstd::prelude::*;

verus! {

/// Width of the display in pixels.
pub const SCREEN_WIDTH: usize = 64;

/// Height of the display in pixels.
pub const SCREEN_HEIGHT: usize = 32;

/// Number of addressable memory bytes.
pub const RAM_SIZE: usize = 4096;

/// Number of general-purpose registers.
pub const NUM_REGISTERS: usize = 16;

/// Depth of the call stack.
pub const STACK_SIZE: usize = 16;

/// Number of keys in the input latch.
pub const NUM_KEYS: usize = 16;

/// Address at which program images are installed and execution begins.
pub const START_ADDR: u16 = 512;

/// Number of bytes of the glyph table (16 digits, 5 rows each).
pub const FONTSET_SIZE: usize = 80;

/// Largest program image that fits between `START_ADDR` and the end of memory.
pub const MAX_PROGRAM_SIZE: usize = 3584;

/// The outcomes a step or a load can fail with. Every error is reported to
/// the host; the machine never panics on program behaviour.
#[derive(Clone, Copy, Debug, PartialEq, Eq, Structural)]
pub enum Chip8Error {
    /// A program image larger than the space above `START_ADDR`.
    CapacityExceeded,
    /// A fetched bit pattern that matches no instruction.
    UnimplementedInstruction,
    /// A call with the stack already holding `STACK_SIZE` return addresses.
    StackOverflow,
    /// A return with an empty stack.
    StackUnderflow,
    /// A fetch or a memory-touching instruction that would leave the memory
    /// region, or a key index beyond the latch.
    OutOfBoundsAccess,
}

/// The whole machine state as one ghost record.
#[verifier::ext_equal]
pub struct MachineView {
    /// Program counter.
    pub pc: u16,
    /// The 4096 memory bytes.
    pub ram: Seq<u8>,
    /// The 64x32 display bits, row-major: index = x + 64 * y.
    pub display: Seq<bool>,
    /// The 16 general registers; index 15 doubles as the flag register.
    pub regs: Seq<u8>,
    /// The 16-bit index register.
    pub index: u16,
    /// The 16 call-stack slots; only those below `sp` are live.
    pub stack: Seq<u16>,
    /// The stack pointer, 0 to 16.
    pub sp: int,
    /// The pressed/released state of the 16 keys.
    pub keys: Seq<bool>,
    /// The delay countdown timer.
    pub delay: u8,
    /// The sound countdown timer.
    pub sound: u8,
}

impl MachineView {
    /// Every component has its fixed size and the stack pointer stays in range.
    pub open spec fn wf(self) -> bool {
        &&& self.ram.len() == RAM_SIZE
        &&& self.display.len() == SCREEN_WIDTH * SCREEN_HEIGHT
        &&& self.regs.len() == NUM_REGISTERS
        &&& self.stack.len() == STACK_SIZE
        &&& 0 <= self.sp <= STACK_SIZE
        &&& self.keys.len() == NUM_KEYS
    }
}

/// A display with every pixel off.
pub open spec fn all_false(n: int) -> Seq<bool> {
    Seq::new(n as nat, |i: int| false)
}

/// One timer step on one counter: decrement by 1, floored at 0.
pub open spec fn dec_timer(t: u8) -> u8 {
    if t > 0 {
        (t - 1) as u8
    } else {
        0
    }
}

/// Row `r` of the glyph for hexadecimal digit `d`: a 5-row, 4-column sprite,
/// left-justified in the byte.
pub open spec fn glyph_row(d: int, r: int) -> u8 {
    if d == 0 {
        if r == 0 { 0xF0 } else if r == 1 { 0x90 } else if r == 2 { 0x90 } else if r == 3 { 0x90 } else { 0xF0 }
    } else if d == 1 {
        if r == 0 { 0x20 } else if r == 1 { 0x60 } else if r == 2 { 0x20 } else if r == 3 { 0x20 } else { 0x70 }
    } else if d == 2 {
        if r == 0 { 0xF0 } else if r == 1 { 0x10 } else if r == 2 { 0xF0 } else if r == 3 { 0x80 } else { 0xF0 }
    } else if d == 3 {
        if r == 0 { 0xF0 } else if r == 1 { 0x10 } else if r == 2 { 0xF0 } else if r == 3 { 0x10 } else { 0xF0 }
    } else if d == 4 {
        if r == 0 { 0x90 } else if r == 1 { 0x90 } else if r == 2 { 0xF0 } else if r == 3 { 0x10 } else { 0x10 }
    } else if d == 5 {
        if r == 0 { 0xF0 } else if r == 1 { 0x80 } else if r == 2 { 0xF0 } else if r == 3 { 0x10 } else { 0xF0 }
    } else if d == 6 {
        if r == 0 { 0xF0 } else if r == 1 { 0x80 } else if r == 2 { 0xF0 } else if r == 3 { 0x90 } else { 0xF0 }
    } else if d == 7 {
        if r == 0 { 0xF0 } else if r == 1 { 0x10 } else if r == 2 { 0x20 } else if r == 3 { 0x40 } else { 0x40 }
    } else if d == 8 {
        if r == 0 { 0xF0 } else if r == 1 { 0x90 } else if r == 2 { 0xF0 } else if r == 3 { 0x90 } else { 0xF0 }
    } else if d == 9 {
        if r == 0 { 0xF0 } else if r == 1 { 0x90 } else if r == 2 { 0xF0 } else if r == 3 { 0x10 } else { 0xF0 }
    } else if d == 10 {
        if r == 0 { 0xF0 } else if r == 1 { 0x90 } else if r == 2 { 0xF0 } else if r == 3 { 0x90 } else { 0x90 }
    } else if d == 11 {
        if r == 0 { 0xE0 } else if r == 1 { 0x90 } else if r == 2 { 0xE0 } else if r == 3 { 0x90 } else { 0xE0 }
    } else if d == 12 {
        if r == 0 { 0xF0 } else if r == 1 { 0x80 } else if r == 2 { 0x80 } else if r == 3 { 0x80 } else { 0xF0 }
    } else if d == 13 {
        if r == 0 { 0xE0 } else if r == 1 { 0x90 } else if r == 2 { 0x90 } else if r == 3 { 0x90 } else { 0xE0 }
    } else if d == 14 {
        if r == 0 { 0xF0 } else if r == 1 { 0x80 } else if r == 2 { 0xF0 } else if r == 3 { 0x80 } else { 0xF0 }
    } else {
        if r == 0 { 0xF0 } else if r == 1 { 0x80 } else if r == 2 { 0xF0 } else if r == 3 { 0x80 } else { 0x80 }
    }
}

/// Byte `j` of the 80-byte glyph table: digit `j / 5`, row `j % 5`.
pub open spec fn fontset_byte(j: int) -> u8 {
    glyph_row(j / 5, j % 5)
}

/// The state right after construction or reset: program counter at
/// `START_ADDR`, the glyph table in the first 80 memory bytes, and every
/// other component zeroed.
pub open spec fn initial_view() -> MachineView {
    MachineView {
        pc: START_ADDR,
        ram: Seq::new(RAM_SIZE as nat, |j: int| if j < FONTSET_SIZE { fontset_byte(j) } else { 0u8 }),
        display: all_false((SCREEN_WIDTH * SCREEN_HEIGHT) as int),
        regs: Seq::new(NUM_REGISTERS as nat, |i: int| 0u8),
        index: 0,
        stack: Seq::new(STACK_SIZE as nat, |i: int| 0u16),
        sp: 0,
        keys: Seq::new(NUM_KEYS as nat, |i: int| false),
        delay: 0,
        sound: 0,
    }
}

} // verus!
