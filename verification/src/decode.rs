//! Instruction decoding: a fetched 16-bit word is split into four 4-bit
//! fields and classified into one tagged variant per operation, carrying its
//! extracted operands. An unrecognized pattern decodes to `None`.

use vstd::prelude::*;

verus! {

/// One decoded instruction. `x` and `y` are register indices (0..16),
/// `nn` an 8-bit immediate, `nnn` a 12-bit address, `n` a 4-bit row count.
#[derive(Clone, Copy, Debug, PartialEq, Eq, Structural)]
pub enum Instr {
    /// 0000: no state change.
    Nop,
    /// 00E0: every display bit goes off.
    ClearScreen,
    /// 00EE: the program counter is popped off the stack.
    Return,
    /// 1nnn: the program counter becomes `nnn`.
    Jump(u16),
    /// 2nnn: the program counter is pushed, then becomes `nnn`.
    Call(u16),
    /// 3xnn: skip the next instruction if V[x] == nn.
    SkipEqImm(u8, u8),
    /// 4xnn: skip the next instruction if V[x] != nn.
    SkipNeImm(u8, u8),
    /// 5xy0 and 9xy0: skip the next instruction if V[x] != V[y].
    SkipNeReg(u8, u8),
    /// 6xnn: V[x] becomes nn.
    LoadImm(u8, u8),
    /// 7xnn: V[x] becomes V[x] + nn mod 256; no flag is written.
    AddImm(u8, u8),
    /// 8xy0: V[x] becomes V[y].
    Copy(u8, u8),
    /// 8xy1: V[x] becomes V[x] | V[y].
    Or(u8, u8),
    /// 8xy2: V[x] becomes V[x] & V[y].
    And(u8, u8),
    /// 8xy3: V[x] becomes V[x] ^ V[y].
    Xor(u8, u8),
    /// 8xy4: V[x] becomes V[x] + V[y] mod 256; V[15] becomes the carry.
    AddCarry(u8, u8),
    /// 8xy5: V[x] becomes V[x] - V[y] mod 256; V[15] is 0 when a borrow occurred, else 1.
    SubBorrow(u8, u8),
    /// 8xy6: V[15] becomes the least-significant bit of V[x]; V[x] is shifted right once.
    ShiftRight(u8),
    /// 8xy7: V[x] becomes V[y] - V[x] mod 256; V[15] is 0 when a borrow occurred, else 1.
    SubReverse(u8, u8),
    /// 8xyE: V[15] becomes the most-significant bit of V[x]; V[x] is shifted left once mod 256.
    ShiftLeft(u8),
    /// Annn: the index register becomes `nnn`.
    LoadIndex(u16),
    /// Bnnn: the program counter becomes V[0] + nnn.
    OffsetJump(u16),
    /// Cxnn: V[x] becomes a random byte masked with nn.
    Random(u8, u8),
    /// Dxyn: draw an `n`-row sprite from memory at the index register to (V[x], V[y]).
    Draw(u8, u8, u8),
    /// Ex9E: skip the next instruction if key V[x] is pressed.
    SkipKeyDown(u8),
    /// ExA1: skip the next instruction if key V[x] is not pressed.
    SkipKeyUp(u8),
    /// Fx07: V[x] becomes the delay timer.
    ReadDelay(u8),
    /// Fx0A: V[x] becomes the first pressed key's index; with no key pressed,
    /// the program counter rewinds by 2 so the instruction runs again.
    WaitKey(u8),
    /// Fx15: the delay timer becomes V[x].
    WriteDelay(u8),
    /// Fx18: the sound timer becomes V[x].
    WriteSound(u8),
    /// Fx1E: the index register becomes I + V[x] mod 65536; no flag is written.
    AddIndex(u8),
    /// Fx29: the index register becomes 5 * V[x], the glyph address of digit V[x].
    GlyphIndex(u8),
    /// Fx33: the decimal digits of V[x] are stored at I, I+1, I+2.
    Bcd(u8),
    /// Fx55: memory[I ..= I+x] becomes V[0 ..= x].
    StoreRegs(u8),
    /// Fx65: V[0 ..= x] becomes memory[I ..= I+x].
    LoadRegs(u8),
}

impl Instr {
    /// Operand fields are in the ranges decoding produces: register indices
    /// and row counts are nibbles, addresses are 12 bits.
    pub open spec fn wf(self) -> bool {
        match self {
            Instr::Nop | Instr::ClearScreen | Instr::Return => true,
            Instr::Jump(nnn) | Instr::Call(nnn) | Instr::LoadIndex(nnn) | Instr::OffsetJump(nnn) => nnn < 4096,
            Instr::SkipEqImm(x, _) | Instr::SkipNeImm(x, _) | Instr::LoadImm(x, _)
                | Instr::AddImm(x, _) | Instr::Random(x, _) => x < 16,
            Instr::SkipNeReg(x, y) | Instr::Copy(x, y) | Instr::Or(x, y) | Instr::And(x, y)
                | Instr::Xor(x, y) | Instr::AddCarry(x, y) | Instr::SubBorrow(x, y)
                | Instr::SubReverse(x, y) => x < 16 && y < 16,
            Instr::ShiftRight(x) | Instr::ShiftLeft(x) | Instr::SkipKeyDown(x) | Instr::SkipKeyUp(x)
                | Instr::ReadDelay(x) | Instr::WaitKey(x) | Instr::WriteDelay(x)
                | Instr::WriteSound(x) | Instr::AddIndex(x) | Instr::GlyphIndex(x) | Instr::Bcd(x)
                | Instr::StoreRegs(x) | Instr::LoadRegs(x) => x < 16,
            Instr::Draw(x, y, n) => x < 16 && y < 16 && n < 16,
        }
    }
}

/// What a 16-bit word decodes to: the four nibbles `d1 d2 d3 d4`, most
/// significant first, are matched against the instruction table; `d2` and
/// `d3` serve as register indices, the low 8 or 12 bits as immediates.
pub open spec fn spec_decode(op: u16) -> Option<Instr> {
    let d1 = op / 0x1000;
    let x = ((op / 0x100) % 16) as u8;
    let y = ((op / 16) % 16) as u8;
    let d4 = op % 16;
    let nnn = op % 0x1000;
    let nn = (op % 256) as u8;
    if op == 0x0000 {
        Some(Instr::Nop)
    } else if op == 0x00E0 {
        Some(Instr::ClearScreen)
    } else if op == 0x00EE {
        Some(Instr::Return)
    } else if d1 == 0x1 {
        Some(Instr::Jump(nnn))
    } else if d1 == 0x2 {
        Some(Instr::Call(nnn))
    } else if d1 == 0x3 {
        Some(Instr::SkipEqImm(x, nn))
    } else if d1 == 0x4 {
        Some(Instr::SkipNeImm(x, nn))
    } else if d1 == 0x5 && d4 == 0x0 {
        Some(Instr::SkipNeReg(x, y))
    } else if d1 == 0x6 {
        Some(Instr::LoadImm(x, nn))
    } else if d1 == 0x7 {
        Some(Instr::AddImm(x, nn))
    } else if d1 == 0x8 && d4 == 0x0 {
        Some(Instr::Copy(x, y))
    } else if d1 == 0x8 && d4 == 0x1 {
        Some(Instr::Or(x, y))
    } else if d1 == 0x8 && d4 == 0x2 {
        Some(Instr::And(x, y))
    } else if d1 == 0x8 && d4 == 0x3 {
        Some(Instr::Xor(x, y))
    } else if d1 == 0x8 && d4 == 0x4 {
        Some(Instr::AddCarry(x, y))
    } else if d1 == 0x8 && d4 == 0x5 {
        Some(Instr::SubBorrow(x, y))
    } else if d1 == 0x8 && d4 == 0x6 {
        Some(Instr::ShiftRight(x))
    } else if d1 == 0x8 && d4 == 0x7 {
        Some(Instr::SubReverse(x, y))
    } else if d1 == 0x8 && d4 == 0xE {
        Some(Instr::ShiftLeft(x))
    } else if d1 == 0x9 && d4 == 0x0 {
        Some(Instr::SkipNeReg(x, y))
    } else if d1 == 0xA {
        Some(Instr::LoadIndex(nnn))
    } else if d1 == 0xB {
        Some(Instr::OffsetJump(nnn))
    } else if d1 == 0xC {
        Some(Instr::Random(x, nn))
    } else if d1 == 0xD {
        Some(Instr::Draw(x, y, d4 as u8))
    } else if d1 == 0xE && y == 0x9 && d4 == 0xE {
        Some(Instr::SkipKeyDown(x))
    } else if d1 == 0xE && y == 0xA && d4 == 0x1 {
        Some(Instr::SkipKeyUp(x))
    } else if d1 == 0xF && y == 0x0 && d4 == 0x7 {
        Some(Instr::ReadDelay(x))
    } else if d1 == 0xF && y == 0x0 && d4 == 0xA {
        Some(Instr::WaitKey(x))
    } else if d1 == 0xF && y == 0x1 && d4 == 0x5 {
        Some(Instr::WriteDelay(x))
    } else if d1 == 0xF && y == 0x1 && d4 == 0x8 {
        Some(Instr::WriteSound(x))
    } else if d1 == 0xF && y == 0x1 && d4 == 0xE {
        Some(Instr::AddIndex(x))
    } else if d1 == 0xF && y == 0x2 && d4 == 0x9 {
        Some(Instr::GlyphIndex(x))
    } else if d1 == 0xF && y == 0x3 && d4 == 0x3 {
        Some(Instr::Bcd(x))
    } else if d1 == 0xF && y == 0x5 && d4 == 0x5 {
        Some(Instr::StoreRegs(x))
    } else if d1 == 0xF && y == 0x6 && d4 == 0x5 {
        Some(Instr::LoadRegs(x))
    } else {
        None
    }
}

/// Classify a fetched word into its instruction, or `None` for a pattern
/// outside the table.
pub fn decode(op: u16) -> (r: Option<Instr>)
    ensures
        r == spec_decode(op),
        r matches Some(i) ==> i.wf(),
{
    let d1 = op / 0x1000;
    let x = ((op / 0x100) % 16) as u8;
    let y = ((op / 16) % 16) as u8;
    let d4 = op % 16;
    let nnn = op % 0x1000;
    let nn = (op % 256) as u8;
    if op == 0x0000 {
        Some(Instr::Nop)
    } else if op == 0x00E0 {
        Some(Instr::ClearScreen)
    } else if op == 0x00EE {
        Some(Instr::Return)
    } else if d1 == 0x1 {
        Some(Instr::Jump(nnn))
    } else if d1 == 0x2 {
        Some(Instr::Call(nnn))
    } else if d1 == 0x3 {
        Some(Instr::SkipEqImm(x, nn))
    } else if d1 == 0x4 {
        Some(Instr::SkipNeImm(x, nn))
    } else if d1 == 0x5 && d4 == 0x0 {
        Some(Instr::SkipNeReg(x, y))
    } else if d1 == 0x6 {
        Some(Instr::LoadImm(x, nn))
    } else if d1 == 0x7 {
        Some(Instr::AddImm(x, nn))
    } else if d1 == 0x8 && d4 == 0x0 {
        Some(Instr::Copy(x, y))
    } else if d1 == 0x8 && d4 == 0x1 {
        Some(Instr::Or(x, y))
    } else if d1 == 0x8 && d4 == 0x2 {
        Some(Instr::And(x, y))
    } else if d1 == 0x8 && d4 == 0x3 {
        Some(Instr::Xor(x, y))
    } else if d1 == 0x8 && d4 == 0x4 {
        Some(Instr::AddCarry(x, y))
    } else if d1 == 0x8 && d4 == 0x5 {
        Some(Instr::SubBorrow(x, y))
    } else if d1 == 0x8 && d4 == 0x6 {
        Some(Instr::ShiftRight(x))
    } else if d1 == 0x8 && d4 == 0x7 {
        Some(Instr::SubReverse(x, y))
    } else if d1 == 0x8 && d4 == 0xE {
        Some(Instr::ShiftLeft(x))
    } else if d1 == 0x9 && d4 == 0x0 {
        Some(Instr::SkipNeReg(x, y))
    } else if d1 == 0xA {
        Some(Instr::LoadIndex(nnn))
    } else if d1 == 0xB {
        Some(Instr::OffsetJump(nnn))
    } else if d1 == 0xC {
        Some(Instr::Random(x, nn))
    } else if d1 == 0xD {
        Some(Instr::Draw(x, y, d4 as u8))
    } else if d1 == 0xE && y == 0x9 && d4 == 0xE {
        Some(Instr::SkipKeyDown(x))
    } else if d1 == 0xE && y == 0xA && d4 == 0x1 {
        Some(Instr::SkipKeyUp(x))
    } else if d1 == 0xF && y == 0x0 && d4 == 0x7 {
        Some(Instr::ReadDelay(x))
    } else if d1 == 0xF && y == 0x0 && d4 == 0xA {
        Some(Instr::WaitKey(x))
    } else if d1 == 0xF && y == 0x1 && d4 == 0x5 {
        Some(Instr::WriteDelay(x))
    } else if d1 == 0xF && y == 0x1 && d4 == 0x8 {
        Some(Instr::WriteSound(x))
    } else if d1 == 0xF && y == 0x1 && d4 == 0xE {
        Some(Instr::AddIndex(x))
    } else if d1 == 0xF && y == 0x2 && d4 == 0x9 {
        Some(Instr::GlyphIndex(x))
    } else if d1 == 0xF && y == 0x3 && d4 == 0x3 {
        Some(Instr::Bcd(x))
    } else if d1 == 0xF && y == 0x5 && d4 == 0x5 {
        Some(Instr::StoreRegs(x))
    } else if d1 == 0xF && y == 0x6 && d4 == 0x5 {
        Some(Instr::LoadRegs(x))
    } else {
        None
    }
}

} // verus!
