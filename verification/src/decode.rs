//! Instruction decoding: a fetched 16-bit opcode is split into nibble
//! fields and mapped to a closed sum type, [`Instr`], on which the
//! dispatcher matches.

use vstd::prelude::*;

verus! {

/// One decoded instruction. `x` and `y` are register selectors (always
/// below 16, being 4-bit fields), `n` a 4-bit immediate, `nn` an 8-bit
/// immediate and `nnn` a 12-bit address.
#[derive(Clone, Copy, PartialEq, Eq, Structural, Debug)]
pub enum Instr {
    /// `00E0`: clear the framebuffer.
    Cls,
    /// `00EE`: return from a subroutine.
    Ret,
    /// `1nnn`: jump.
    Jump { nnn: u16 },
    /// `2nnn`: call a subroutine.
    Call { nnn: u16 },
    /// `3xnn`: skip the next instruction if Vx == nn.
    SkipEqImm { x: u8, nn: u8 },
    /// `4xnn`: skip the next instruction if Vx != nn.
    SkipNeImm { x: u8, nn: u8 },
    /// `5xy0`: skip the next instruction if Vx == Vy.
    SkipEqReg { x: u8, y: u8 },
    /// `9xy0`: skip the next instruction if Vx != Vy.
    SkipNeReg { x: u8, y: u8 },
    /// `6xnn`: Vx = nn.
    SetImm { x: u8, nn: u8 },
    /// `7xnn`: Vx += nn, wrapping, no flag.
    AddImm { x: u8, nn: u8 },
    /// `8xy0`: Vx = Vy.
    MovReg { x: u8, y: u8 },
    /// `8xy1`: Vx |= Vy (resets VF on the Original variant).
    OrReg { x: u8, y: u8 },
    /// `8xy2`: Vx &= Vy (resets VF on the Original variant).
    AndReg { x: u8, y: u8 },
    /// `8xy3`: Vx ^= Vy (resets VF on the Original variant).
    XorReg { x: u8, y: u8 },
    /// `8xy4`: Vx += Vy; VF = carry.
    AddReg { x: u8, y: u8 },
    /// `8xy5`: Vx -= Vy; VF = 1 when no borrow.
    SubReg { x: u8, y: u8 },
    /// `8xy7`: Vx = Vy - Vx; VF = 1 when no borrow.
    SubnReg { x: u8, y: u8 },
    /// `8xy6`: shift right by one; VF = the bit shifted out.
    ShrReg { x: u8, y: u8 },
    /// `8xyE`: shift left by one; VF = the bit shifted out.
    ShlReg { x: u8, y: u8 },
    /// `Annn`: I = nnn.
    SetIndex { nnn: u16 },
    /// `Bnnn`: jump to nnn plus an offset register.
    JumpOffset { x: u8, nnn: u16 },
    /// `Cxnn`: Vx = random byte AND nn.
    RandMask { x: u8, nn: u8 },
    /// `Dxyn`: draw an n-row sprite at (Vx, Vy); VF = collision.
    Draw { x: u8, y: u8, n: u8 },
    /// `Ex9E`: skip if key Vx is held.
    SkipKey { x: u8 },
    /// `ExA1`: skip if key Vx is not held.
    SkipNoKey { x: u8 },
    /// `Fx07`: Vx = delay timer.
    ReadDelay { x: u8 },
    /// `Fx0A`: wait for a key release; re-arms when none is seen.
    WaitKey { x: u8 },
    /// `Fx15`: delay timer = Vx.
    SetDelay { x: u8 },
    /// `Fx18`: sound timer = Vx.
    SetSound { x: u8 },
    /// `Fx1E`: I += Vx.
    AddIndex { x: u8 },
    /// `Fx29`: I = the font glyph address for the low nibble of Vx.
    FontChar { x: u8 },
    /// `Fx33`: store the three decimal digits of Vx at I, I+1, I+2.
    StoreBcd { x: u8 },
    /// `Fx55`: store V0..Vx to memory at I.
    StoreRegs { x: u8 },
    /// `Fx65`: load V0..Vx from memory at I.
    LoadRegs { x: u8 },
    /// Any pattern not listed above: no effect beyond the PC advance.
    Unknown,
}

/// The second nibble of an opcode: the X register selector.
pub open spec fn op_x(op: u16) -> u8 {
    ((op >> 8) & 0xF) as u8
}

/// The third nibble of an opcode: the Y register selector.
pub open spec fn op_y(op: u16) -> u8 {
    ((op >> 4) & 0xF) as u8
}

/// The trailing nibble of an opcode.
pub open spec fn op_n(op: u16) -> u8 {
    (op & 0xF) as u8
}

/// The low byte of an opcode.
pub open spec fn op_nn(op: u16) -> u8 {
    (op & 0xFF) as u8
}

/// The low 12 bits of an opcode.
pub open spec fn op_nnn(op: u16) -> u16 {
    op & 0xFFF
}

/// The nibble fields of an opcode are 4-bit (12-bit for `nnn`) values.
pub proof fn lemma_field_bounds(op: u16)
    ensures
        op_x(op) < 16,
        op_y(op) < 16,
        op_n(op) < 16,
        op_nnn(op) < 0x1000,
{
    assert(((op >> 8) & 0xF) < 16 && ((op >> 4) & 0xF) < 16 && (op & 0xF) < 16 && (op & 0xFFF)
        < 0x1000) by (bit_vector);
}

/// The decode table: leading nibble first, sub-selection on the trailing
/// fields for the `0x0`, `0x8`, `0xE` and `0xF` clusters.
pub open spec fn decode(op: u16) -> Instr {
    let hi = (op >> 12) & 0xF;
    let x = op_x(op);
    let y = op_y(op);
    let n = op_n(op);
    let nn = op_nn(op);
    let nnn = op_nnn(op);
    if op == 0x00E0 {
        Instr::Cls
    } else if op == 0x00EE {
        Instr::Ret
    } else if hi == 0x1 {
        Instr::Jump { nnn }
    } else if hi == 0x2 {
        Instr::Call { nnn }
    } else if hi == 0x3 {
        Instr::SkipEqImm { x, nn }
    } else if hi == 0x4 {
        Instr::SkipNeImm { x, nn }
    } else if hi == 0x5 && n == 0x0 {
        Instr::SkipEqReg { x, y }
    } else if hi == 0x6 {
        Instr::SetImm { x, nn }
    } else if hi == 0x7 {
        Instr::AddImm { x, nn }
    } else if hi == 0x8 && n == 0x0 {
        Instr::MovReg { x, y }
    } else if hi == 0x8 && n == 0x1 {
        Instr::OrReg { x, y }
    } else if hi == 0x8 && n == 0x2 {
        Instr::AndReg { x, y }
    } else if hi == 0x8 && n == 0x3 {
        Instr::XorReg { x, y }
    } else if hi == 0x8 && n == 0x4 {
        Instr::AddReg { x, y }
    } else if hi == 0x8 && n == 0x5 {
        Instr::SubReg { x, y }
    } else if hi == 0x8 && n == 0x6 {
        Instr::ShrReg { x, y }
    } else if hi == 0x8 && n == 0x7 {
        Instr::SubnReg { x, y }
    } else if hi == 0x8 && n == 0xE {
        Instr::ShlReg { x, y }
    } else if hi == 0x9 && n == 0x0 {
        Instr::SkipNeReg { x, y }
    } else if hi == 0xA {
        Instr::SetIndex { nnn }
    } else if hi == 0xB {
        Instr::JumpOffset { x, nnn }
    } else if hi == 0xC {
        Instr::RandMask { x, nn }
    } else if hi == 0xD {
        Instr::Draw { x, y, n }
    } else if hi == 0xE && nn == 0x9E {
        Instr::SkipKey { x }
    } else if hi == 0xE && nn == 0xA1 {
        Instr::SkipNoKey { x }
    } else if hi == 0xF && nn == 0x07 {
        Instr::ReadDelay { x }
    } else if hi == 0xF && nn == 0x0A {
        Instr::WaitKey { x }
    } else if hi == 0xF && nn == 0x15 {
        Instr::SetDelay { x }
    } else if hi == 0xF && nn == 0x18 {
        Instr::SetSound { x }
    } else if hi == 0xF && nn == 0x1E {
        Instr::AddIndex { x }
    } else if hi == 0xF && nn == 0x29 {
        Instr::FontChar { x }
    } else if hi == 0xF && nn == 0x33 {
        Instr::StoreBcd { x }
    } else if hi == 0xF && nn == 0x55 {
        Instr::StoreRegs { x }
    } else if hi == 0xF && nn == 0x65 {
        Instr::LoadRegs { x }
    } else {
        Instr::Unknown
    }
}

/// Decode one opcode word.
pub fn decode_op(op: u16) -> (instr: Instr)
    ensures
        instr == decode(op),
{
    let hi = (op >> 12) & 0xF;
    let x = ((op >> 8) & 0xF) as u8;
    let y = ((op >> 4) & 0xF) as u8;
    let n = (op & 0xF) as u8;
    let nn = (op & 0xFF) as u8;
    let nnn = op & 0xFFF;
    if op == 0x00E0 {
        Instr::Cls
    } else if op == 0x00EE {
        Instr::Ret
    } else if hi == 0x1 {
        Instr::Jump { nnn }
    } else if hi == 0x2 {
        Instr::Call { nnn }
    } else if hi == 0x3 {
        Instr::SkipEqImm { x, nn }
    } else if hi == 0x4 {
        Instr::SkipNeImm { x, nn }
    } else if hi == 0x5 && n == 0x0 {
        Instr::SkipEqReg { x, y }
    } else if hi == 0x6 {
        Instr::SetImm { x, nn }
    } else if hi == 0x7 {
        Instr::AddImm { x, nn }
    } else if hi == 0x8 && n == 0x0 {
        Instr::MovReg { x, y }
    } else if hi == 0x8 && n == 0x1 {
        Instr::OrReg { x, y }
    } else if hi == 0x8 && n == 0x2 {
        Instr::AndReg { x, y }
    } else if hi == 0x8 && n == 0x3 {
        Instr::XorReg { x, y }
    } else if hi == 0x8 && n == 0x4 {
        Instr::AddReg { x, y }
    } else if hi == 0x8 && n == 0x5 {
        Instr::SubReg { x, y }
    } else if hi == 0x8 && n == 0x6 {
        Instr::ShrReg { x, y }
    } else if hi == 0x8 && n == 0x7 {
        Instr::SubnReg { x, y }
    } else if hi == 0x8 && n == 0xE {
        Instr::ShlReg { x, y }
    } else if hi == 0x9 && n == 0x0 {
        Instr::SkipNeReg { x, y }
    } else if hi == 0xA {
        Instr::SetIndex { nnn }
    } else if hi == 0xB {
        Instr::JumpOffset { x, nnn }
    } else if hi == 0xC {
        Instr::RandMask { x, nn }
    } else if hi == 0xD {
        Instr::Draw { x, y, n }
    } else if hi == 0xE && nn == 0x9E {
        Instr::SkipKey { x }
    } else if hi == 0xE && nn == 0xA1 {
        Instr::SkipNoKey { x }
    } else if hi == 0xF && nn == 0x07 {
        Instr::ReadDelay { x }
    } else if hi == 0xF && nn == 0x0A {
        Instr::WaitKey { x }
    } else if hi == 0xF && nn == 0x15 {
        Instr::SetDelay { x }
    } else if hi == 0xF && nn == 0x18 {
        Instr::SetSound { x }
    } else if hi == 0xF && nn == 0x1E {
        Instr::AddIndex { x }
    } else if hi == 0xF && nn == 0x29 {
        Instr::FontChar { x }
    } else if hi == 0xF && nn == 0x33 {
        Instr::StoreBcd { x }
    } else if hi == 0xF && nn == 0x55 {
        Instr::StoreRegs { x }
    } else if hi == 0xF && nn == 0x65 {
        Instr::LoadRegs { x }
    } else {
        Instr::Unknown
    }
}

} // verus!
