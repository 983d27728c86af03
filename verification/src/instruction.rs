//! Instructions and how two fetched bytes are decoded into one.

use vstd::prelude::*;

verus! {

/// One decoded instruction. `x` and `y` name registers, `kk` is an 8-bit
/// immediate, `n` a 4-bit one and `addr` a 12-bit address.
#[derive(Clone, Copy, Debug, PartialEq, Eq, Structural)]
pub enum Instruction {
    /// `00E0`: turn every pixel off.
    ClearScreen,
    /// `00EE`: return from a subroutine.
    Return,
    /// `1addr`: continue at `addr`.
    Jump { addr: u16 },
    /// `2addr`: call the subroutine at `addr`. The call stack has no fixed
    /// depth.
    Call { addr: u16 },
    /// `3xkk`: skip the next instruction if `Vx == kk`.
    SkipIfEqual { x: u8, kk: u8 },
    /// `4xkk`: skip the next instruction if `Vx != kk`.
    SkipIfNotEqual { x: u8, kk: u8 },
    /// `5xy_`: skip the next instruction if `Vx == Vy`.
    SkipIfRegistersEqual { x: u8, y: u8 },
    /// `6xkk`: `Vx = kk`.
    Load { x: u8, kk: u8 },
    /// `7xkk`: `Vx = Vx + kk` modulo 256; the flag register is not touched.
    AddImmediate { x: u8, kk: u8 },
    /// `8xy0`: `Vx = Vy`.
    Move { x: u8, y: u8 },
    /// `8xy1`: `Vx = Vx | Vy`.
    Or { x: u8, y: u8 },
    /// `8xy2`: `Vx = Vx & Vy`.
    And { x: u8, y: u8 },
    /// `8xy3`: `Vx = Vx ^ Vy`.
    Xor { x: u8, y: u8 },
    /// `8xy4`: `Vx = Vx + Vy` modulo 256, `VF` = 1 if the sum is above 255,
    /// else 0. `VF` is written first: with `x == 0xF` it ends up holding the
    /// sum.
    Add { x: u8, y: u8 },
    /// `8xy5`: `Vx = Vx - Vy` modulo 256, `VF` = 1 if `Vx > Vy`, else 0.
    /// `VF` is written first: with `x == 0xF` it ends up holding the
    /// difference.
    Subtract { x: u8, y: u8 },
    /// `8xy6`: `Vx = Vx >> 1`, `VF` = the lowest bit that `Vx` had before.
    /// `VF` is written last: with `x == 0xF` it ends up holding that bit.
    ShiftRight { x: u8 },
    /// `8xy7`: `Vx = Vy - Vx` modulo 256, `VF` = 1 if `Vy > Vx`, else 0.
    /// `VF` is written first: with `x == 0xF` it ends up holding the
    /// difference.
    SubtractFrom { x: u8, y: u8 },
    /// `8xyE`: `Vx = Vx << 1` modulo 256, `VF` = the highest bit that `Vx`
    /// had before. `VF` is written last: with `x == 0xF` it ends up holding
    /// that bit.
    ShiftLeft { x: u8 },
    /// `9xy_`: skip the next instruction if `Vx != Vy`.
    SkipIfRegistersDiffer { x: u8, y: u8 },
    /// `Aaddr`: index register = `addr`.
    LoadIndex { addr: u16 },
    /// `Baddr`: continue at `addr + V0`.
    JumpOffset { addr: u16 },
    /// `Dxyn`: draw the `n`-row sprite that the index register points at,
    /// its top left corner at column `Vx mod 64` of row `Vy mod 32`; `VF` = 1
    /// if a lit pixel was turned off, else 0. `Vx` and `Vy` are read before
    /// `VF` is written.
    Draw { x: u8, y: u8, n: u8 },
    /// Any other opcode. It has no effect; `opcode` is kept for diagnostics.
    Unimplemented { opcode: u16 },
}

/// The upper four bits of a byte.
pub open spec fn high_nibble(b: u8) -> u8 {
    b / 16
}

/// The lower four bits of a byte.
pub open spec fn low_nibble(b: u8) -> u8 {
    b % 16
}

/// The 12-bit address made of the low nibble of `b0` and all of `b1`.
pub open spec fn address_of(b0: u8, b1: u8) -> u16 {
    (low_nibble(b0) * 256 + b1) as u16
}

/// The 16-bit opcode whose first byte is `b0` and whose second is `b1`.
pub open spec fn opcode_of(b0: u8, b1: u8) -> u16 {
    (b0 * 256 + b1) as u16
}

/// The instruction that the bytes `b0`, `b1` encode. The family is the high
/// nibble of `b0`; within family 8 the low nibble of `b1` selects the
/// operation.
pub open spec fn decode_spec(b0: u8, b1: u8) -> Instruction {
    let x = low_nibble(b0);
    let y = high_nibble(b1);
    let n = low_nibble(b1);
    let addr = address_of(b0, b1);
    let family = high_nibble(b0);
    if family == 0 {
        if b0 == 0 && b1 == 0xE0 {
            Instruction::ClearScreen
        } else if b0 == 0 && b1 == 0xEE {
            Instruction::Return
        } else {
            Instruction::Unimplemented { opcode: opcode_of(b0, b1) }
        }
    } else if family == 1 {
        Instruction::Jump { addr }
    } else if family == 2 {
        Instruction::Call { addr }
    } else if family == 3 {
        Instruction::SkipIfEqual { x, kk: b1 }
    } else if family == 4 {
        Instruction::SkipIfNotEqual { x, kk: b1 }
    } else if family == 5 {
        Instruction::SkipIfRegistersEqual { x, y }
    } else if family == 6 {
        Instruction::Load { x, kk: b1 }
    } else if family == 7 {
        Instruction::AddImmediate { x, kk: b1 }
    } else if family == 8 {
        if n == 0 {
            Instruction::Move { x, y }
        } else if n == 1 {
            Instruction::Or { x, y }
        } else if n == 2 {
            Instruction::And { x, y }
        } else if n == 3 {
            Instruction::Xor { x, y }
        } else if n == 4 {
            Instruction::Add { x, y }
        } else if n == 5 {
            Instruction::Subtract { x, y }
        } else if n == 6 {
            Instruction::ShiftRight { x }
        } else if n == 7 {
            Instruction::SubtractFrom { x, y }
        } else if n == 0xE {
            Instruction::ShiftLeft { x }
        } else {
            Instruction::Unimplemented { opcode: opcode_of(b0, b1) }
        }
    } else if family == 9 {
        Instruction::SkipIfRegistersDiffer { x, y }
    } else if family == 0xA {
        Instruction::LoadIndex { addr }
    } else if family == 0xB {
        Instruction::JumpOffset { addr }
    } else if family == 0xD {
        Instruction::Draw { x, y, n }
    } else {
        Instruction::Unimplemented { opcode: opcode_of(b0, b1) }
    }
}

impl Instruction {
    /// Register operands are below 16, sprite heights below 16 and addresses
    /// below 4096.
    pub open spec fn well_formed(self) -> bool {
        match self {
            Instruction::ClearScreen | Instruction::Return => true,
            Instruction::Jump { addr }
            | Instruction::Call { addr }
            | Instruction::LoadIndex { addr }
            | Instruction::JumpOffset { addr } => addr < 4096,
            Instruction::SkipIfEqual { x, kk }
            | Instruction::SkipIfNotEqual { x, kk }
            | Instruction::Load { x, kk }
            | Instruction::AddImmediate { x, kk } => x < 16,
            Instruction::SkipIfRegistersEqual { x, y }
            | Instruction::Move { x, y }
            | Instruction::Or { x, y }
            | Instruction::And { x, y }
            | Instruction::Xor { x, y }
            | Instruction::Add { x, y }
            | Instruction::Subtract { x, y }
            | Instruction::SubtractFrom { x, y }
            | Instruction::SkipIfRegistersDiffer { x, y } => x < 16 && y < 16,
            Instruction::ShiftRight { x } | Instruction::ShiftLeft { x } => x < 16,
            Instruction::Draw { x, y, n } => x < 16 && y < 16 && n < 16,
            Instruction::Unimplemented { opcode } => true,
        }
    }

    /// The family of an opcode that has no effect: its highest nibble.
    /// `None` for every instruction that is carried out.
    pub fn unimplemented_family(&self) -> (family: Option<u8>)
        ensures
            family == match *self {
                Instruction::Unimplemented { opcode } => Some((opcode / 4096) as u8),
                _ => None,
            },
    {
        match *self {
            Instruction::Unimplemented { opcode } => {
                let f: u16 = opcode >> 12;
                assert(opcode >> 12 == opcode / 4096 && opcode / 4096 < 16) by (bit_vector);
                Some(f as u8)
            },
            _ => None,
        }
    }
}

/// Every decoded instruction is well formed.
pub proof fn lemma_decode_well_formed(b0: u8, b1: u8)
    ensures
        decode_spec(b0, b1).well_formed(),
{
}

fn upper(b: u8) -> (r: u8)
    ensures
        r == high_nibble(b),
        r < 16,
{
    assert(b >> 4 == b / 16 && b / 16 < 16) by (bit_vector);
    b >> 4
}

fn lower(b: u8) -> (r: u8)
    ensures
        r == low_nibble(b),
        r < 16,
{
    assert(b & 0xF == b % 16 && b % 16 < 16) by (bit_vector);
    b & 0xF
}

fn join(hi: u8, lo: u8) -> (r: u16)
    ensures
        r == hi * 256 + lo,
{
    let h: u16 = hi as u16;
    let l: u16 = lo as u16;
    assert((h << 8) | l == h * 256 + l) by (bit_vector)
        requires
            h < 256,
            l < 256,
    ;
    (h << 8) | l
}

/// Decodes the two bytes of an instruction.
pub fn decode(b0: u8, b1: u8) -> (inst: Instruction)
    ensures
        inst == decode_spec(b0, b1),
        inst.well_formed(),
{
    let x: u8 = lower(b0);
    let y: u8 = upper(b1);
    let n: u8 = lower(b1);
    let addr: u16 = join(x, b1);
    match upper(b0) {
        0x0 => {
            if b0 == 0x00 && b1 == 0xE0 {
                Instruction::ClearScreen
            } else if b0 == 0x00 && b1 == 0xEE {
                Instruction::Return
            } else {
                Instruction::Unimplemented { opcode: join(b0, b1) }
            }
        },
        0x1 => Instruction::Jump { addr },
        0x2 => Instruction::Call { addr },
        0x3 => Instruction::SkipIfEqual { x, kk: b1 },
        0x4 => Instruction::SkipIfNotEqual { x, kk: b1 },
        0x5 => Instruction::SkipIfRegistersEqual { x, y },
        0x6 => Instruction::Load { x, kk: b1 },
        0x7 => Instruction::AddImmediate { x, kk: b1 },
        0x8 => match n {
            0x0 => Instruction::Move { x, y },
            0x1 => Instruction::Or { x, y },
            0x2 => Instruction::And { x, y },
            0x3 => Instruction::Xor { x, y },
            0x4 => Instruction::Add { x, y },
            0x5 => Instruction::Subtract { x, y },
            0x6 => Instruction::ShiftRight { x },
            0x7 => Instruction::SubtractFrom { x, y },
            0xE => Instruction::ShiftLeft { x },
            _ => Instruction::Unimplemented { opcode: join(b0, b1) },
        },
        0x9 => Instruction::SkipIfRegistersDiffer { x, y },
        0xA => Instruction::LoadIndex { addr },
        0xB => Instruction::JumpOffset { addr },
        0xD => Instruction::Draw { x, y, n },
        _ => Instruction::Unimplemented { opcode: join(b0, b1) },
    }
}

} // verus!
