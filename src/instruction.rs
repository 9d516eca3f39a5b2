use vstd::prelude::*;

verus! {

/// One decoded instruction, with its operands resolved from the instruction word.
///
/// `x` and `y` are register indices (below 16), `addr` a 12-bit address,
/// `imm` an 8-bit immediate and `rows` a sprite height (below 16).
#[derive(Clone, Copy, Debug, PartialEq, Eq, Structural)]
pub enum Instruction {
    Nop,
    ClearScreen,
    Return,
    Jump { addr: u16 },
    Call { addr: u16 },
    SkipEqImm { x: u8, imm: u8 },
    SkipNeImm { x: u8, imm: u8 },
    SkipEqReg { x: u8, y: u8 },
    SetImm { x: u8, imm: u8 },
    AddImm { x: u8, imm: u8 },
    Copy { x: u8, y: u8 },
    Or { x: u8, y: u8 },
    And { x: u8, y: u8 },
    Xor { x: u8, y: u8 },
    AddReg { x: u8, y: u8 },
    Sub { x: u8, y: u8 },
    ShiftRight { x: u8 },
    SubRev { x: u8, y: u8 },
    ShiftLeft { x: u8 },
    SkipNeReg { x: u8, y: u8 },
    SetIndex { addr: u16 },
    JumpOffset { addr: u16 },
    Random { x: u8, imm: u8 },
    Draw { x: u8, y: u8, rows: u8 },
    SkipKeyPressed { x: u8 },
    SkipKeyReleased { x: u8 },
    GetDelay { x: u8 },
    WaitKey { x: u8 },
    SetDelay { x: u8 },
    SetSound { x: u8 },
    AddIndex { x: u8 },
    FontGlyph { x: u8 },
    StoreBcd { x: u8 },
    StoreRegs { x: u8 },
    LoadRegs { x: u8 },
}

/// The most significant nibble of an instruction word.
pub open spec fn nibble1(op: u16) -> u16 {
    (op >> 12u16) & 0xFu16
}

/// The second nibble: the first register index.
pub open spec fn nibble2(op: u16) -> u16 {
    (op >> 8u16) & 0xFu16
}

/// The third nibble: the second register index.
pub open spec fn nibble3(op: u16) -> u16 {
    (op >> 4u16) & 0xFu16
}

/// The least significant nibble.
pub open spec fn nibble4(op: u16) -> u16 {
    op & 0xFu16
}

/// The 12-bit address immediate.
pub open spec fn addr_of(op: u16) -> u16 {
    op & 0xFFFu16
}

/// The 8-bit immediate.
pub open spec fn imm_of(op: u16) -> u8 {
    (op & 0xFFu16) as u8
}

impl Instruction {
    /// Operands lie in the ranges that an instruction word can encode.
    pub open spec fn wf(self) -> bool {
        match self {
            Instruction::Jump { addr } | Instruction::Call { addr } | Instruction::SetIndex { addr }
            | Instruction::JumpOffset { addr } => addr < 4096,
            Instruction::SkipEqImm { x, .. } | Instruction::SkipNeImm { x, .. }
            | Instruction::SetImm { x, .. } | Instruction::AddImm { x, .. }
            | Instruction::Random { x, .. } | Instruction::ShiftRight { x }
            | Instruction::ShiftLeft { x } | Instruction::SkipKeyPressed { x }
            | Instruction::SkipKeyReleased { x } | Instruction::GetDelay { x }
            | Instruction::WaitKey { x } | Instruction::SetDelay { x }
            | Instruction::SetSound { x } | Instruction::AddIndex { x }
            | Instruction::FontGlyph { x } | Instruction::StoreBcd { x }
            | Instruction::StoreRegs { x } | Instruction::LoadRegs { x } => x < 16,
            Instruction::SkipEqReg { x, y } | Instruction::Copy { x, y }
            | Instruction::Or { x, y } | Instruction::And { x, y }
            | Instruction::Xor { x, y } | Instruction::AddReg { x, y }
            | Instruction::Sub { x, y } | Instruction::SubRev { x, y }
            | Instruction::SkipNeReg { x, y } => x < 16 && y < 16,
            Instruction::Draw { x, y, rows } => x < 16 && y < 16 && rows < 16,
            _ => true,
        }
    }
}

/// What an instruction word means, by the pattern of its four nibbles;
/// `None` for a word with no defined meaning.
pub open spec fn decode_word(op: u16) -> Option<Instruction> {
    let (a, b, c, d) = (nibble1(op), nibble2(op), nibble3(op), nibble4(op));
    let x = b as u8;
    let y = c as u8;
    let addr = addr_of(op);
    let imm = imm_of(op);
    if op == 0x0000 {
        Some(Instruction::Nop)
    } else if op == 0x00E0 {
        Some(Instruction::ClearScreen)
    } else if op == 0x00EE {
        Some(Instruction::Return)
    } else if a == 1 {
        Some(Instruction::Jump { addr })
    } else if a == 2 {
        Some(Instruction::Call { addr })
    } else if a == 3 {
        Some(Instruction::SkipEqImm { x, imm })
    } else if a == 4 {
        Some(Instruction::SkipNeImm { x, imm })
    } else if a == 5 && d == 0 {
        Some(Instruction::SkipEqReg { x, y })
    } else if a == 6 {
        Some(Instruction::SetImm { x, imm })
    } else if a == 7 {
        Some(Instruction::AddImm { x, imm })
    } else if a == 8 && d == 0 {
        Some(Instruction::Copy { x, y })
    } else if a == 8 && d == 1 {
        Some(Instruction::Or { x, y })
    } else if a == 8 && d == 2 {
        Some(Instruction::And { x, y })
    } else if a == 8 && d == 3 {
        Some(Instruction::Xor { x, y })
    } else if a == 8 && d == 4 {
        Some(Instruction::AddReg { x, y })
    } else if a == 8 && d == 5 {
        Some(Instruction::Sub { x, y })
    } else if a == 8 && d == 6 {
        Some(Instruction::ShiftRight { x })
    } else if a == 8 && d == 7 {
        Some(Instruction::SubRev { x, y })
    } else if a == 8 && d == 0xE {
        Some(Instruction::ShiftLeft { x })
    } else if a == 9 && d == 0 {
        Some(Instruction::SkipNeReg { x, y })
    } else if a == 0xA {
        Some(Instruction::SetIndex { addr })
    } else if a == 0xB {
        Some(Instruction::JumpOffset { addr })
    } else if a == 0xC {
        Some(Instruction::Random { x, imm })
    } else if a == 0xD {
        Some(Instruction::Draw { x, y, rows: d as u8 })
    } else if a == 0xE && imm == 0x9E {
        Some(Instruction::SkipKeyPressed { x })
    } else if a == 0xE && imm == 0xA1 {
        Some(Instruction::SkipKeyReleased { x })
    } else if a == 0xF && imm == 0x07 {
        Some(Instruction::GetDelay { x })
    } else if a == 0xF && imm == 0x0A {
        Some(Instruction::WaitKey { x })
    } else if a == 0xF && imm == 0x15 {
        Some(Instruction::SetDelay { x })
    } else if a == 0xF && imm == 0x18 {
        Some(Instruction::SetSound { x })
    } else if a == 0xF && imm == 0x1E {
        Some(Instruction::AddIndex { x })
    } else if a == 0xF && imm == 0x29 {
        Some(Instruction::FontGlyph { x })
    } else if a == 0xF && imm == 0x33 {
        Some(Instruction::StoreBcd { x })
    } else if a == 0xF && imm == 0x55 {
        Some(Instruction::StoreRegs { x })
    } else if a == 0xF && imm == 0x65 {
        Some(Instruction::LoadRegs { x })
    } else {
        None
    }
}

/// Every field of an instruction word stays within its width.
pub proof fn lemma_fields_in_range(op: u16)
    ensures
        nibble1(op) < 16,
        nibble2(op) < 16,
        nibble3(op) < 16,
        nibble4(op) < 16,
        addr_of(op) < 4096,
{
    assert(((op >> 12u16) & 0xFu16) < 16) by (bit_vector);
    assert(((op >> 8u16) & 0xFu16) < 16) by (bit_vector);
    assert(((op >> 4u16) & 0xFu16) < 16) by (bit_vector);
    assert((op & 0xFu16) < 16) by (bit_vector);
    assert((op & 0xFFFu16) < 4096) by (bit_vector);
}

/// Splits an instruction word into its nibbles and immediates and tells which
/// instruction it is, or `None` where the word has no defined meaning.
pub fn decode(op: u16) -> (r: Option<Instruction>)
    ensures
        r == decode_word(op),
        r matches Some(ins) ==> ins.wf(),
{
    proof {
        lemma_fields_in_range(op);
    }
    let a = (op >> 12u16) & 0xFu16;
    let b = (op >> 8u16) & 0xFu16;
    let c = (op >> 4u16) & 0xFu16;
    let d = op & 0xFu16;
    let x = b as u8;
    let y = c as u8;
    let addr = op & 0xFFFu16;
    let imm = (op & 0xFFu16) as u8;
    if op == 0x0000 {
        Some(Instruction::Nop)
    } else if op == 0x00E0 {
        Some(Instruction::ClearScreen)
    } else if op == 0x00EE {
        Some(Instruction::Return)
    } else if a == 1 {
        Some(Instruction::Jump { addr })
    } else if a == 2 {
        Some(Instruction::Call { addr })
    } else if a == 3 {
        Some(Instruction::SkipEqImm { x, imm })
    } else if a == 4 {
        Some(Instruction::SkipNeImm { x, imm })
    } else if a == 5 && d == 0 {
        Some(Instruction::SkipEqReg { x, y })
    } else if a == 6 {
        Some(Instruction::SetImm { x, imm })
    } else if a == 7 {
        Some(Instruction::AddImm { x, imm })
    } else if a == 8 && d == 0 {
        Some(Instruction::Copy { x, y })
    } else if a == 8 && d == 1 {
        Some(Instruction::Or { x, y })
    } else if a == 8 && d == 2 {
        Some(Instruction::And { x, y })
    } else if a == 8 && d == 3 {
        Some(Instruction::Xor { x, y })
    } else if a == 8 && d == 4 {
        Some(Instruction::AddReg { x, y })
    } else if a == 8 && d == 5 {
        Some(Instruction::Sub { x, y })
    } else if a == 8 && d == 6 {
        Some(Instruction::ShiftRight { x })
    } else if a == 8 && d == 7 {
        Some(Instruction::SubRev { x, y })
    } else if a == 8 && d == 0xE {
        Some(Instruction::ShiftLeft { x })
    } else if a == 9 && d == 0 {
        Some(Instruction::SkipNeReg { x, y })
    } else if a == 0xA {
        Some(Instruction::SetIndex { addr })
    } else if a == 0xB {
        Some(Instruction::JumpOffset { addr })
    } else if a == 0xC {
        Some(Instruction::Random { x, imm })
    } else if a == 0xD {
        Some(Instruction::Draw { x, y, rows: d as u8 })
    } else if a == 0xE && imm == 0x9E {
        Some(Instruction::SkipKeyPressed { x })
    } else if a == 0xE && imm == 0xA1 {
        Some(Instruction::SkipKeyReleased { x })
    } else if a == 0xF && imm == 0x07 {
        Some(Instruction::GetDelay { x })
    } else if a == 0xF && imm == 0x0A {
        Some(Instruction::WaitKey { x })
    } else if a == 0xF && imm == 0x15 {
        Some(Instruction::SetDelay { x })
    } else if a == 0xF && imm == 0x18 {
        Some(Instruction::SetSound { x })
    } else if a == 0xF && imm == 0x1E {
        Some(Instruction::AddIndex { x })
    } else if a == 0xF && imm == 0x29 {
        Some(Instruction::FontGlyph { x })
    } else if a == 0xF && imm == 0x33 {
        Some(Instruction::StoreBcd { x })
    } else if a == 0xF && imm == 0x55 {
        Some(Instruction::StoreRegs { x })
    } else if a == 0xF && imm == 0x65 {
        Some(Instruction::LoadRegs { x })
    } else {
        None
    }
}

} // verus!
