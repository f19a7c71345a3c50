use vstd::prelude::*;
use crate::error::Chip8Error;

verus! {

/// Index of a register, `0..16`.
pub type Register = usize;

/// The instructions of the machine. `X` and `Y` name registers, `NNN` is a
/// twelve-bit address, `NN` a byte and `N` a nibble.
#[derive(Debug, Clone, Copy, PartialEq, Eq, Structural)]
pub enum Instruction {
    /// `00E0`
    ClearDisplay,
    /// `00EE`
    Return,
    /// `1NNN`
    Jump(u16),
    /// `2NNN`
    Call(u16),
    /// `3XNN`
    SkipEqual(Register, u8),
    /// `4XNN`
    SkipNotEqual(Register, u8),
    /// `5XY0`
    SkipEqualXY(Register, Register),
    /// `6XNN`
    Load(Register, u8),
    /// `7XNN`
    Add(Register, u8),
    /// `8XY0`
    Move(Register, Register),
    /// `8XY1`
    Or(Register, Register),
    /// `8XY2`
    And(Register, Register),
    /// `8XY3`
    Xor(Register, Register),
    /// `8XY4`
    AddXY(Register, Register),
    /// `8XY5`
    SubXY(Register, Register),
    /// `8XY6`
    ShiftRight(Register),
    /// `8XY7`
    SubYX(Register, Register),
    /// `8XYE`
    ShiftLeft(Register),
    /// `9XY0`
    SkipNotEqualXY(Register, Register),
    /// `ANNN`
    LoadI(u16),
    /// `BNNN`
    JumpV0(u16),
    /// `CXNN`
    Random(Register, u8),
    /// `DXYN`
    Draw(Register, Register, u8),
    /// `EX9E`
    SkipKeyPressed(Register),
    /// `EXA1`
    SkipKeyNotPressed(Register),
    /// `FX07`
    LoadDelay(Register),
    /// `FX0A`
    WaitKeyPress(Register),
    /// `FX15`
    SetDelay(Register),
    /// `FX18`
    SetSound(Register),
    /// `FX1E`
    AddI(Register),
    /// `FX29`
    LoadFont(Register),
    /// `FX33`
    StoreBCD(Register),
    /// `FX55`
    StoreRegisters(Register),
    /// `FX65`
    LoadMemory(Register),
}

impl Instruction {
    /// Moves the program counter, the stack or the whole display, or waits for a key.
    pub open spec fn is_control(self) -> bool {
        match self {
            Instruction::ClearDisplay | Instruction::Return | Instruction::Jump(_)
            | Instruction::Call(_) | Instruction::SkipEqual(_, _) | Instruction::SkipNotEqual(_, _)
            | Instruction::SkipEqualXY(_, _) | Instruction::SkipNotEqualXY(_, _)
            | Instruction::JumpV0(_) | Instruction::SkipKeyPressed(_)
            | Instruction::SkipKeyNotPressed(_) | Instruction::WaitKeyPress(_) => true,
            _ => false,
        }
    }

    /// Writes one register and no flag.
    pub open spec fn is_transfer(self) -> bool {
        match self {
            Instruction::Load(_, _) | Instruction::Add(_, _) | Instruction::Move(_, _)
            | Instruction::Or(_, _) | Instruction::And(_, _) | Instruction::Xor(_, _)
            | Instruction::Random(_, _) | Instruction::LoadDelay(_) => true,
            _ => false,
        }
    }

    /// Writes a register and then a flag to `VF`.
    pub open spec fn is_flagged(self) -> bool {
        match self {
            Instruction::AddXY(_, _) | Instruction::SubXY(_, _) | Instruction::ShiftRight(_)
            | Instruction::SubYX(_, _) | Instruction::ShiftLeft(_) => true,
            _ => false,
        }
    }

    /// Works through the index register, or sets a timer.
    pub open spec fn is_memory(self) -> bool {
        !self.is_control() && !self.is_transfer() && !self.is_flagged()
    }

    /// The operands are in the range that an opcode can encode: registers
    /// below sixteen, addresses below 4096, sprite heights below sixteen.
    pub open spec fn wf(self) -> bool {
        match self {
            Instruction::ClearDisplay | Instruction::Return => true,
            Instruction::Jump(nnn) | Instruction::Call(nnn) | Instruction::LoadI(nnn)
            | Instruction::JumpV0(nnn) => nnn < 0x1000,
            Instruction::SkipEqual(x, _) | Instruction::SkipNotEqual(x, _) | Instruction::Load(x, _)
            | Instruction::Add(x, _) | Instruction::Random(x, _) => x < 16,
            Instruction::SkipEqualXY(x, y) | Instruction::Move(x, y) | Instruction::Or(x, y)
            | Instruction::And(x, y) | Instruction::Xor(x, y) | Instruction::AddXY(x, y)
            | Instruction::SubXY(x, y) | Instruction::SubYX(x, y)
            | Instruction::SkipNotEqualXY(x, y) => x < 16 && y < 16,
            Instruction::Draw(x, y, n) => x < 16 && y < 16 && n < 16,
            Instruction::ShiftRight(x) | Instruction::ShiftLeft(x) | Instruction::SkipKeyPressed(x)
            | Instruction::SkipKeyNotPressed(x) | Instruction::LoadDelay(x)
            | Instruction::WaitKeyPress(x) | Instruction::SetDelay(x) | Instruction::SetSound(x)
            | Instruction::AddI(x) | Instruction::LoadFont(x) | Instruction::StoreBCD(x)
            | Instruction::StoreRegisters(x) | Instruction::LoadMemory(x) => x < 16,
        }
    }
}

/// The instruction that an opcode encodes, by its four hexadecimal digits
/// `a x y n`; `None` where the digits match no instruction.
pub open spec fn spec_decode(opcode: u16) -> Option<Instruction> {
    let a = opcode as int / 0x1000;
    let x = ((opcode as int / 0x100) % 0x10) as usize;
    let y = ((opcode as int / 0x10) % 0x10) as usize;
    let n = (opcode as int % 0x10) as u8;
    let nn = (opcode as int % 0x100) as u8;
    let nnn = (opcode as int % 0x1000) as u16;
    if a == 0x0 {
        if opcode == 0x00E0 {
            Some(Instruction::ClearDisplay)
        } else if opcode == 0x00EE {
            Some(Instruction::Return)
        } else {
            None
        }
    } else if a == 0x1 {
        Some(Instruction::Jump(nnn))
    } else if a == 0x2 {
        Some(Instruction::Call(nnn))
    } else if a == 0x3 {
        Some(Instruction::SkipEqual(x, nn))
    } else if a == 0x4 {
        Some(Instruction::SkipNotEqual(x, nn))
    } else if a == 0x5 {
        if n == 0 {
            Some(Instruction::SkipEqualXY(x, y))
        } else {
            None
        }
    } else if a == 0x6 {
        Some(Instruction::Load(x, nn))
    } else if a == 0x7 {
        Some(Instruction::Add(x, nn))
    } else if a == 0x8 {
        if n == 0x0 {
            Some(Instruction::Move(x, y))
        } else if n == 0x1 {
            Some(Instruction::Or(x, y))
        } else if n == 0x2 {
            Some(Instruction::And(x, y))
        } else if n == 0x3 {
            Some(Instruction::Xor(x, y))
        } else if n == 0x4 {
            Some(Instruction::AddXY(x, y))
        } else if n == 0x5 {
            Some(Instruction::SubXY(x, y))
        } else if n == 0x6 {
            Some(Instruction::ShiftRight(x))
        } else if n == 0x7 {
            Some(Instruction::SubYX(x, y))
        } else if n == 0xE {
            Some(Instruction::ShiftLeft(x))
        } else {
            None
        }
    } else if a == 0x9 {
        if n == 0 {
            Some(Instruction::SkipNotEqualXY(x, y))
        } else {
            None
        }
    } else if a == 0xA {
        Some(Instruction::LoadI(nnn))
    } else if a == 0xB {
        Some(Instruction::JumpV0(nnn))
    } else if a == 0xC {
        Some(Instruction::Random(x, nn))
    } else if a == 0xD {
        Some(Instruction::Draw(x, y, n))
    } else if a == 0xE {
        if nn == 0x9E {
            Some(Instruction::SkipKeyPressed(x))
        } else if nn == 0xA1 {
            Some(Instruction::SkipKeyNotPressed(x))
        } else {
            None
        }
    } else {
        if nn == 0x07 {
            Some(Instruction::LoadDelay(x))
        } else if nn == 0x0A {
            Some(Instruction::WaitKeyPress(x))
        } else if nn == 0x15 {
            Some(Instruction::SetDelay(x))
        } else if nn == 0x18 {
            Some(Instruction::SetSound(x))
        } else if nn == 0x1E {
            Some(Instruction::AddI(x))
        } else if nn == 0x29 {
            Some(Instruction::LoadFont(x))
        } else if nn == 0x33 {
            Some(Instruction::StoreBCD(x))
        } else if nn == 0x55 {
            Some(Instruction::StoreRegisters(x))
        } else if nn == 0x65 {
            Some(Instruction::LoadMemory(x))
        } else {
            None
        }
    }
}

/// Every decoded instruction has operands in range.
pub proof fn lemma_decoded_is_wf(opcode: u16)
    ensures
        spec_decode(opcode) matches Some(instruction) ==> instruction.wf(),
{
}

/// The masks and shifts of the decoder pick out the hexadecimal digits of the opcode.
proof fn lemma_opcode_fields(opcode: u16)
    ensures
        ((opcode >> 8) & 0x000F) == (opcode as int / 0x100) % 0x10,
        ((opcode >> 4) & 0x000F) == (opcode as int / 0x10) % 0x10,
        (opcode & 0x000F) == opcode as int % 0x10,
        (opcode & 0x00FF) == opcode as int % 0x100,
        (opcode & 0x0FFF) == opcode as int % 0x1000,
        (opcode & 0xF000) == (opcode as int / 0x1000) * 0x1000,
{
    assert(((opcode >> 8) & 0x000F) == (opcode / 0x100) % 0x10) by (bit_vector);
    assert(((opcode >> 4) & 0x000F) == (opcode / 0x10) % 0x10) by (bit_vector);
    assert((opcode & 0x000F) == opcode % 0x10) by (bit_vector);
    assert((opcode & 0x00FF) == opcode % 0x100) by (bit_vector);
    assert((opcode & 0x0FFF) == opcode % 0x1000) by (bit_vector);
    assert((opcode & 0xF000) == (opcode / 0x1000) * 0x1000) by (bit_vector);
}

/// Decodes an opcode. Succeeds exactly on the opcodes of the instruction set;
/// any other word is refused as `UnimplementedOpcode` carrying the word.
pub fn decode(opcode: u16) -> (res: Result<Instruction, Chip8Error>)
    ensures
        match res {
            Ok(instruction) => spec_decode(opcode) == Some(instruction) && instruction.wf(),
            Err(e) => spec_decode(opcode) is None && e == Chip8Error::UnimplementedOpcode(opcode),
        },
{
    proof {
        lemma_opcode_fields(opcode);
    }
    let x = ((opcode >> 8) & 0x000F) as usize;
    let y = ((opcode >> 4) & 0x000F) as usize;

    let n = (opcode & 0x000F) as u8;
    let nn = (opcode & 0x00FF) as u8;
    let nnn = opcode & 0x0FFF;

    match opcode & 0xF000 {
        0x0000 => match opcode {
            0x00E0 => Ok(Instruction::ClearDisplay),
            0x00EE => Ok(Instruction::Return),
            _ => Err(Chip8Error::UnimplementedOpcode(opcode)),
        },
        0x1000 => Ok(Instruction::Jump(nnn)),
        0x2000 => Ok(Instruction::Call(nnn)),
        0x3000 => Ok(Instruction::SkipEqual(x, nn)),
        0x4000 => Ok(Instruction::SkipNotEqual(x, nn)),
        0x5000 => match n {
            0x0 => Ok(Instruction::SkipEqualXY(x, y)),
            _ => Err(Chip8Error::UnimplementedOpcode(opcode)),
        },
        0x6000 => Ok(Instruction::Load(x, nn)),
        0x7000 => Ok(Instruction::Add(x, nn)),
        0x8000 => match n {
            0x0 => Ok(Instruction::Move(x, y)),
            0x1 => Ok(Instruction::Or(x, y)),
            0x2 => Ok(Instruction::And(x, y)),
            0x3 => Ok(Instruction::Xor(x, y)),
            0x4 => Ok(Instruction::AddXY(x, y)),
            0x5 => Ok(Instruction::SubXY(x, y)),
            0x6 => Ok(Instruction::ShiftRight(x)),
            0x7 => Ok(Instruction::SubYX(x, y)),
            0xE => Ok(Instruction::ShiftLeft(x)),
            _ => Err(Chip8Error::UnimplementedOpcode(opcode)),
        },
        0x9000 => match n {
            0x0 => Ok(Instruction::SkipNotEqualXY(x, y)),
            _ => Err(Chip8Error::UnimplementedOpcode(opcode)),
        },
        0xA000 => Ok(Instruction::LoadI(nnn)),
        0xB000 => Ok(Instruction::JumpV0(nnn)),
        0xC000 => Ok(Instruction::Random(x, nn)),
        0xD000 => Ok(Instruction::Draw(x, y, n)),
        0xE000 => match nn {
            0x9E => Ok(Instruction::SkipKeyPressed(x)),
            0xA1 => Ok(Instruction::SkipKeyNotPressed(x)),
            _ => Err(Chip8Error::UnimplementedOpcode(opcode)),
        },
        0xF000 => match nn {
            0x07 => Ok(Instruction::LoadDelay(x)),
            0x0A => Ok(Instruction::WaitKeyPress(x)),
            0x15 => Ok(Instruction::SetDelay(x)),
            0x18 => Ok(Instruction::SetSound(x)),
            0x1E => Ok(Instruction::AddI(x)),
            0x29 => Ok(Instruction::LoadFont(x)),
            0x33 => Ok(Instruction::StoreBCD(x)),
            0x55 => Ok(Instruction::StoreRegisters(x)),
            0x65 => Ok(Instruction::LoadMemory(x)),
            _ => Err(Chip8Error::UnimplementedOpcode(opcode)),
        },
        _ => Err(Chip8Error::UnimplementedOpcode(opcode)),
    }
}

} // verus!
