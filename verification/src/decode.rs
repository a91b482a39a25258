use vstd::prelude::*;

verus! {

/// The CHIP-8 operations, one per opcode template.
///
/// Each variant is named for what the operation does; the comment gives the
/// customary four-nibble template, where `x` and `y` are register indices,
/// `kk` an immediate byte, `nnn` a twelve-bit address and `n` a four-bit
/// count.
#[derive(Clone, Copy, PartialEq, Eq, Structural, Debug)]
pub enum Op {
    /// 00E0: turn every display cell off.
    ClearDisplay,
    /// 00EE: return from a subroutine by popping the call stack.
    Return,
    /// 1nnn: jump to the address.
    Jump,
    /// 2nnn: push the program counter and jump to the address.
    Call,
    /// 3xkk: skip the next instruction if register x equals the byte.
    SkipEqImm,
    /// 4xkk: skip the next instruction if register x differs from the byte.
    SkipNeImm,
    /// 5xy0: skip the next instruction if registers x and y are equal.
    SkipEqReg,
    /// 6xkk: load the byte into register x.
    LoadImm,
    /// 7xkk: add the byte to register x, wrapping, with no carry flag.
    AddImm,
    /// 8xy0: copy register y into register x.
    Move,
    /// 8xy1: bitwise or of registers x and y into register x.
    Or,
    /// 8xy2: bitwise and of registers x and y into register x.
    And,
    /// 8xy3: bitwise exclusive or of registers x and y into register x.
    Xor,
    /// 8xy4: wrapping add of register y into register x, carry into register 15.
    AddReg,
    /// 8xy5: wrapping subtract of register y from register x, no-borrow flag
    /// into register 15.
    SubReg,
    /// 8xy6: shift register x right by one, shifted-out bit into register 15.
    ShiftRight,
    /// 8xy7: wrapping subtract of register x from register y into register x,
    /// no-borrow flag into register 15.
    SubFrom,
    /// 8xyE: shift register x left by one, shifted-out bit into register 15.
    ShiftLeft,
    /// 9xy0: skip the next instruction if registers x and y differ.
    SkipNeReg,
    /// Annn: load the address into the address register.
    LoadAddress,
    /// Bnnn: jump to the address plus register 0.
    JumpPlus,
    /// Cxkk: load a random byte, masked by the byte, into register x.
    Random,
    /// Dxyn: draw the n-row sprite at the address register to (x, y).
    Draw,
    /// Ex9E: skip the next instruction if the key named by register x is down.
    SkipKeyPressed,
    /// ExA1: skip the next instruction if the key named by register x is up.
    SkipKeyNotPressed,
    /// Fx07: read the delay timer into register x.
    ReadDelay,
    /// Fx0A: wait for a key by refetching until one is down, then store the
    /// lowest pressed key index into register x.
    WaitKey,
    /// Fx15: load register x into the delay timer.
    SetDelay,
    /// Fx18: load register x into the sound timer.
    SetSound,
    /// Fx1E: add register x to the address register, wrapping.
    AddAddress,
    /// Fx29: point the address register at the font glyph for register x.
    FontAddress,
    /// Fx33: store the decimal digits of register x at the address register.
    StoreBcd,
    /// Fx55: store registers 0 through x to memory at the address register.
    StoreRegisters,
    /// Fx65: load registers 0 through x from memory at the address register.
    LoadRegisters,
}

/// One row of the dispatch table. An opcode matches the row when its
/// literal nibbles, selected by `mask`, equal `value`; the wildcard nibbles
/// are the positions `mask` clears.
#[derive(Clone, Copy, PartialEq, Eq, Structural, Debug)]
pub struct OpcodeTemplate {
    /// Keeps exactly the literal nibbles of an opcode.
    pub mask: u16,
    /// The literal nibbles the opcode must show there.
    pub value: u16,
    /// The operation a match dispatches to.
    pub op: Op,
}

/// The dispatch table, in its fixed priority order: decoding checks rows
/// first to last and the first match wins. The rows are pairwise disjoint,
/// but the order is still part of the interface.
pub open spec fn spec_templates() -> Seq<OpcodeTemplate> {
    seq![
        OpcodeTemplate { mask: 0xFFFF, value: 0x00E0, op: Op::ClearDisplay },
        OpcodeTemplate { mask: 0xFFFF, value: 0x00EE, op: Op::Return },
        OpcodeTemplate { mask: 0xF000, value: 0x1000, op: Op::Jump },
        OpcodeTemplate { mask: 0xF000, value: 0x2000, op: Op::Call },
        OpcodeTemplate { mask: 0xF000, value: 0x3000, op: Op::SkipEqImm },
        OpcodeTemplate { mask: 0xF000, value: 0x4000, op: Op::SkipNeImm },
        OpcodeTemplate { mask: 0xF00F, value: 0x5000, op: Op::SkipEqReg },
        OpcodeTemplate { mask: 0xF000, value: 0x6000, op: Op::LoadImm },
        OpcodeTemplate { mask: 0xF000, value: 0x7000, op: Op::AddImm },
        OpcodeTemplate { mask: 0xF00F, value: 0x8000, op: Op::Move },
        OpcodeTemplate { mask: 0xF00F, value: 0x8001, op: Op::Or },
        OpcodeTemplate { mask: 0xF00F, value: 0x8002, op: Op::And },
        OpcodeTemplate { mask: 0xF00F, value: 0x8003, op: Op::Xor },
        OpcodeTemplate { mask: 0xF00F, value: 0x8004, op: Op::AddReg },
        OpcodeTemplate { mask: 0xF00F, value: 0x8005, op: Op::SubReg },
        OpcodeTemplate { mask: 0xF00F, value: 0x8006, op: Op::ShiftRight },
        OpcodeTemplate { mask: 0xF00F, value: 0x8007, op: Op::SubFrom },
        OpcodeTemplate { mask: 0xF00F, value: 0x800E, op: Op::ShiftLeft },
        OpcodeTemplate { mask: 0xF00F, value: 0x9000, op: Op::SkipNeReg },
        OpcodeTemplate { mask: 0xF000, value: 0xA000, op: Op::LoadAddress },
        OpcodeTemplate { mask: 0xF000, value: 0xB000, op: Op::JumpPlus },
        OpcodeTemplate { mask: 0xF000, value: 0xC000, op: Op::Random },
        OpcodeTemplate { mask: 0xF000, value: 0xD000, op: Op::Draw },
        OpcodeTemplate { mask: 0xF0FF, value: 0xE09E, op: Op::SkipKeyPressed },
        OpcodeTemplate { mask: 0xF0FF, value: 0xE0A1, op: Op::SkipKeyNotPressed },
        OpcodeTemplate { mask: 0xF0FF, value: 0xF007, op: Op::ReadDelay },
        OpcodeTemplate { mask: 0xF0FF, value: 0xF00A, op: Op::WaitKey },
        OpcodeTemplate { mask: 0xF0FF, value: 0xF015, op: Op::SetDelay },
        OpcodeTemplate { mask: 0xF0FF, value: 0xF018, op: Op::SetSound },
        OpcodeTemplate { mask: 0xF0FF, value: 0xF01E, op: Op::AddAddress },
        OpcodeTemplate { mask: 0xF0FF, value: 0xF029, op: Op::FontAddress },
        OpcodeTemplate { mask: 0xF0FF, value: 0xF033, op: Op::StoreBcd },
        OpcodeTemplate { mask: 0xF0FF, value: 0xF055, op: Op::StoreRegisters },
        OpcodeTemplate { mask: 0xF0FF, value: 0xF065, op: Op::LoadRegisters },
    ]
}

/// The first row of `rows` the opcode matches, if any.
pub open spec fn spec_match_from(rows: Seq<OpcodeTemplate>, opcode: u16) -> Option<Op>
    decreases rows.len(),
{
    if rows.len() == 0 {
        None
    } else if opcode & rows[0].mask == rows[0].value {
        Some(rows[0].op)
    } else {
        spec_match_from(rows.skip(1), opcode)
    }
}

/// What the opcode decodes to: the first matching table row, or nothing.
/// An opcode that matches no row — 0x0000 among them — is not an
/// instruction, and executing it is a fatal decode error.
pub open spec fn spec_decode(opcode: u16) -> Option<Op> {
    spec_match_from(spec_templates(), opcode)
}

/// The dispatch table as a vector, for the decoder's scan.
pub fn templates() -> (t: Vec<OpcodeTemplate>)
    ensures
        t@ == spec_templates(),
{
    let t: Vec<OpcodeTemplate> = vec![
        OpcodeTemplate { mask: 0xFFFF, value: 0x00E0, op: Op::ClearDisplay },
        OpcodeTemplate { mask: 0xFFFF, value: 0x00EE, op: Op::Return },
        OpcodeTemplate { mask: 0xF000, value: 0x1000, op: Op::Jump },
        OpcodeTemplate { mask: 0xF000, value: 0x2000, op: Op::Call },
        OpcodeTemplate { mask: 0xF000, value: 0x3000, op: Op::SkipEqImm },
        OpcodeTemplate { mask: 0xF000, value: 0x4000, op: Op::SkipNeImm },
        OpcodeTemplate { mask: 0xF00F, value: 0x5000, op: Op::SkipEqReg },
        OpcodeTemplate { mask: 0xF000, value: 0x6000, op: Op::LoadImm },
        OpcodeTemplate { mask: 0xF000, value: 0x7000, op: Op::AddImm },
        OpcodeTemplate { mask: 0xF00F, value: 0x8000, op: Op::Move },
        OpcodeTemplate { mask: 0xF00F, value: 0x8001, op: Op::Or },
        OpcodeTemplate { mask: 0xF00F, value: 0x8002, op: Op::And },
        OpcodeTemplate { mask: 0xF00F, value: 0x8003, op: Op::Xor },
        OpcodeTemplate { mask: 0xF00F, value: 0x8004, op: Op::AddReg },
        OpcodeTemplate { mask: 0xF00F, value: 0x8005, op: Op::SubReg },
        OpcodeTemplate { mask: 0xF00F, value: 0x8006, op: Op::ShiftRight },
        OpcodeTemplate { mask: 0xF00F, value: 0x8007, op: Op::SubFrom },
        OpcodeTemplate { mask: 0xF00F, value: 0x800E, op: Op::ShiftLeft },
        OpcodeTemplate { mask: 0xF00F, value: 0x9000, op: Op::SkipNeReg },
        OpcodeTemplate { mask: 0xF000, value: 0xA000, op: Op::LoadAddress },
        OpcodeTemplate { mask: 0xF000, value: 0xB000, op: Op::JumpPlus },
        OpcodeTemplate { mask: 0xF000, value: 0xC000, op: Op::Random },
        OpcodeTemplate { mask: 0xF000, value: 0xD000, op: Op::Draw },
        OpcodeTemplate { mask: 0xF0FF, value: 0xE09E, op: Op::SkipKeyPressed },
        OpcodeTemplate { mask: 0xF0FF, value: 0xE0A1, op: Op::SkipKeyNotPressed },
        OpcodeTemplate { mask: 0xF0FF, value: 0xF007, op: Op::ReadDelay },
        OpcodeTemplate { mask: 0xF0FF, value: 0xF00A, op: Op::WaitKey },
        OpcodeTemplate { mask: 0xF0FF, value: 0xF015, op: Op::SetDelay },
        OpcodeTemplate { mask: 0xF0FF, value: 0xF018, op: Op::SetSound },
        OpcodeTemplate { mask: 0xF0FF, value: 0xF01E, op: Op::AddAddress },
        OpcodeTemplate { mask: 0xF0FF, value: 0xF029, op: Op::FontAddress },
        OpcodeTemplate { mask: 0xF0FF, value: 0xF033, op: Op::StoreBcd },
        OpcodeTemplate { mask: 0xF0FF, value: 0xF055, op: Op::StoreRegisters },
        OpcodeTemplate { mask: 0xF0FF, value: 0xF065, op: Op::LoadRegisters },
    ];
    proof {
        assert(t@ =~= spec_templates());
    }
    t
}

/// Decodes an opcode by scanning the table in priority order; the first
/// matching row wins.
pub fn decode(opcode: u16) -> (r: Option<Op>)
    ensures
        r == spec_decode(opcode),
{
    let rows = templates();
    proof {
        assert(rows@.skip(0) =~= rows@);
    }
    let mut i: usize = 0;
    while i < rows.len()
        invariant
            rows@ == spec_templates(),
            0 <= i <= rows@.len(),
            spec_match_from(rows@.skip(i as int), opcode) == spec_decode(opcode),
        decreases rows@.len() - i,
    {
        let row = rows[i];
        if opcode & row.mask == row.value {
            return Some(row.op);
        }
        proof {
            assert(rows@.skip(i as int).skip(1) =~= rows@.skip(i as int + 1));
        }
        i = i + 1;
    }
    proof {
        assert(rows@.skip(rows@.len() as int).len() == 0);
    }
    None
}

/// Register index x: bits 8 through 11 of the opcode.
pub open spec fn spec_x(opcode: u16) -> u16 {
    (opcode >> 8) & 0xF
}

/// Register index y: bits 4 through 7 of the opcode.
pub open spec fn spec_y(opcode: u16) -> u16 {
    (opcode >> 4) & 0xF
}

/// Immediate byte kk: the low eight bits of the opcode.
pub open spec fn spec_kk(opcode: u16) -> u8 {
    (opcode & 0xFF) as u8
}

/// Address nnn: the low twelve bits of the opcode.
pub open spec fn spec_nnn(opcode: u16) -> u16 {
    opcode & 0x0FFF
}

/// Final nibble n: the low four bits of the opcode.
pub open spec fn spec_n(opcode: u16) -> u16 {
    opcode & 0xF
}

/// Extracts register index x.
pub fn op_x(opcode: u16) -> (r: u16)
    ensures
        r == spec_x(opcode),
        r < 16,
{
    proof {
        assert((opcode >> 8) & 0xF < 16) by (bit_vector);
    }
    (opcode >> 8) & 0xF
}

/// Extracts register index y.
pub fn op_y(opcode: u16) -> (r: u16)
    ensures
        r == spec_y(opcode),
        r < 16,
{
    proof {
        assert((opcode >> 4) & 0xF < 16) by (bit_vector);
    }
    (opcode >> 4) & 0xF
}

/// Extracts the immediate byte kk.
pub fn op_kk(opcode: u16) -> (r: u8)
    ensures
        r == spec_kk(opcode),
{
    proof {
        assert(opcode & 0xFF < 256) by (bit_vector);
    }
    (opcode & 0xFF) as u8
}

/// Extracts the address nnn.
pub fn op_nnn(opcode: u16) -> (r: u16)
    ensures
        r == spec_nnn(opcode),
        r < 0x1000,
{
    proof {
        assert(opcode & 0x0FFF < 0x1000) by (bit_vector);
    }
    opcode & 0x0FFF
}

/// Extracts the final nibble n.
pub fn op_n(opcode: u16) -> (r: u16)
    ensures
        r == spec_n(opcode),
        r < 16,
{
    proof {
        assert(opcode & 0xF < 16) by (bit_vector);
    }
    opcode & 0xF
}

} // verus!
