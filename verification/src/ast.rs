//! The instruction forms of a DCPU-16 assembly program and their operand
//! encodings.
//!
//! A program is an ordered `Vec<Instruction>`; its order fixes the layout of
//! the generated words and therefore every label address.  Each operand form
//! encodes to a field code of at most six bits plus, for some forms, one
//! trailing literal word that follows the packed instruction word.

use vstd::prelude::*;
use crate::error::GenerationError;

verus! {

/// One instruction of the program.
#[derive(Debug, PartialEq, Clone)]
pub enum Instruction {
    /// A two-operand instruction: operation, destination (`b`), value (`a`).
    Basic(BasicOperation, Destination, Value),
    /// A one-operand instruction: operation, value (`a`).
    Special(SpecialOperation, Value),
    /// A label bound to the current output position.
    Label(String),
    /// Raw data embedded in the program.
    Data(Vec<DatData>),
}

/// The destination operand (`b` position) of a basic instruction.
///
/// Popping a value is not a destination; it is absent here by construction.
#[derive(Debug, PartialEq, Clone)]
pub enum Destination {
    Register(Register),
    Indirection(Indirection),
    /// The top of the stack, decrementing `SP` as a side effect.
    Push,
}

/// The value operand (`a` position) of an instruction.
///
/// Pushing a value is not a source; it is absent here by construction.
#[derive(Debug, PartialEq, Clone)]
pub enum Value {
    Literal(Literal),
    Indirection(Indirection),
    Register(Register),
    /// The top value on the stack, incrementing `SP` as a side effect.
    Pop,
}

/// An indirect memory access.
#[derive(Debug, PartialEq, Clone)]
pub enum Indirection {
    /// The memory word a register points to, i.e. `[a]`.
    Register(Register),
    /// The memory word a register plus an offset points to, i.e. `[a + 2]`.
    RegisterPlusLiteral(Register, Literal),
    /// The memory word an absolute address points to, i.e. `[0x93f]`.
    Literal(Literal),
}

/// One datum of a data block.
#[derive(Debug, PartialEq, Clone)]
pub enum DatData {
    /// A label bound to the current output position, exactly as a top-level
    /// label definition would be.
    Label(String),
    /// One raw word.
    Number(u16),
    /// A string: one word per character, the code point kept to 16 bits.
    String(String),
}

/// A literal word: either a resolved number or a symbolic label reference
/// whose address is patched in once the whole sequence has been scanned.
#[derive(Debug, PartialEq, Clone)]
pub enum Literal {
    Label(String),
    Number(u16),
}

/// A machine register.
#[derive(Debug, PartialEq, Eq, Structural, Clone, Copy)]
pub enum Register {
    A,
    B,
    C,
    X,
    Y,
    Z,
    I,
    J,
    /// The program counter.
    PC,
    /// The stack pointer.
    SP,
    /// The overflow (excess) register.
    EX,
}

/// The field code of a register read or written directly.
pub open spec fn register_code(reg: Register) -> u16 {
    match reg {
        Register::A => 0x0,
        Register::B => 0x1,
        Register::C => 0x2,
        Register::X => 0x3,
        Register::Y => 0x4,
        Register::Z => 0x5,
        Register::I => 0x6,
        Register::J => 0x7,
        Register::PC => 0x1c,
        Register::SP => 0x1b,
        Register::EX => 0x1d,
    }
}

impl Register {
    /// The fixed field code of this register in direct (non-indirect) use.
    pub fn encode(self) -> (code: u16)
        ensures
            code == register_code(self),
    {
        match self {
            Register::A => 0x0,
            Register::B => 0x1,
            Register::C => 0x2,
            Register::X => 0x3,
            Register::Y => 0x4,
            Register::Z => 0x5,
            Register::I => 0x6,
            Register::J => 0x7,
            Register::PC => 0x1c,
            Register::SP => 0x1b,
            Register::EX => 0x1d,
        }
    }
}

/// What encoding one indirection yields: its field code and, for the offset
/// and absolute forms, the trailing literal word; or the register that makes
/// it illegal.
pub open spec fn indirection_encoding(ind: Indirection) -> Result<
    (u16, Option<Literal>),
    GenerationError,
> {
    match ind {
        Indirection::Literal(lit) => Ok((0x1e, Some(lit))),
        Indirection::Register(reg) => match reg {
            Register::A => Ok((0x8, None)),
            Register::B => Ok((0x9, None)),
            Register::C => Ok((0xa, None)),
            Register::X => Ok((0xb, None)),
            Register::Y => Ok((0xc, None)),
            Register::Z => Ok((0xd, None)),
            Register::I => Ok((0xe, None)),
            Register::J => Ok((0xf, None)),
            Register::SP => Ok((0x19, None)),
            Register::PC => Err(GenerationError::IllegalIndirection(reg)),
            Register::EX => Err(GenerationError::IllegalIndirection(reg)),
        },
        Indirection::RegisterPlusLiteral(reg, lit) => match reg {
            Register::A => Ok((0x10, Some(lit))),
            Register::B => Ok((0x11, Some(lit))),
            Register::C => Ok((0x12, Some(lit))),
            Register::X => Ok((0x13, Some(lit))),
            Register::Y => Ok((0x14, Some(lit))),
            Register::Z => Ok((0x15, Some(lit))),
            Register::I => Ok((0x16, Some(lit))),
            Register::J => Ok((0x17, Some(lit))),
            Register::SP => Ok((0x1a, Some(lit))),
            Register::PC => Err(GenerationError::IllegalIndirection(reg)),
            Register::EX => Err(GenerationError::IllegalIndirection(reg)),
        },
    }
}

impl Indirection {
    /// The field code of this indirection plus its trailing literal word, or
    /// an error for indirection through the program counter or the overflow
    /// register, which the machine has no encoding for.
    pub fn encode(self) -> (r: Result<(u16, Option<Literal>), GenerationError>)
        ensures
            r == indirection_encoding(self),
    {
        match self {
            Indirection::Literal(lit) => Ok((0x1e, Some(lit))),
            Indirection::Register(reg) => match reg {
                Register::A => Ok((0x8, None)),
                Register::B => Ok((0x9, None)),
                Register::C => Ok((0xa, None)),
                Register::X => Ok((0xb, None)),
                Register::Y => Ok((0xc, None)),
                Register::Z => Ok((0xd, None)),
                Register::I => Ok((0xe, None)),
                Register::J => Ok((0xf, None)),
                Register::SP => Ok((0x19, None)),
                Register::PC => Err(GenerationError::IllegalIndirection(reg)),
                Register::EX => Err(GenerationError::IllegalIndirection(reg)),
            },
            Indirection::RegisterPlusLiteral(reg, lit) => match reg {
                Register::A => Ok((0x10, Some(lit))),
                Register::B => Ok((0x11, Some(lit))),
                Register::C => Ok((0x12, Some(lit))),
                Register::X => Ok((0x13, Some(lit))),
                Register::Y => Ok((0x14, Some(lit))),
                Register::Z => Ok((0x15, Some(lit))),
                Register::I => Ok((0x16, Some(lit))),
                Register::J => Ok((0x17, Some(lit))),
                Register::SP => Ok((0x1a, Some(lit))),
                Register::PC => Err(GenerationError::IllegalIndirection(reg)),
                Register::EX => Err(GenerationError::IllegalIndirection(reg)),
            },
        }
    }
}

/// A numeric value-position literal folds into the field code exactly when it
/// is at most 30 or equals 0xffff; the code is the value plus 0x21 in
/// sixteen-bit wraparound arithmetic, so 0xffff (standing for -1) folds to
/// 0x20.
pub open spec fn folds(n: u16) -> bool {
    n <= 30 || n == 0xffff
}

/// The field code a foldable numeric literal folds to.
pub open spec fn folded_code(n: u16) -> u16 {
    ((n + 0x21) % 0x10000) as u16
}

/// What encoding a value-position literal yields: a folded field code with no
/// trailing word for small numbers and 0xffff, or the fixed code 0x1f plus
/// the literal as a trailing word.
pub open spec fn literal_value_encoding(lit: Literal) -> (u16, Option<Literal>) {
    match lit {
        Literal::Number(n) => if folds(n) {
            (folded_code(n), None)
        } else {
            (0x1f, Some(lit))
        },
        Literal::Label(_) => (0x1f, Some(lit)),
    }
}

/// What encoding one value operand yields, or the register that makes its
/// indirection illegal.
pub open spec fn value_encoding(value: Value) -> Result<(u16, Option<Literal>), GenerationError> {
    match value {
        Value::Pop => Ok((0x18, None)),
        Value::Literal(lit) => Ok(literal_value_encoding(lit)),
        Value::Register(reg) => Ok((register_code(reg), None)),
        Value::Indirection(ind) => indirection_encoding(ind),
    }
}

impl Value {
    /// The field code of this value operand plus its trailing literal word,
    /// or an error for an illegal indirection.
    pub fn encode(self) -> (r: Result<(u16, Option<Literal>), GenerationError>)
        ensures
            r == value_encoding(self),
    {
        match self {
            Value::Pop => Ok((0x18, None)),
            Value::Literal(Literal::Number(num)) if num <= 30 || num == 0xffff => {
                let code = if num == 0xffff {
                    0x20
                } else {
                    num + 0x21
                };
                assert(code == folded_code(num));
                Ok((code, None))
            },
            Value::Literal(lit) => Ok((0x1f, Some(lit))),
            Value::Register(reg) => Ok((reg.encode(), None)),
            Value::Indirection(ind) => ind.encode(),
        }
    }
}

/// What encoding one destination operand yields, or the register that makes
/// its indirection illegal.
pub open spec fn destination_encoding(dest: Destination) -> Result<
    (u16, Option<Literal>),
    GenerationError,
> {
    match dest {
        Destination::Push => Ok((0x18, None)),
        Destination::Indirection(ind) => indirection_encoding(ind),
        Destination::Register(reg) => Ok((register_code(reg), None)),
    }
}

impl Destination {
    /// The field code of this destination operand plus its trailing literal
    /// word, or an error for an illegal indirection.
    pub fn encode(self) -> (r: Result<(u16, Option<Literal>), GenerationError>)
        ensures
            r == destination_encoding(self),
    {
        match self {
            Destination::Push => Ok((0x18, None)),
            Destination::Indirection(ind) => ind.encode(),
            Destination::Register(reg) => Ok((reg.encode(), None)),
        }
    }
}

/// Whether a register belongs to the eight general-purpose ones.
pub open spec fn is_general_register(reg: Register) -> bool {
    register_code(reg) <= 0x7
}

/// The three field codes of every register stand in fixed, disjoint ranges:
/// a general-purpose register's plain-indirect code is its direct code plus
/// 0x8 and its offset-indirect code is its direct code plus 0x10, while the
/// stack pointer uses the reserved codes 0x1b, 0x19 and 0x1a.  Indirection
/// through the program counter or the overflow register, in the plain and in
/// the offset form alike, is rejected with the offending register.
pub proof fn lemma_register_field_codes(reg: Register, offset: Literal)
    ensures
        is_general_register(reg) ==> indirection_encoding(Indirection::Register(reg)) == Ok::<
            _,
            GenerationError,
        >(((register_code(reg) + 0x8) as u16, None::<Literal>)),
        is_general_register(reg) ==> indirection_encoding(
            Indirection::RegisterPlusLiteral(reg, offset),
        ) == Ok::<_, GenerationError>(((register_code(reg) + 0x10) as u16, Some(offset))),
        reg == Register::SP ==> indirection_encoding(Indirection::Register(reg)) == Ok::<
            _,
            GenerationError,
        >((0x19 as u16, None::<Literal>)),
        reg == Register::SP ==> indirection_encoding(Indirection::RegisterPlusLiteral(reg, offset))
            == Ok::<_, GenerationError>((0x1a as u16, Some(offset))),
        reg == Register::PC || reg == Register::EX ==> indirection_encoding(
            Indirection::Register(reg),
        ) == Err::<(u16, Option<Literal>), _>(GenerationError::IllegalIndirection(reg)),
        reg == Register::PC || reg == Register::EX ==> indirection_encoding(
            Indirection::RegisterPlusLiteral(reg, offset),
        ) == Err::<(u16, Option<Literal>), _>(GenerationError::IllegalIndirection(reg)),
{
}

/// A value-position literal folds into the field code, with no trailing
/// word, exactly for the numbers 0 through 30 and for 0xffff, whose folded
/// code 0x20 is what sixteen-bit wraparound gives the value -1; every other
/// number, and every label reference, takes the fixed code 0x1f plus a
/// trailing literal word.
pub proof fn lemma_literal_folding(lit: Literal)
    ensures
        match lit {
            Literal::Number(n) => if n <= 30 || n == 0xffff {
                value_encoding(Value::Literal(lit)) == Ok::<_, GenerationError>(
                    (folded_code(n), None::<Literal>),
                ) && folded_code(n) == if n == 0xffff {
                    0x20 as u16
                } else {
                    (n + 0x21) as u16
                }
            } else {
                value_encoding(Value::Literal(lit)) == Ok::<_, GenerationError>(
                    (0x1f as u16, Some(lit)),
                )
            },
            Literal::Label(_) => value_encoding(Value::Literal(lit)) == Ok::<_, GenerationError>(
                (0x1f as u16, Some(lit)),
            ),
        },
{
}

/// The set of basic (two-operand) operations.
#[derive(Copy, Clone, Debug, PartialEq, Eq, Structural)]
pub enum BasicOperation {
    SET,
    ADD,
    SUB,
    MUL,
    MLI,
    DIV,
    DVI,
    MOD,
    MDI,
    AND,
    BOR,
    XOR,
    SHR,
    ASR,
    SHL,
    IFB,
    IFC,
    IFE,
    IFN,
    IFG,
    IFA,
    IFL,
    IFU,
    ADX,
    SBX,
    STI,
    STD,
}

/// The operation code of a basic operation, the low five bits of its
/// instruction word.
pub open spec fn basic_opcode(op: BasicOperation) -> u16 {
    match op {
        BasicOperation::SET => 0x01,
        BasicOperation::ADD => 0x02,
        BasicOperation::SUB => 0x03,
        BasicOperation::MUL => 0x04,
        BasicOperation::MLI => 0x05,
        BasicOperation::DIV => 0x06,
        BasicOperation::DVI => 0x07,
        BasicOperation::MOD => 0x08,
        BasicOperation::MDI => 0x09,
        BasicOperation::AND => 0x0a,
        BasicOperation::BOR => 0x0b,
        BasicOperation::XOR => 0x0c,
        BasicOperation::SHR => 0x0d,
        BasicOperation::ASR => 0x0e,
        BasicOperation::SHL => 0x0f,
        BasicOperation::IFB => 0x10,
        BasicOperation::IFC => 0x11,
        BasicOperation::IFE => 0x12,
        BasicOperation::IFN => 0x13,
        BasicOperation::IFG => 0x14,
        BasicOperation::IFA => 0x15,
        BasicOperation::IFL => 0x16,
        BasicOperation::IFU => 0x17,
        BasicOperation::ADX => 0x1a,
        BasicOperation::SBX => 0x1b,
        BasicOperation::STI => 0x1e,
        BasicOperation::STD => 0x1f,
    }
}

impl BasicOperation {
    /// The fixed operation code of this basic operation.
    pub fn encode(self) -> (code: u16)
        ensures
            code == basic_opcode(self),
    {
        match self {
            BasicOperation::SET => 0x01,
            BasicOperation::ADD => 0x02,
            BasicOperation::SUB => 0x03,
            BasicOperation::MUL => 0x04,
            BasicOperation::MLI => 0x05,
            BasicOperation::DIV => 0x06,
            BasicOperation::DVI => 0x07,
            BasicOperation::MOD => 0x08,
            BasicOperation::MDI => 0x09,
            BasicOperation::AND => 0x0a,
            BasicOperation::BOR => 0x0b,
            BasicOperation::XOR => 0x0c,
            BasicOperation::SHR => 0x0d,
            BasicOperation::ASR => 0x0e,
            BasicOperation::SHL => 0x0f,
            BasicOperation::IFB => 0x10,
            BasicOperation::IFC => 0x11,
            BasicOperation::IFE => 0x12,
            BasicOperation::IFN => 0x13,
            BasicOperation::IFG => 0x14,
            BasicOperation::IFA => 0x15,
            BasicOperation::IFL => 0x16,
            BasicOperation::IFU => 0x17,
            BasicOperation::ADX => 0x1a,
            BasicOperation::SBX => 0x1b,
            BasicOperation::STI => 0x1e,
            BasicOperation::STD => 0x1f,
        }
    }
}

/// The set of special (one-operand) operations.
#[derive(Copy, Clone, Debug, PartialEq, Eq, Structural)]
pub enum SpecialOperation {
    JSR,
    INT,
    IAG,
    IAS,
    RFI,
    IAQ,
    HWN,
    HWQ,
    HWI,
}

/// The operation code of a special operation, placed in the middle field of
/// its instruction word.
pub open spec fn special_opcode(op: SpecialOperation) -> u16 {
    match op {
        SpecialOperation::JSR => 0x01,
        SpecialOperation::INT => 0x08,
        SpecialOperation::IAG => 0x09,
        SpecialOperation::IAS => 0x0a,
        SpecialOperation::RFI => 0x0b,
        SpecialOperation::IAQ => 0x0c,
        SpecialOperation::HWN => 0x10,
        SpecialOperation::HWQ => 0x11,
        SpecialOperation::HWI => 0x12,
    }
}

impl SpecialOperation {
    /// The fixed operation code of this special operation.
    pub fn encode(self) -> (code: u16)
        ensures
            code == special_opcode(self),
    {
        match self {
            SpecialOperation::JSR => 0x01,
            SpecialOperation::INT => 0x08,
            SpecialOperation::IAG => 0x09,
            SpecialOperation::IAS => 0x0a,
            SpecialOperation::RFI => 0x0b,
            SpecialOperation::IAQ => 0x0c,
            SpecialOperation::HWN => 0x10,
            SpecialOperation::HWQ => 0x11,
            SpecialOperation::HWI => 0x12,
        }
    }
}

} // verus!
