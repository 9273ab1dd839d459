use dcpu16_assembler::ast::{BasicOperation, Indirection, Literal, Register, SpecialOperation, Value};
use dcpu16_assembler::ast::Destination;
use dcpu16_assembler::error::GenerationError;

#[test]
fn register_field_code_table() {
    let table = [
        (Register::A, 0x0),
        (Register::B, 0x1),
        (Register::C, 0x2),
        (Register::X, 0x3),
        (Register::Y, 0x4),
        (Register::Z, 0x5),
        (Register::I, 0x6),
        (Register::J, 0x7),
        (Register::PC, 0x1c),
        (Register::SP, 0x1b),
        (Register::EX, 0x1d),
    ];
    for (register, code) in table {
        assert_eq!(register.encode(), code);
    }
}

#[test]
fn register_indirect_field_code_table() {
    let table = [
        (Register::A, 0x8),
        (Register::B, 0x9),
        (Register::C, 0xa),
        (Register::X, 0xb),
        (Register::Y, 0xc),
        (Register::Z, 0xd),
        (Register::I, 0xe),
        (Register::J, 0xf),
        (Register::SP, 0x19),
    ];
    for (register, code) in table {
        assert_eq!(Indirection::Register(register).encode(), Ok((code, None)));
    }
}

#[test]
fn register_offset_indirect_field_code_table() {
    let table = [
        (Register::A, 0x10),
        (Register::B, 0x11),
        (Register::C, 0x12),
        (Register::X, 0x13),
        (Register::Y, 0x14),
        (Register::Z, 0x15),
        (Register::I, 0x16),
        (Register::J, 0x17),
        (Register::SP, 0x1a),
    ];
    for (register, code) in table {
        let offset = Literal::Number(0x2a);
        assert_eq!(
            Indirection::RegisterPlusLiteral(register, offset.clone()).encode(),
            Ok((code, Some(offset)))
        );
    }
}

#[test]
fn pc_and_ex_indirection_is_rejected() {
    for register in [Register::PC, Register::EX] {
        assert_eq!(
            Indirection::Register(register).encode(),
            Err(GenerationError::IllegalIndirection(register))
        );
        assert_eq!(
            Indirection::RegisterPlusLiteral(register, Literal::Number(1)).encode(),
            Err(GenerationError::IllegalIndirection(register))
        );
    }
}

#[test]
fn absolute_indirection_takes_trailing_word() {
    let address = Literal::Number(0x93f);
    assert_eq!(
        Indirection::Literal(address.clone()).encode(),
        Ok((0x1e, Some(address)))
    );
}

#[test]
fn literal_folding_boundaries() {
    // Small numbers and 0xffff fold into the field code with no trailing word.
    assert_eq!(Value::Literal(Literal::Number(0)).encode(), Ok((0x21, None)));
    assert_eq!(Value::Literal(Literal::Number(1)).encode(), Ok((0x22, None)));
    assert_eq!(Value::Literal(Literal::Number(30)).encode(), Ok((0x3f, None)));
    assert_eq!(Value::Literal(Literal::Number(0xffff)).encode(), Ok((0x20, None)));
}

#[test]
fn literal_folding_stops_at_31() {
    for number in [31u16, 32, 0x100, 0x8421, 0xfffe] {
        assert_eq!(
            Value::Literal(Literal::Number(number)).encode(),
            Ok((0x1f, Some(Literal::Number(number))))
        );
    }
}

#[test]
fn label_literal_never_folds() {
    let label = Literal::Label(String::from("loop_begin"));
    assert_eq!(
        Value::Literal(label.clone()).encode(),
        Ok((0x1f, Some(label)))
    );
}

#[test]
fn stack_operand_field_codes() {
    assert_eq!(Value::Pop.encode(), Ok((0x18, None)));
    assert_eq!(Destination::Push.encode(), Ok((0x18, None)));
}

#[test]
fn destination_delegates_to_register_and_indirection() {
    assert_eq!(Destination::Register(Register::J).encode(), Ok((0x7, None)));
    assert_eq!(
        Destination::Indirection(Indirection::Register(Register::B)).encode(),
        Ok((0x9, None))
    );
    assert_eq!(
        Destination::Indirection(Indirection::Register(Register::EX)).encode(),
        Err(GenerationError::IllegalIndirection(Register::EX))
    );
}

#[test]
fn value_delegates_to_register_and_indirection() {
    assert_eq!(Value::Register(Register::SP).encode(), Ok((0x1b, None)));
    assert_eq!(
        Value::Indirection(Indirection::Register(Register::PC)).encode(),
        Err(GenerationError::IllegalIndirection(Register::PC))
    );
}

#[test]
fn basic_operation_opcode_table() {
    let table = [
        (BasicOperation::SET, 0x01),
        (BasicOperation::ADD, 0x02),
        (BasicOperation::SUB, 0x03),
        (BasicOperation::MUL, 0x04),
        (BasicOperation::MLI, 0x05),
        (BasicOperation::DIV, 0x06),
        (BasicOperation::DVI, 0x07),
        (BasicOperation::MOD, 0x08),
        (BasicOperation::MDI, 0x09),
        (BasicOperation::AND, 0x0a),
        (BasicOperation::BOR, 0x0b),
        (BasicOperation::XOR, 0x0c),
        (BasicOperation::SHR, 0x0d),
        (BasicOperation::ASR, 0x0e),
        (BasicOperation::SHL, 0x0f),
        (BasicOperation::IFB, 0x10),
        (BasicOperation::IFC, 0x11),
        (BasicOperation::IFE, 0x12),
        (BasicOperation::IFN, 0x13),
        (BasicOperation::IFG, 0x14),
        (BasicOperation::IFA, 0x15),
        (BasicOperation::IFL, 0x16),
        (BasicOperation::IFU, 0x17),
        (BasicOperation::ADX, 0x1a),
        (BasicOperation::SBX, 0x1b),
        (BasicOperation::STI, 0x1e),
        (BasicOperation::STD, 0x1f),
    ];
    for (operation, opcode) in table {
        assert_eq!(operation.encode(), opcode);
    }
}

#[test]
fn special_operation_opcode_table() {
    let table = [
        (SpecialOperation::JSR, 0x01),
        (SpecialOperation::INT, 0x08),
        (SpecialOperation::IAG, 0x09),
        (SpecialOperation::IAS, 0x0a),
        (SpecialOperation::RFI, 0x0b),
        (SpecialOperation::IAQ, 0x0c),
        (SpecialOperation::HWN, 0x10),
        (SpecialOperation::HWQ, 0x11),
        (SpecialOperation::HWI, 0x12),
    ];
    for (operation, opcode) in table {
        assert_eq!(operation.encode(), opcode);
    }
}
