use dcpu16_assembler::ast::{
    BasicOperation, DatData, Destination, Indirection, Instruction, Literal, Register,
    SpecialOperation, Value,
};
use dcpu16_assembler::code_generator::{generate, word_to_bytes, Generator};
use dcpu16_assembler::error::GenerationError;

#[test]
fn empty_program_generates_nothing() {
    assert_eq!(generate(Vec::new()), Ok(Vec::new()));
}

#[test]
fn basic_instruction_packs_fields() {
    // SET X, 2: the foldable value 2 gives field code 0x23; no trailing word.
    let program = vec![Instruction::Basic(
        BasicOperation::SET,
        Destination::Register(Register::X),
        Value::Literal(Literal::Number(2)),
    )];
    assert_eq!(generate(program), Ok(vec![(0x23 << 10) | (0x3 << 5) | 0x01]));
}

#[test]
fn special_instruction_packs_fields() {
    // JSR 2: value field 0x23, operation code 0x01 in the middle field.
    let program = vec![Instruction::Special(
        SpecialOperation::JSR,
        Value::Literal(Literal::Number(2)),
    )];
    assert_eq!(generate(program), Ok(vec![(0x23 << 10) | (0x01 << 5)]));
}

#[test]
fn trailing_words_follow_value_then_destination() {
    // SET [0x1000], 0x2000: both operands carry a trailing word; the value
    // operand's word comes first.
    let program = vec![Instruction::Basic(
        BasicOperation::SET,
        Destination::Indirection(Indirection::Literal(Literal::Number(0x1000))),
        Value::Literal(Literal::Number(0x2000)),
    )];
    let word = (0x1f << 10) | (0x1e << 5) | 0x01;
    assert_eq!(generate(program), Ok(vec![word, 0x2000, 0x1000]));
}

#[test]
fn offset_indirection_emits_offset_word() {
    // SET [Y + 5], A
    let program = vec![Instruction::Basic(
        BasicOperation::SET,
        Destination::Indirection(Indirection::RegisterPlusLiteral(
            Register::Y,
            Literal::Number(5),
        )),
        Value::Register(Register::A),
    )];
    let word = (0x0 << 10) | (0x14 << 5) | 0x01;
    assert_eq!(generate(program), Ok(vec![word, 5]));
}

#[test]
fn push_and_pop_pack_their_codes() {
    // SET PUSH, POP
    let program = vec![Instruction::Basic(
        BasicOperation::SET,
        Destination::Push,
        Value::Pop,
    )];
    assert_eq!(generate(program), Ok(vec![(0x18 << 10) | (0x18 << 5) | 0x01]));
}

#[test]
fn literal_and_label_trailing_words_resolve() {
    // SET X, 33800 then SET Y, data; the label lands at address 4.
    let program = vec![
        Instruction::Basic(
            BasicOperation::SET,
            Destination::Register(Register::X),
            Value::Literal(Literal::Number(33800)),
        ),
        Instruction::Basic(
            BasicOperation::SET,
            Destination::Register(Register::Y),
            Value::Literal(Literal::Label(String::from("data"))),
        ),
        Instruction::Label(String::from("data")),
    ];
    let first = (0x1f << 10) | (0x3 << 5) | 0x01;
    let second = (0x1f << 10) | (0x4 << 5) | 0x01;
    assert_eq!(generate(program), Ok(vec![first, 33800, second, 4]));
}

#[test]
fn forward_and_backward_references_resolve_alike() {
    let jump = || {
        Instruction::Basic(
            BasicOperation::SET,
            Destination::Register(Register::PC),
            Value::Literal(Literal::Label(String::from("end"))),
        )
    };
    // The first jump references "end" before its definition, the second one
    // after it; both placeholders must receive the same address.
    let program = vec![jump(), Instruction::Label(String::from("end")), jump()];
    let words = generate(program).unwrap();
    assert_eq!(words[1], 2);
    assert_eq!(words[3], 2);
    assert_eq!(words[1], words[3]);
}

#[test]
fn label_between_data_blocks_lands_on_next_word() {
    let program = vec![
        Instruction::Basic(
            BasicOperation::SET,
            Destination::Register(Register::X),
            Value::Literal(Literal::Label(String::from("L"))),
        ),
        Instruction::Data(vec![DatData::Number(0)]),
        Instruction::Label(String::from("L")),
        Instruction::Data(vec![DatData::Number(7)]),
    ];
    let word = (0x1f << 10) | (0x3 << 5) | 0x01;
    // "L" binds exactly to the index of the 7: word 3.
    assert_eq!(generate(program), Ok(vec![word, 3, 0, 7]));
}

#[test]
fn label_inside_data_block_binds_like_a_top_level_label() {
    let program = vec![
        Instruction::Special(
            SpecialOperation::JSR,
            Value::Literal(Literal::Label(String::from("table"))),
        ),
        Instruction::Data(vec![
            DatData::Number(11),
            DatData::Label(String::from("table")),
            DatData::Number(22),
        ]),
    ];
    let word = (0x1f << 10) | (0x01 << 5);
    assert_eq!(generate(program), Ok(vec![word, 3, 11, 22]));
}

#[test]
fn string_datum_emits_one_word_per_character() {
    let program = vec![Instruction::Data(vec![DatData::String(String::from("AB c"))])];
    assert_eq!(generate(program), Ok(vec![0x41, 0x42, 0x20, 0x63]));
}

#[test]
fn generation_is_deterministic() {
    let program = vec![
        Instruction::Basic(
            BasicOperation::ADD,
            Destination::Register(Register::I),
            Value::Literal(Literal::Label(String::from("tail"))),
        ),
        Instruction::Data(vec![DatData::String(String::from("xyz"))]),
        Instruction::Label(String::from("tail")),
        Instruction::Special(SpecialOperation::HWI, Value::Pop),
    ];
    let first = generate(program.clone());
    let second = generate(program);
    assert!(first.is_ok());
    assert_eq!(first, second);
}

#[test]
fn unresolved_label_fails_with_its_name() {
    let program = vec![
        Instruction::Special(
            SpecialOperation::JSR,
            Value::Literal(Literal::Label(String::from("missing"))),
        ),
        Instruction::Label(String::from("present")),
    ];
    assert_eq!(
        generate(program),
        Err(GenerationError::UnresolvedLabel(String::from("missing")))
    );
}

#[test]
fn illegal_indirection_fails_generation() {
    let program = vec![
        Instruction::Data(vec![DatData::Number(1)]),
        Instruction::Basic(
            BasicOperation::SET,
            Destination::Indirection(Indirection::Register(Register::PC)),
            Value::Register(Register::A),
        ),
    ];
    assert_eq!(
        generate(program),
        Err(GenerationError::IllegalIndirection(Register::PC))
    );
}

#[test]
fn duplicate_label_keeps_last_binding() {
    let program = vec![
        Instruction::Special(
            SpecialOperation::JSR,
            Value::Literal(Literal::Label(String::from("L"))),
        ),
        Instruction::Label(String::from("L")),
        Instruction::Data(vec![DatData::Number(0xdead)]),
        Instruction::Label(String::from("L")),
        Instruction::Data(vec![DatData::Number(0xbeef)]),
    ];
    let word = (0x1f << 10) | (0x01 << 5);
    // Both bindings of "L" are seen before patching; the later one, at
    // address 3, wins.
    assert_eq!(generate(program), Ok(vec![word, 3, 0xdead, 0xbeef]));
}

#[test]
fn folded_literal_emits_no_trailing_word_in_program() {
    let program = vec![
        Instruction::Basic(
            BasicOperation::SET,
            Destination::Register(Register::A),
            Value::Literal(Literal::Number(0xffff)),
        ),
        Instruction::Data(vec![DatData::Number(9)]),
    ];
    let word = (0x20 << 10) | (0x0 << 5) | 0x01;
    assert_eq!(generate(program), Ok(vec![word, 9]));
}

#[test]
fn words_serialize_big_endian() {
    assert_eq!(word_to_bytes(0xabcd), (0xab, 0xcd));
    assert_eq!(word_to_bytes(0x0001), (0x00, 0x01));
    assert_eq!(word_to_bytes(0xff00), (0xff, 0x00));
}

#[test]
fn generator_pipeline_matches_generate() {
    let program = || {
        vec![
            Instruction::Special(
                SpecialOperation::JSR,
                Value::Literal(Literal::Label(String::from("sub"))),
            ),
            Instruction::Label(String::from("sub")),
            Instruction::Basic(
                BasicOperation::SET,
                Destination::Register(Register::PC),
                Value::Pop,
            ),
        ]
    };

    let mut generator = Generator::new();
    for instruction in program() {
        assert_eq!(generator.consume(instruction), Ok(()));
    }
    assert_eq!(generator.finalize(), Ok(()));
    assert!(generator.pending_labels.is_empty());
    assert_eq!(Ok(generator.output), generate(program()));
}

#[test]
fn append_label_binds_current_position() {
    let mut generator = Generator::new();
    generator.generate_literal(Literal::Number(41));
    generator.generate_literal(Literal::Number(42));
    generator.append_label(String::from("here"));
    assert_eq!(generator.label_locations, vec![(String::from("here"), 2)]);
    assert_eq!(generator.output, vec![41, 42]);
}

#[test]
fn label_literal_emits_placeholder_and_pending_entry() {
    let mut generator = Generator::new();
    generator.generate_literal(Literal::Number(7));
    generator.generate_literal(Literal::Label(String::from("later")));
    assert_eq!(generator.output, vec![7, 0]);
    assert_eq!(generator.pending_labels, vec![(String::from("later"), 1)]);
}
