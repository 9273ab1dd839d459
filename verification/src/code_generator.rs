//! Two-pass code generation: linear emission with label bookkeeping, then a
//! patch pass that resolves every pending label reference.

use vstd::prelude::*;
use crate::ast::{
    basic_opcode, destination_encoding, special_opcode, value_encoding, BasicOperation, DatData,
    Destination, Instruction, Literal, SpecialOperation, Value,
};
use crate::error::GenerationError;

verus! {

/// The state of the generator during pass one: the words emitted so far, the
/// labels bound so far with their addresses (later bindings of a repeated
/// name win), and the references still awaiting an address, each with the
/// output index of its placeholder word.
#[verifier::ext_equal]
pub struct GenState {
    pub output: Seq<u16>,
    pub labels: Seq<(String, u16)>,
    pub pending: Seq<(String, u16)>,
}

/// The state in which generation starts.
pub open spec fn empty_state() -> GenState {
    GenState { output: Seq::empty(), labels: Seq::empty(), pending: Seq::empty() }
}

/// The current output length as a sixteen-bit word address.
pub open spec fn word_address(output: Seq<u16>) -> u16 {
    (output.len() % 0x10000) as u16
}

/// Every pending reference points at an already emitted word.
pub open spec fn state_wf(s: GenState) -> bool {
    forall|i: int| 0 <= i < s.pending.len() ==> (#[trigger] s.pending[i]).1 < s.output.len()
}

/// Emitting one literal word: a number is appended verbatim; a label
/// reference appends a zero placeholder and records the reference at the
/// placeholder's index.
pub open spec fn literal_step(s: GenState, literal: Literal) -> GenState {
    match literal {
        Literal::Number(n) => GenState { output: s.output.push(n), ..s },
        Literal::Label(name) => GenState {
            output: s.output.push(0),
            pending: s.pending.push((name, word_address(s.output))),
            ..s
        },
    }
}

/// Binding one label to the current output position.
pub open spec fn label_step(s: GenState, name: String) -> GenState {
    GenState { labels: s.labels.push((name, word_address(s.output))), ..s }
}

/// The words of a string datum: one per character, the code point kept to
/// sixteen bits.
pub open spec fn string_words(text: Seq<char>) -> Seq<u16> {
    text.map_values(|c: char| ((c as u32) % 0x10000) as u16)
}

/// Emitting one datum of a data block.
pub open spec fn datum_step(s: GenState, datum: DatData) -> GenState {
    match datum {
        DatData::Label(name) => label_step(s, name),
        DatData::Number(n) => GenState { output: s.output.push(n), ..s },
        DatData::String(text) => GenState { output: s.output + string_words(text@), ..s },
    }
}

/// Emitting a whole data block, datum by datum.
pub open spec fn data_step(s: GenState, data: Seq<DatData>) -> GenState
    decreases data.len(),
{
    if data.len() == 0 {
        s
    } else {
        data_step(datum_step(s, data[0]), data.skip(1))
    }
}

/// Emitting one optional trailing literal word.
pub open spec fn trailing_step(s: GenState, literal: Option<Literal>) -> GenState {
    match literal {
        Some(lit) => literal_step(s, lit),
        None => s,
    }
}

/// Emitting a basic instruction: the packed word `(value field << 10) |
/// (destination field << 5) | operation code`, then the value operand's
/// trailing word, then the destination operand's.  Either operand may make
/// the whole step fail with an illegal indirection.
pub open spec fn basic_step(
    s: GenState,
    operation: BasicOperation,
    destination: Destination,
    value: Value,
) -> Result<GenState, GenerationError> {
    match destination_encoding(destination) {
        Err(e) => Err(e),
        Ok((destination_code, destination_literal)) => match value_encoding(value) {
            Err(e) => Err(e),
            Ok((value_code, value_literal)) => {
                let word = (value_code << 10) | (destination_code << 5) | basic_opcode(operation);
                let after_word = GenState { output: s.output.push(word), ..s };
                Ok(trailing_step(trailing_step(after_word, value_literal), destination_literal))
            },
        },
    }
}

/// Emitting a special instruction: the packed word `(value field << 10) |
/// (operation code << 5)`, then the value operand's trailing word.
pub open spec fn special_step(s: GenState, operation: SpecialOperation, value: Value) -> Result<
    GenState,
    GenerationError,
> {
    match value_encoding(value) {
        Err(e) => Err(e),
        Ok((value_code, value_literal)) => {
            let word = (value_code << 10) | (special_opcode(operation) << 5);
            let after_word = GenState { output: s.output.push(word), ..s };
            Ok(trailing_step(after_word, value_literal))
        },
    }
}

/// Consuming one instruction during pass one.
pub open spec fn consume_step(s: GenState, instruction: Instruction) -> Result<
    GenState,
    GenerationError,
> {
    match instruction {
        Instruction::Basic(operation, destination, value) => basic_step(
            s,
            operation,
            destination,
            value,
        ),
        Instruction::Special(operation, value) => special_step(s, operation, value),
        Instruction::Label(name) => Ok(label_step(s, name)),
        Instruction::Data(data) => Ok(data_step(s, data@)),
    }
}

/// Running pass one over a whole instruction sequence, stopping at the first
/// error.
pub open spec fn run(s: GenState, instructions: Seq<Instruction>) -> Result<
    GenState,
    GenerationError,
> decreases instructions.len(),
{
    if instructions.len() == 0 {
        Ok(s)
    } else {
        match consume_step(s, instructions[0]) {
            Ok(next) => run(next, instructions.skip(1)),
            Err(e) => Err(e),
        }
    }
}

/// The address a name resolves to in the label table: that of its last
/// binding, or nothing if the name was never bound.
pub open spec fn lookup(labels: Seq<(String, u16)>, name: Seq<char>) -> Option<u16>
    decreases labels.len(),
{
    if labels.len() == 0 {
        None
    } else if labels.last().0@ == name {
        Some(labels.last().1)
    } else {
        lookup(labels.drop_last(), name)
    }
}

/// Pass two: every pending reference's placeholder word is overwritten with
/// the address its label resolves to; a reference to a name the table does
/// not hold fails the whole pass.  No word is ever appended here.
pub open spec fn patch(
    output: Seq<u16>,
    labels: Seq<(String, u16)>,
    pending: Seq<(String, u16)>,
) -> Result<Seq<u16>, GenerationError>
    decreases pending.len(),
{
    if pending.len() == 0 {
        Ok(output)
    } else {
        match lookup(labels, pending[0].0@) {
            Some(address) => patch(
                output.update(pending[0].1 as int, address),
                labels,
                pending.skip(1),
            ),
            None => Err(GenerationError::UnresolvedLabel(pending[0].0)),
        }
    }
}

/// What generating a whole instruction sequence yields: the patched output
/// of both passes, or the first error either pass hits.
pub open spec fn generation(instructions: Seq<Instruction>) -> Result<Seq<u16>, GenerationError> {
    match run(empty_state(), instructions) {
        Ok(s) => patch(s.output, s.labels, s.pending),
        Err(e) => Err(e),
    }
}

/// Generates a DCPU-16 program from an instruction sequence.
///
/// The three fields are created empty together, evolve together through pass
/// one, and are consumed by [`Generator::finalize`]; [`generate`] drives the
/// whole round.
pub struct Generator {
    /// The binary output so far.
    pub output: Vec<u16>,
    /// The label references to be resolved after pass one, each with the
    /// output index of its placeholder word.
    pub pending_labels: Vec<(String, u16)>,
    /// The labels bound so far and their addresses; a later binding of the
    /// same name wins.
    pub label_locations: Vec<(String, u16)>,
}

impl View for Generator {
    type V = GenState;

    open spec fn view(&self) -> GenState {
        GenState {
            output: self.output@,
            labels: self.label_locations@,
            pending: self.pending_labels@,
        }
    }
}

/// The address of `name` in the table, honouring that the last binding of a
/// repeated name wins.
fn lookup_label(table: &Vec<(String, u16)>, name: &String) -> (r: Option<u16>)
    ensures
        r == lookup(table@, name@),
{
    let ghost full = table@;
    let mut i = table.len();
    assert(full.take(i as int) =~= full);
    while i > 0
        invariant
            i <= table.len(),
            full == table@,
            lookup(full, name@) == lookup(full.take(i as int), name@),
        decreases i,
    {
        i = i - 1;
        let entry = &table[i];
        proof {
            let prefix = full.take(i + 1);
            assert(prefix.last() == full[i as int]);
            assert(prefix.drop_last() =~= full.take(i as int));
        }
        if entry.0 == *name {
            assert(lookup(full.take(i + 1), name@) == Some(entry.1));
            return Some(entry.1);
        }
        assert(lookup(full.take(i + 1), name@) == lookup(full.take(i as int), name@));
    }
    None
}

impl Generator {
    /// A generator with empty output, label table, and pending list.
    pub fn new() -> (g: Generator)
        ensures
            g@ == empty_state(),
    {
        let g = Generator { output: Vec::new(), pending_labels: Vec::new(), label_locations: Vec::new() };
        proof {
            assert(g@ =~= empty_state());
        }
        g
    }

    /// Bind a label to the current output position, superseding any earlier
    /// binding of the same name.
    pub fn append_label(&mut self, label: String)
        ensures
            final(self)@ == label_step(old(self)@, label),
    {
        let address: u16 = (self.output.len() % 0x10000) as u16;
        self.label_locations.push((label, address));
        proof {
            assert(final(self)@ =~= label_step(old(self)@, label));
        }
    }

    /// Emit one literal word: a number verbatim, a label reference as a zero
    /// placeholder recorded in the pending list.
    pub fn generate_literal(&mut self, literal: Literal)
        ensures
            final(self)@ == literal_step(old(self)@, literal),
    {
        match literal {
            Literal::Label(label) => {
                let address: u16 = (self.output.len() % 0x10000) as u16;
                self.pending_labels.push((label, address));
                self.output.push(0x0);
            },
            Literal::Number(number) => {
                self.output.push(number);
            },
        }
        proof {
            assert(final(self)@ =~= literal_step(old(self)@, literal));
        }
    }
}

impl Generator {
    /// Emit a data block: a label datum binds at the current position, a
    /// number datum is appended verbatim, and a string datum is appended one
    /// word per character.
    pub fn generate_data(&mut self, data: Vec<DatData>)
        ensures
            final(self)@ == data_step(old(self)@, data@),
    {
        let ghost all = data@;
        let mut data = data;
        while data.len() > 0
            invariant
                data_step(old(self)@, all) == data_step(self@, data@),
            decreases data@.len(),
        {
            let ghost before = self@;
            let ghost rem = data@;
            let datum = data.remove(0);
            proof {
                assert(data@ =~= rem.skip(1));
            }
            match datum {
                DatData::Label(label) => self.append_label(label),
                DatData::Number(number) => {
                    self.output.push(number);
                    proof {
                        assert(self@ =~= datum_step(before, rem[0]));
                    }
                },
                DatData::String(text) => {
                    let ghost words = string_words(text@);
                    let slice: &str = &text;
                    let length = slice.unicode_len();
                    let mut j: usize = 0;
                    proof {
                        assert(self.output@ =~= before.output + words.take(0));
                    }
                    while j < length
                        invariant
                            j <= length,
                            length == text@.len(),
                            slice@ == text@,
                            words == string_words(text@),
                            self.output@ == before.output + words.take(j as int),
                            self.pending_labels@ == before.pending,
                            self.label_locations@ == before.labels,
                        decreases length - j,
                    {
                        let c = slice.get_char(j);
                        let word: u16 = ((c as u32) % 0x10000) as u16;
                        self.output.push(word);
                        proof {
                            assert(words[j as int] == word);
                            assert(words.take(j + 1) =~= words.take(j as int).push(word));
                            assert(self.output@ =~= before.output + words.take(j + 1));
                        }
                        j = j + 1;
                    }
                    proof {
                        assert(words.take(length as int) =~= words);
                        assert(self@ =~= datum_step(before, rem[0]));
                    }
                },
            }
            proof {
                assert(data_step(before, rem) == data_step(self@, data@));
            }
        }
        proof {
            assert(self@ =~= data_step(self@, data@));
        }
    }

    /// Emit a basic instruction: the packed word, then the value operand's
    /// trailing literal word, then the destination operand's, in that order.
    /// An illegal operand aborts before anything is emitted.
    pub fn generate_basic(
        &mut self,
        operation: BasicOperation,
        destination: Destination,
        value: Value,
    ) -> (r: Result<(), GenerationError>)
        ensures
            match r {
                Ok(_) => basic_step(old(self)@, operation, destination, value) == Ok::<
                    GenState,
                    GenerationError,
                >(final(self)@),
                Err(e) => basic_step(old(self)@, operation, destination, value) == Err::<
                    GenState,
                    GenerationError,
                >(e) && final(self)@ == old(self)@,
            },
    {
        let operation_opcode: u16 = operation.encode();
        let (destination_opcode, destination_literal) = match destination.encode() {
            Ok(pair) => pair,
            Err(e) => {
                return Err(e);
            },
        };
        let (value_opcode, value_literal) = match value.encode() {
            Ok(pair) => pair,
            Err(e) => {
                return Err(e);
            },
        };

        let opcode = (value_opcode << 10) | (destination_opcode << 5) | operation_opcode;
        self.output.push(opcode);
        proof {
            assert(self@ =~= GenState { output: old(self)@.output.push(opcode), ..old(self)@ });
        }

        if let Some(literal) = value_literal {
            self.generate_literal(literal);
        }
        if let Some(literal) = destination_literal {
            self.generate_literal(literal);
        }
        Ok(())
    }

    /// Emit a special instruction: the packed word, then the value operand's
    /// trailing literal word.  An illegal operand aborts before anything is
    /// emitted.
    pub fn generate_special(&mut self, operation: SpecialOperation, value: Value) -> (r: Result<
        (),
        GenerationError,
    >)
        ensures
            match r {
                Ok(_) => special_step(old(self)@, operation, value) == Ok::<
                    GenState,
                    GenerationError,
                >(final(self)@),
                Err(e) => special_step(old(self)@, operation, value) == Err::<
                    GenState,
                    GenerationError,
                >(e) && final(self)@ == old(self)@,
            },
    {
        let operation_opcode: u16 = operation.encode();
        let (value_opcode, value_literal) = match value.encode() {
            Ok(pair) => pair,
            Err(e) => {
                return Err(e);
            },
        };

        let opcode = (value_opcode << 10) | (operation_opcode << 5);
        self.output.push(opcode);
        proof {
            assert(self@ =~= GenState { output: old(self)@.output.push(opcode), ..old(self)@ });
        }

        if let Some(literal) = value_literal {
            self.generate_literal(literal);
        }
        Ok(())
    }

    /// Consume one instruction, emitting its words and recording its labels
    /// and label references.
    pub fn consume(&mut self, instruction: Instruction) -> (r: Result<(), GenerationError>)
        ensures
            match r {
                Ok(_) => consume_step(old(self)@, instruction) == Ok::<GenState, GenerationError>(
                    final(self)@,
                ),
                Err(e) => consume_step(old(self)@, instruction) == Err::<
                    GenState,
                    GenerationError,
                >(e) && final(self)@ == old(self)@,
            },
    {
        match instruction {
            Instruction::Basic(operation, destination, value) => self.generate_basic(
                operation,
                destination,
                value,
            ),
            Instruction::Special(operation, value) => self.generate_special(operation, value),
            Instruction::Label(label) => {
                self.append_label(label);
                Ok(())
            },
            Instruction::Data(data) => {
                self.generate_data(data);
                Ok(())
            },
        }
    }

    /// Pass two: drain the pending list, overwriting each placeholder word
    /// with the address its label resolves to.  A reference to a label the
    /// table never bound fails with that label's name.
    #[verifier::loop_isolation(false)]
    pub fn finalize(&mut self) -> (r: Result<(), GenerationError>)
        requires
            state_wf(old(self)@),
        ensures
            match r {
                Ok(_) => patch(old(self)@.output, old(self)@.labels, old(self)@.pending) == Ok::<
                    Seq<u16>,
                    GenerationError,
                >(final(self)@.output) && final(self)@.labels == old(self)@.labels
                    && final(self)@.pending == Seq::<(String, u16)>::empty(),
                Err(e) => patch(old(self)@.output, old(self)@.labels, old(self)@.pending) == Err::<
                    Seq<u16>,
                    GenerationError,
                >(e) && final(self)@.output.len() == old(self)@.output.len() && final(self)@.labels
                    == old(self)@.labels,
            },
    {
        let ghost orig = self@;
        while self.pending_labels.len() > 0
            invariant
                patch(orig.output, orig.labels, orig.pending) == patch(
                    self.output@,
                    self.label_locations@,
                    self.pending_labels@,
                ),
                self.label_locations@ == orig.labels,
                self.output@.len() == orig.output.len(),
                state_wf(self@),
            decreases self.pending_labels@.len(),
        {
            let ghost rem = self.pending_labels@;
            let ghost top = self@;
            let ghost out0 = self.output@;
            let (label, location) = self.pending_labels.remove(0);
            proof {
                assert(self.pending_labels@ =~= rem.skip(1));
                assert(location == top.pending[0].1 && top.pending[0].1 < top.output.len());
            }
            match lookup_label(&self.label_locations, &label) {
                Some(origin) => {
                    self.output[location as usize] = origin;
                    proof {
                        assert(patch(out0, self.label_locations@, rem) == patch(
                            out0.update(location as int, origin),
                            self.label_locations@,
                            rem.skip(1),
                        ));
                        assert forall|i: int|
                            0 <= i < self.pending_labels@.len() implies (
                        #[trigger] self.pending_labels@[i]).1 < self.output@.len() by {
                            assert(self.pending_labels@[i] == top.pending[i + 1]);
                        }
                    }
                },
                None => {
                    proof {
                        assert(patch(out0, self.label_locations@, rem)
                            == Err::<Seq<u16>, GenerationError>(
                            GenerationError::UnresolvedLabel(rem[0].0),
                        ));
                    }
                    return Err(GenerationError::UnresolvedLabel(label));
                },
            }
        }
        Ok(())
    }
}

/// Generate a binary program from an instruction sequence: pass one emits
/// the words and gathers the label table, pass two patches every label
/// reference.  The first illegal operand or unresolved label aborts the
/// whole generation with that error instead.
#[verifier::loop_isolation(false)]
pub fn generate(instructions: Vec<Instruction>) -> (r: Result<Vec<u16>, GenerationError>)
    ensures
        match r {
            Ok(words) => generation(instructions@) == Ok::<Seq<u16>, GenerationError>(words@),
            Err(e) => generation(instructions@) == Err::<Seq<u16>, GenerationError>(e),
        },
{
    let ghost all = instructions@;
    let mut instructions = instructions;
    let mut generator = Generator::new();
    while instructions.len() > 0
        invariant
            run(empty_state(), all) == run(generator@, instructions@),
            state_wf(generator@),
        decreases instructions@.len(),
    {
        let ghost before = generator@;
        let ghost rem = instructions@;
        let instruction = instructions.remove(0);
        proof {
            assert(instructions@ =~= rem.skip(1));
        }
        let ghost step = consume_step(before, rem[0]);
        match generator.consume(instruction) {
            Ok(_) => {
                proof {
                    lemma_consume_step_wf(before, rem[0]);
                    assert(run(before, rem) == run(generator@, instructions@));
                }
            },
            Err(e) => {
                proof {
                    assert(run(before, rem) == Err::<GenState, GenerationError>(e));
                }
                return Err(e);
            },
        }
    }
    match generator.finalize() {
        Ok(_) => Ok(generator.output),
        Err(e) => Err(e),
    }
}

/// Emitting a literal adds one word; a recorded reference points below the
/// new length.
proof fn lemma_literal_step_wf(s: GenState, literal: Literal)
    requires
        state_wf(s),
    ensures
        state_wf(literal_step(s, literal)),
        literal_step(s, literal).output.len() == s.output.len() + 1,
        literal_step(s, literal).labels == s.labels,
{
    vstd::arithmetic::div_mod::lemma_mod_decreases(s.output.len(), 0x10000);
}

/// An optional trailing literal keeps the state well formed.
proof fn lemma_trailing_step_wf(s: GenState, literal: Option<Literal>)
    requires
        state_wf(s),
    ensures
        state_wf(trailing_step(s, literal)),
        trailing_step(s, literal).output.len() >= s.output.len(),
{
    match literal {
        Some(lit) => lemma_literal_step_wf(s, lit),
        None => {},
    }
}

/// One datum never records a reference and never shrinks the output, so it
/// keeps the state well formed.
proof fn lemma_datum_step_wf(s: GenState, datum: DatData)
    requires
        state_wf(s),
    ensures
        state_wf(datum_step(s, datum)),
        datum_step(s, datum).output.len() >= s.output.len(),
{
}

/// A whole data block keeps the state well formed.
proof fn lemma_data_step_wf(s: GenState, data: Seq<DatData>)
    requires
        state_wf(s),
    ensures
        state_wf(data_step(s, data)),
        data_step(s, data).output.len() >= s.output.len(),
    decreases data.len(),
{
    if data.len() > 0 {
        lemma_datum_step_wf(s, data[0]);
        lemma_data_step_wf(datum_step(s, data[0]), data.skip(1));
    }
}

/// Consuming any instruction keeps the state well formed and never shrinks
/// the output.
proof fn lemma_consume_step_wf(s: GenState, instruction: Instruction)
    requires
        state_wf(s),
        consume_step(s, instruction) is Ok,
    ensures
        state_wf(consume_step(s, instruction)->Ok_0),
        consume_step(s, instruction)->Ok_0.output.len() >= s.output.len(),
{
    match instruction {
        Instruction::Basic(operation, destination, value) => {
            let (destination_code, destination_literal) =
                destination_encoding(destination)->Ok_0;
            let (value_code, value_literal) = value_encoding(value)->Ok_0;
            let word = (value_code << 10) | (destination_code << 5) | basic_opcode(operation);
            let after_word = GenState { output: s.output.push(word), ..s };
            lemma_trailing_step_wf(after_word, value_literal);
            lemma_trailing_step_wf(trailing_step(after_word, value_literal), destination_literal);
        },
        Instruction::Special(operation, value) => {
            let (value_code, value_literal) = value_encoding(value)->Ok_0;
            let word = (value_code << 10) | (special_opcode(operation) << 5);
            let after_word = GenState { output: s.output.push(word), ..s };
            lemma_trailing_step_wf(after_word, value_literal);
        },
        Instruction::Label(_) => {},
        Instruction::Data(data) => {
            lemma_data_step_wf(s, data@);
        },
    }
}

/// A word whose index no pending reference names comes out of pass two
/// unchanged.
proof fn lemma_patch_untouched(
    output: Seq<u16>,
    labels: Seq<(String, u16)>,
    pending: Seq<(String, u16)>,
    idx: int,
)
    requires
        patch(output, labels, pending) is Ok,
        0 <= idx < output.len(),
        forall|i: int| 0 <= i < pending.len() ==> (#[trigger] pending[i]).1 < output.len(),
        forall|i: int| 0 <= i < pending.len() ==> (#[trigger] pending[i]).1 != idx,
    ensures
        patch(output, labels, pending)->Ok_0[idx] == output[idx],
    decreases pending.len(),
{
    if pending.len() > 0 {
        let address = lookup(labels, pending[0].0@)->Some_0;
        let patched = output.update(pending[0].1 as int, address);
        let rest = pending.skip(1);
        assert forall|i: int| 0 <= i < rest.len() implies (#[trigger] rest[i]).1 != idx
            && rest[i].1 < patched.len() by {
            assert(rest[i] == pending[i + 1]);
        }
        lemma_patch_untouched(patched, labels, rest, idx);
        assert(patched[idx] == output[idx]);
    }
}

/// Resolution is direction-independent: the word patched in for a pending
/// reference is the address its name resolves to in the finished label
/// table, wherever the reference stands in the pending list and wherever its
/// placeholder stands in the output — so a reference to a label defined
/// later resolves exactly as one to a label defined earlier.
pub proof fn lemma_resolution_direction_independent(
    output: Seq<u16>,
    labels: Seq<(String, u16)>,
    pending: Seq<(String, u16)>,
    k: int,
)
    requires
        patch(output, labels, pending) is Ok,
        0 <= k < pending.len(),
        forall|i: int| 0 <= i < pending.len() ==> (#[trigger] pending[i]).1 < output.len(),
        forall|i: int, j: int|
            0 <= i < j < pending.len() ==> pending[i].1 != pending[j].1,
    ensures
        lookup(labels, pending[k].0@) is Some,
        patch(output, labels, pending)->Ok_0[pending[k].1 as int] == lookup(
            labels,
            pending[k].0@,
        )->Some_0,
    decreases pending.len(),
{
    let address = lookup(labels, pending[0].0@)->Some_0;
    let patched = output.update(pending[0].1 as int, address);
    let rest = pending.skip(1);
    assert forall|i: int| 0 <= i < rest.len() implies (#[trigger] rest[i]).1 < patched.len()
        && rest[i].1 != pending[0].1 by {
        assert(rest[i] == pending[i + 1]);
    }
    if k == 0 {
        lemma_patch_untouched(patched, labels, rest, pending[0].1 as int);
        assert(patched[pending[0].1 as int] == address);
    } else {
        assert forall|i: int, j: int| 0 <= i < j < rest.len() implies rest[i].1 != rest[j].1 by {
            assert(rest[i] == pending[i + 1] && rest[j] == pending[j + 1]);
        }
        lemma_resolution_direction_independent(patched, labels, rest, k - 1);
        assert(rest[k - 1] == pending[k]);
    }
}

/// Pass two succeeds exactly when every pending reference's name stands in
/// the label table; when it fails, no output comes out at all, and the error
/// carries the name of a label that the table does not hold.
pub proof fn lemma_patch_ok_iff_resolvable(
    output: Seq<u16>,
    labels: Seq<(String, u16)>,
    pending: Seq<(String, u16)>,
)
    ensures
        (patch(output, labels, pending) is Ok) <==> (forall|i: int|
            0 <= i < pending.len() ==> lookup(labels, (#[trigger] pending[i]).0@) is Some),
        patch(output, labels, pending) matches Err(e) ==> (e matches
            GenerationError::UnresolvedLabel(name) && lookup(labels, name@) is None),
    decreases pending.len(),
{
    if pending.len() > 0 {
        match lookup(labels, pending[0].0@) {
            Some(address) => {
                let patched = output.update(pending[0].1 as int, address);
                let rest = pending.skip(1);
                lemma_patch_ok_iff_resolvable(patched, labels, rest);
                assert forall|i: int| 0 <= i < rest.len() implies rest[i] == pending[i + 1] by {}
                if forall|i: int|
                    0 <= i < pending.len() ==> lookup(labels, (#[trigger] pending[i]).0@)
                        is Some {
                    assert forall|i: int|
                        0 <= i < rest.len() implies lookup(
                        labels,
                        (#[trigger] rest[i]).0@,
                    ) is Some by {
                        assert(rest[i] == pending[i + 1]);
                    }
                }
                if patch(output, labels, pending) is Ok {
                    assert forall|i: int|
                        0 <= i < pending.len() implies lookup(
                        labels,
                        (#[trigger] pending[i]).0@,
                    ) is Some by {
                        if i > 0 {
                            assert(pending[i] == rest[i - 1]);
                        }
                    }
                }
            },
            None => {},
        }
    }
}

/// Whether one instruction's operands can be encoded at all.
pub open spec fn instruction_legal(instruction: Instruction) -> bool {
    match instruction {
        Instruction::Basic(_, destination, value) => destination_encoding(destination) is Ok
            && value_encoding(value) is Ok,
        Instruction::Special(_, value) => value_encoding(value) is Ok,
        Instruction::Label(_) => true,
        Instruction::Data(_) => true,
    }
}

/// Pass one succeeds exactly when every instruction's operands are legal;
/// when it fails, the error is an illegal indirection.
pub proof fn lemma_run_ok_iff_legal(s: GenState, instructions: Seq<Instruction>)
    ensures
        (run(s, instructions) is Ok) <==> (forall|i: int|
            0 <= i < instructions.len() ==> instruction_legal(#[trigger] instructions[i])),
        run(s, instructions) is Err ==> run(s, instructions)->Err_0 matches
            GenerationError::IllegalIndirection(_),
    decreases instructions.len(),
{
    if instructions.len() > 0 {
        let head = instructions[0];
        let rest = instructions.skip(1);
        lemma_consume_step_err_illegal(s, head);
        match consume_step(s, head) {
            Ok(next) => {
                lemma_run_ok_iff_legal(next, rest);
                if forall|i: int|
                    0 <= i < instructions.len() ==> instruction_legal(
                        #[trigger] instructions[i],
                    ) {
                    assert forall|i: int|
                        0 <= i < rest.len() implies instruction_legal(
                        #[trigger] rest[i],
                    ) by {
                        assert(rest[i] == instructions[i + 1]);
                    }
                }
                if run(s, instructions) is Ok {
                    assert forall|i: int|
                        0 <= i < instructions.len() implies instruction_legal(
                        #[trigger] instructions[i],
                    ) by {
                        if i > 0 {
                            assert(instructions[i] == rest[i - 1]);
                        }
                    }
                }
            },
            Err(_) => {
                assert(!instruction_legal(instructions[0]));
            },
        }
    }
}

/// A failing consume step reports an illegal indirection, and it fails
/// exactly on an illegal instruction.
proof fn lemma_consume_step_err_illegal(s: GenState, instruction: Instruction)
    ensures
        (consume_step(s, instruction) is Ok) <==> instruction_legal(instruction),
        consume_step(s, instruction) is Err ==> consume_step(s, instruction)->Err_0 matches
            GenerationError::IllegalIndirection(_),
{
    match instruction {
        Instruction::Basic(_, destination, value) => {
            lemma_encoding_err_illegal_destination(destination);
            lemma_encoding_err_illegal_value(value);
        },
        Instruction::Special(_, value) => {
            lemma_encoding_err_illegal_value(value);
        },
        _ => {},
    }
}

/// A value operand's encoding can only fail with an illegal indirection.
proof fn lemma_encoding_err_illegal_value(value: Value)
    ensures
        value_encoding(value) is Err ==> value_encoding(value)->Err_0 matches
            GenerationError::IllegalIndirection(_),
{
}

/// A destination operand's encoding can only fail with an illegal
/// indirection.
proof fn lemma_encoding_err_illegal_destination(destination: Destination)
    ensures
        destination_encoding(destination) is Err ==> destination_encoding(destination)->Err_0
            matches GenerationError::IllegalIndirection(_),
{
}

/// The pending references stand in the order their placeholders were
/// emitted: strictly increasing output indices.
pub open spec fn pending_increasing(pending: Seq<(String, u16)>) -> bool {
    forall|i: int, j: int| 0 <= i < j < pending.len() ==> pending[i].1 < pending[j].1
}

/// Emitting a literal keeps the pending list strictly increasing while the
/// output stays within the sixteen-bit address space, and never disturbs the
/// references already recorded.
proof fn lemma_literal_step_increasing(s: GenState, literal: Literal)
    requires
        state_wf(s),
        pending_increasing(s.pending),
        s.output.len() < 0x10000,
    ensures
        pending_increasing(literal_step(s, literal).pending),
{
    vstd::arithmetic::div_mod::lemma_small_mod(s.output.len(), 0x10000);
    match literal {
        Literal::Label(_) => {
            let extended = literal_step(s, literal).pending;
            assert forall|i: int, j: int|
                0 <= i < j < extended.len() implies extended[i].1 < extended[j].1 by {
                if j < extended.len() - 1 {
                    assert(extended[i] == s.pending[i] && extended[j] == s.pending[j]);
                } else {
                    assert(extended[i] == s.pending[i] && s.pending[i].1 < s.output.len());
                }
            }
        },
        Literal::Number(_) => {},
    }
}

/// An optional trailing literal keeps the pending list strictly increasing.
proof fn lemma_trailing_step_increasing(s: GenState, literal: Option<Literal>)
    requires
        state_wf(s),
        pending_increasing(s.pending),
        trailing_step(s, literal).output.len() <= 0x10000,
    ensures
        pending_increasing(trailing_step(s, literal).pending),
{
    match literal {
        Some(lit) => lemma_literal_step_increasing(s, lit),
        None => {},
    }
}

/// Consuming one instruction keeps the pending list strictly increasing
/// while the output stays within the sixteen-bit address space.
proof fn lemma_consume_step_increasing(s: GenState, instruction: Instruction)
    requires
        state_wf(s),
        pending_increasing(s.pending),
        consume_step(s, instruction) is Ok,
        consume_step(s, instruction)->Ok_0.output.len() <= 0x10000,
    ensures
        pending_increasing(consume_step(s, instruction)->Ok_0.pending),
{
    match instruction {
        Instruction::Basic(operation, destination, value) => {
            let (destination_code, destination_literal) = destination_encoding(destination)->Ok_0;
            let (value_code, value_literal) = value_encoding(value)->Ok_0;
            let word = (value_code << 10) | (destination_code << 5) | basic_opcode(operation);
            let after_word = GenState { output: s.output.push(word), ..s };
            let after_value = trailing_step(after_word, value_literal);
            lemma_trailing_step_wf(after_word, value_literal);
            lemma_trailing_step_wf(after_value, destination_literal);
            lemma_trailing_step_increasing(after_word, value_literal);
            lemma_trailing_step_increasing(after_value, destination_literal);
        },
        Instruction::Special(operation, value) => {
            let (value_code, value_literal) = value_encoding(value)->Ok_0;
            let word = (value_code << 10) | (special_opcode(operation) << 5);
            let after_word = GenState { output: s.output.push(word), ..s };
            lemma_trailing_step_increasing(after_word, value_literal);
        },
        Instruction::Label(_) => {},
        Instruction::Data(data) => {
            lemma_data_step_pending(s, data@);
        },
    }
}

/// A data block records no reference, so it leaves the pending list as it
/// stands.
proof fn lemma_data_step_pending(s: GenState, data: Seq<DatData>)
    ensures
        data_step(s, data).pending == s.pending,
    decreases data.len(),
{
    if data.len() > 0 {
        lemma_data_step_pending(datum_step(s, data[0]), data.skip(1));
    }
}

/// Pass one never shrinks the output.
proof fn lemma_run_monotone(s: GenState, instructions: Seq<Instruction>)
    requires
        state_wf(s),
        run(s, instructions) is Ok,
    ensures
        run(s, instructions)->Ok_0.output.len() >= s.output.len(),
    decreases instructions.len(),
{
    if instructions.len() > 0 {
        let next = consume_step(s, instructions[0])->Ok_0;
        lemma_consume_step_wf(s, instructions[0]);
        lemma_run_monotone(next, instructions.skip(1));
    }
}

/// A whole pass one keeps the pending list strictly increasing while the
/// output stays within the sixteen-bit address space.
proof fn lemma_run_increasing(s: GenState, instructions: Seq<Instruction>)
    requires
        state_wf(s),
        pending_increasing(s.pending),
        run(s, instructions) is Ok,
        run(s, instructions)->Ok_0.output.len() <= 0x10000,
    ensures
        pending_increasing(run(s, instructions)->Ok_0.pending),
    decreases instructions.len(),
{
    if instructions.len() > 0 {
        let next = consume_step(s, instructions[0])->Ok_0;
        lemma_consume_step_wf(s, instructions[0]);
        lemma_run_monotone(next, instructions.skip(1));
        lemma_consume_step_increasing(s, instructions[0]);
        lemma_run_increasing(next, instructions.skip(1));
    }
}

/// After a successful generation of a program that fits the sixteen-bit
/// address space, every placeholder word holds exactly the address its
/// label's name resolves to in the finished table — whether the label was
/// defined before or after the reference.
pub proof fn lemma_generation_resolves_references(instructions: Seq<Instruction>, k: int)
    requires
        run(empty_state(), instructions) is Ok,
        run(empty_state(), instructions)->Ok_0.output.len() <= 0x10000,
        generation(instructions) is Ok,
        0 <= k < run(empty_state(), instructions)->Ok_0.pending.len(),
    ensures
        lookup(
            run(empty_state(), instructions)->Ok_0.labels,
            run(empty_state(), instructions)->Ok_0.pending[k].0@,
        ) is Some,
        generation(instructions)->Ok_0[run(empty_state(), instructions)->Ok_0.pending[k].1 as int]
            == lookup(
            run(empty_state(), instructions)->Ok_0.labels,
            run(empty_state(), instructions)->Ok_0.pending[k].0@,
        )->Some_0,
{
    let s = run(empty_state(), instructions)->Ok_0;
    lemma_run_wf(empty_state(), instructions);
    lemma_run_increasing(empty_state(), instructions);
    lemma_resolution_direction_independent(s.output, s.labels, s.pending, k);
}

/// A whole pass one keeps the state well formed.
proof fn lemma_run_wf(s: GenState, instructions: Seq<Instruction>)
    requires
        state_wf(s),
        run(s, instructions) is Ok,
    ensures
        state_wf(run(s, instructions)->Ok_0),
    decreases instructions.len(),
{
    if instructions.len() > 0 {
        lemma_consume_step_wf(s, instructions[0]);
        lemma_run_wf(consume_step(s, instructions[0])->Ok_0, instructions.skip(1));
    }
}

/// Generation succeeds exactly when every instruction's operands are legal
/// and every pending reference gathered by pass one resolves in the finished
/// label table.
pub proof fn lemma_generation_ok_iff(instructions: Seq<Instruction>)
    ensures
        (generation(instructions) is Ok) <==> ((forall|i: int|
            0 <= i < instructions.len() ==> instruction_legal(#[trigger] instructions[i]))
            && (run(empty_state(), instructions) matches Ok(s) ==> forall|k: int|
            0 <= k < s.pending.len() ==> lookup(s.labels, (#[trigger] s.pending[k]).0@)
                is Some)),
{
    lemma_run_ok_iff_legal(empty_state(), instructions);
    if run(empty_state(), instructions) is Ok {
        let s = run(empty_state(), instructions)->Ok_0;
        lemma_patch_ok_iff_resolvable(s.output, s.labels, s.pending);
    }
}

/// Generation is deterministic: the instruction sequence alone fixes its
/// outcome, so generating the same sequence twice yields identical results.
pub proof fn lemma_generation_deterministic(
    instructions: Seq<Instruction>,
    first: Result<Seq<u16>, GenerationError>,
    second: Result<Seq<u16>, GenerationError>,
)
    requires
        first == generation(instructions),
        second == generation(instructions),
    ensures
        first == second,
{
}

/// The big-endian byte pair of one output word, in the order a binary
/// writer stores it.
pub fn word_to_bytes(word: u16) -> (bytes: (u8, u8))
    ensures
        bytes.0 == word / 0x100,
        bytes.1 == word % 0x100,
{
    ((word / 0x100) as u8, (word % 0x100) as u8)
}

} // verus!

