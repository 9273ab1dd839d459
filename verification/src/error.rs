use vstd::prelude::*;
use crate::ast::Register;

verus! {

/// An error detected while generating code.
///
/// Generation aborts on the first error; no partial output is returned.
#[derive(Debug, PartialEq, Clone)]
pub enum GenerationError {
    /// An operand addresses memory indirectly through a register that the
    /// machine cannot use for indirection (the program counter or the
    /// overflow register).
    IllegalIndirection(Register),
    /// A literal refers to a label that the instruction sequence never
    /// defines; the name of that label is carried along.
    UnresolvedLabel(String),
}

} // verus!
