use vstd::prelude::*;

verus! {

/// Why a declaration was refused.
#[derive(Debug, Clone, Copy, PartialEq, Eq, Structural)]
pub enum CommandLineError {
    /// A single entity breaks one of its own rules: no identifier at all, an
    /// empty long identifier, a zero occurrence limit on a positional
    /// parameter, or a positional parameter declared after a repeating one.
    InvalidDeclaration,
    /// The name is already taken in the collection the entity goes into.
    DuplicateName,
}

} // verus!
