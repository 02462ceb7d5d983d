use vstd::prelude::*;

verus! {

/// A text that is no decimal integer in the domain of the partitioner that
/// was asked to read it.
#[derive(Debug, Clone, PartialEq, Eq)]
pub struct ParseError {
    /// The text as it was offered.
    pub text: String,
}

/// A class name that names none of the strategies of this library.
#[derive(Debug, Clone, PartialEq, Eq)]
pub struct UnknownPartitioner {
    /// The name as it was offered.
    pub name: String,
}

} // verus!
