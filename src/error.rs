//! The failures that abort a run.
use vstd::prelude::*;

verus! {

#[derive(Clone, Copy, Debug, PartialEq, Eq, Structural)]
pub enum ParseError {
    /// The document is not well-formed XML, or it ended where more was expected.
    Malformed,
    /// A field element inside a `doc` has no `name` attribute.
    MissingName,
    /// A `doc` closed before all of its required fields were seen.
    MissingField,
    /// A content model outside the closed table of known models.
    UnknownContentModel,
    /// A field name or a model reference lacks the prefix or suffix its convention demands.
    NamingViolation,
    /// The visibility field holds neither `true` nor `false`.
    InvalidBoolean,
}

} // verus!
