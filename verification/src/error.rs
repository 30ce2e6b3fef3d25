use vstd::prelude::*;

verus! {

/// The single uniform error value: deserialization of a board string fails
/// with it whenever any token of the wire grammar is malformed.
#[derive(Debug, Clone, Copy, PartialEq, Eq, Structural)]
pub struct Error;

} // verus!
