use vstd::prelude::*;

verus! {

/// What can go wrong while carving views out of a buffer.
#[derive(Debug, Clone, Copy, PartialEq, Eq, Structural)]
pub enum Error {
    /// The buffer ended before the requested number of bytes.
    ExpectedBytes(usize),
    /// The reserved tag region ended before the requested bits.
    ExpectedBits(usize),
    /// An enum or union discriminant matches no variant.
    InvalidTag(usize),
    /// A tag bit was requested before any tag region was reserved.
    NoTagDefined,
    /// A length-prefixed region reaches past the buffer.
    OutOfBounds(usize),
}

impl Error {
    /// Whether the error only means that no complete record is left (the
    /// buffer ran out), as opposed to corrupt data.
    pub fn ends_stream(&self) -> (r: bool)
        ensures
            r == (self is ExpectedBytes || self is OutOfBounds),
    {
        match self {
            Error::ExpectedBytes(_) => true,
            Error::OutOfBounds(_) => true,
            _ => false,
        }
    }
}

} // verus!
