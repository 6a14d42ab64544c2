use vstd::prelude::*;

verus! {

/// Why a decode, a lookup or a schema check failed.
#[derive(Debug, Clone, PartialEq, Eq)]
pub enum DataError {
    /// Fewer bytes remain than the next item needs.
    TruncatedStream,
    /// A text cell, key or value is not valid UTF-8.
    MalformedText,
    /// A value was read as a variant it is not.
    TypeMismatch,
    /// A record has no field of this name.
    UnknownField(String),
    /// A schema field's declared offset differs from the sum of the widths before it.
    OffsetMismatch { name: String, offset: u64, expected: u128 },
}

} // verus!
