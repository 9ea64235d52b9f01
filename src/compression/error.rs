use vstd::prelude::*;

verus! {

/// Failures of the compression layer.
#[derive(Debug, Clone, Copy, PartialEq, Eq, Structural)]
pub enum CompressionError {
    /// Fewer bytes than a header holds.
    Short,
    /// The first two bytes are not the header magic.
    MalformedHeader,
    /// The magic matched, but the scheme byte names no known scheme.
    UnknownScheme,
    /// The DEFLATE codec failed.
    Codec,
    /// An operation came in a state that does not allow it.
    IllegalState,
}

} // verus!
