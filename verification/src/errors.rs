//! Error types of the facade: fatal configuration errors raised at
//! construction time, and stream errors raised by the adapters.

use vstd::prelude::*;

verus! {

/// A fatal configuration error, raised before any adapter is constructed.
#[derive(Clone, Copy, Debug, PartialEq, Eq, Structural)]
pub enum ConfigError {
    /// The codec identifier is not in the recognized set.
    UnknownCodec,
    /// A `%%:`-escaped parameter value could not be percent-decoded.
    MalformedValue,
}

/// An error raised by a stream adapter during write, flush or finalization.
#[derive(Clone, Copy, Debug, PartialEq, Eq, Structural)]
pub enum StreamError {
    /// The underlying codec engine reported a failure.
    Engine,
    /// The adapter's scratch buffer would have to grow past its ceiling.
    TooLarge,
    /// The adapter was used after it had been finalized.
    Finished,
}

} // verus!
