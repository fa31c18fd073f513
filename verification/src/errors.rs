//! The error taxonomy of the command-routing core. Every variant is
//! recoverable at the request boundary except `UnsupportedShape`, which marks
//! a configuration error found while the registry is built.

use vstd::prelude::*;

verus! {

/// What can go wrong between receiving an argument vector and handing a
/// reply back.
#[derive(Debug, Clone, PartialEq, Eq)]
pub enum CommandError {
    /// The command name is absent from the registry; carries that name.
    CommandNotFound(Vec<u8>),
    /// The argument count does not align with the command's declared step;
    /// carries the offending argument.
    MalformedArguments(Vec<u8>),
    /// A registry entry matches none of the known key shapes; carries the
    /// entry's command name. Found when the registry is built, never at
    /// request time.
    UnsupportedShape(Vec<u8>),
    /// The frame could not be translated into the store's wire call; carries
    /// the encoder's message.
    EncodingError(String),
    /// A failure the backing store returned, propagated verbatim.
    StoreError(String),
}

} // verus!
