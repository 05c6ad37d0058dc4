use vstd::prelude::*;

verus! {

/// The failures that the registry and the authentication gateway report.
#[derive(Debug, Clone, Copy, PartialEq, Eq, Structural)]
pub enum Error {
    /// The string is not a well-formed site address.
    MalformedAddress,
    /// The site's root exists but its content manifest is not on disk.
    ContentUnavailable,
    /// The manifest is on disk but could not be loaded.
    ContentLoadFailed,
    /// No live site is bound to the presented nonce.
    UnknownNonce,
    /// The shared secret was missing or wrong.
    Unauthenticated,
    /// The site's schema could not be loaded or its database opened.
    SchemaError,
    /// The registry could not be reached or refused a binding.
    InternalBindingError,
}

} // verus!
