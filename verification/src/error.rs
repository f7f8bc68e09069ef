//! The error taxonomy of the sync pipeline.

use vstd::prelude::*;

verus! {

/// Everything that can go wrong while syncing the catalog.
///
/// The verified core itself raises only `Protocol` (malformed pagination
/// metadata); the surrounding application maps transport, decoding, storage
/// and configuration failures onto the remaining variants before reporting.
#[derive(Debug, Clone, Copy, PartialEq, Eq, Structural)]
pub enum SyncError {
    /// The remote side rejected the credential.
    Auth,
    /// A network-level failure (connection, DNS, timeout).
    Transport,
    /// A response body did not match the expected record shape.
    Decode,
    /// Pagination metadata was malformed (unparseable cursor value).
    Protocol,
    /// The local persistence layer failed.
    Storage,
    /// The credential file was missing or unreadable.
    Config,
}

} // verus!
