//! The failure modes of kind parsing and environment loading.

use vstd::prelude::*;

verus! {

/// Why a kind could not be parsed or an environment could not be loaded.
///
/// Every failure is fatal to the enclosing operation: no partial result is
/// ever returned alongside one of these.
#[derive(Debug)]
pub enum Error {
    /// The supplied token names none of the six canonical kinds.
    InvalidKind(String),
    /// A non-comment line did not split into exactly a key and a value on `=`.
    InvalidProperty,
    /// The underlying file could not be opened or read.
    IoFailure,
    /// No base configuration directory could be resolved on this host.
    ConfigResolution,
}

} // verus!
