//! Error taxonomy of the plugin runtime.
//!
//! Absence conditions, binary-contract mismatches, failed module
//! initialisation, manifest problems and payload-validation failures each get
//! a variant of their own, so contracts can say exactly which error an
//! operation returns.

use vstd::prelude::*;
use vstd::string::StringExecFns;

verus! {

/// An error returned by the plugin runtime.
#[derive(Debug)]
pub enum Error {
    /// A plugin id, service id or manifest entry that does not exist.
    NotFound(String),
    /// An attempt to load a plugin under an id that is already live.
    AlreadyLoaded(String),
    /// The module's binary-contract version differs from the host's.
    AbiMismatch { expected: u32, found: u32 },
    /// The module's `init` entry point returned a non-zero status.
    InitFailed(i32),
    /// A plugin manifest that could not be parsed or fails validation.
    ManifestParse(String),
}

impl Error {
    /// A human-readable description of the error.
    pub fn message(&self) -> (m: String)
        ensures
            match self {
                Error::NotFound(s) => m@ == "not found: "@ + s@,
                Error::AlreadyLoaded(s) => m@ == "already loaded: "@ + s@,
                Error::AbiMismatch { .. } => m@ == "ABI version mismatch"@,
                Error::InitFailed(_) => m@ == "plugin init failed"@,
                Error::ManifestParse(s) => m@ == "failed to parse manifest: "@ + s@,
            },
    {
        match self {
            Error::NotFound(s) => String::from_str("not found: ").concat(s.as_str()),
            Error::AlreadyLoaded(s) => String::from_str("already loaded: ").concat(s.as_str()),
            Error::AbiMismatch { .. } => String::from_str("ABI version mismatch"),
            Error::InitFailed(_) => String::from_str("plugin init failed"),
            Error::ManifestParse(s) => String::from_str("failed to parse manifest: ").concat(
                s.as_str(),
            ),
        }
    }
}

} // verus!
