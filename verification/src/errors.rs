//! The status codes the extension reports to its host.
//!
//! Every failure in this library is returned as a value of one of these
//! types; no verified function panics. The host-facing adapter maps them
//! onto the host's numeric status codes.

use vstd::prelude::*;

verus! {

/// Why a single configuration-store primitive refused a write.
#[derive(Debug, Clone, Copy, PartialEq, Eq)]
pub enum StoreFault {
    /// The store rejects writes at this path.
    AccessDenied,
    /// A value write addressed a key that does not exist.
    KeyNotFound,
}

/// The error taxonomy of the extension, as surfaced to the host.
#[derive(Debug, Clone, PartialEq, Eq)]
pub enum ShellError {
    /// A host-supplied pointer or identifier slot was null or malformed.
    InvalidArgument,
    /// The component refuses to be aggregated inside another object.
    AggregationNotSupported,
    /// An instantiation request named a component identifier other than ours.
    ClassNotAvailable,
    /// A capability query asked for an interface the object does not implement.
    UnsupportedCapability,
    /// Selection capture was started without a data object.
    MissingData,
    /// The host could not render the data object in the file-drop format.
    UnsupportedFormat,
    /// The file-drop payload reported zero files.
    EmptySelection,
    /// The host menu refused the entry we tried to insert.
    MenuInsertionFailed,
    /// Command dispatch used a string verb; only identifier verbs are accepted.
    UnsupportedVerb,
    /// A configuration-store write failed while applying a registration
    /// transaction; carries the path of the offending entry and the
    /// underlying store fault.
    RegistrationFailed { entry_path: String, fault: StoreFault },
}

} // verus!
