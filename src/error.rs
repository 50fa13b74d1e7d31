//! The failures that the library reports.
use vstd::prelude::*;

verus! {

/// Why an operation was refused.
#[derive(Debug, PartialEq, Eq)]
pub enum MacdevError {
    /// The user's home directory could not be determined.
    HomeNotFound,
    /// The external package manager is not available.
    BrewMissing,
    /// A project manifest is needed and there is none.
    NoManifest,
    /// The package is tracked in no section of the global manifest.
    NotTracked(String),
    /// The package is neither a project package nor a global impure one.
    NotManaged(String),
    /// The tap is not in the global manifest.
    TapNotTracked(String),
}

} // verus!
