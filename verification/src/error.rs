//! Errors surfaced by the resolution, linking and run phases.

use vstd::prelude::*;

verus! {

/// Everything that can go wrong while turning a manifest into a runnable
/// guest, or while running it.
///
/// Resolution and linking errors abort the whole build: a half-linked guest
/// is never run. `WrongCapabilityType` marks an internal inconsistency at
/// retrieval time rather than a manifest authoring error.
#[derive(Clone, Copy, Debug, PartialEq, Eq, Structural)]
pub enum BuildError {
    /// The manifest's `specversion` is neither `0.1` nor `0.2`.
    UnsupportedSpecVersion,
    /// A `0.2` declaration has no `resource` field.
    MissingResourceField,
    /// A resource identifier appears in no family's table.
    UnknownCapabilityIdentifier,
    /// Two declarations share the same manifest-local name.
    DuplicateCapabilityName,
    /// A second declaration resolved to an HTTP family that may be linked
    /// only once.
    CapabilityAlreadyLinked,
    /// A stored backend instance does not match the requested family.
    WrongCapabilityType,
    /// The guest's entry point itself failed.
    GuestExecutionError,
    /// The shutdown signal handler could not be installed.
    SignalInstallationError,
}

impl BuildError {
    /// A human-readable description, one line per variant.
    pub fn message(&self) -> String {
        match self {
            BuildError::UnsupportedSpecVersion => "unsupported spec version".to_string(),
            BuildError::MissingResourceField => "missing resource field".to_string(),
            BuildError::UnknownCapabilityIdentifier => {
                "invalid capability identifier".to_string()
            },
            BuildError::DuplicateCapabilityName => {
                "cannot add capabilities of the same name".to_string()
            },
            BuildError::CapabilityAlreadyLinked => {
                "the capability was already linked".to_string()
            },
            BuildError::WrongCapabilityType => {
                "stored capability cannot be used at the requested type".to_string()
            },
            BuildError::GuestExecutionError => "guest entry point failed".to_string(),
            BuildError::SignalInstallationError => {
                "failed to install shutdown signal handler".to_string()
            },
        }
    }
}

} // verus!
