//! The ways a cleanup run can fail.

use vstd::prelude::*;

verus! {

/// The step of a run during which an I/O failure was met.
#[derive(Debug, Clone, Copy, PartialEq, Eq)]
pub enum IoStage {
    /// The manifest could not be read to its end.
    ReadingManifest,
    /// The size of a directory could not be determined.
    MeasuringSize,
}

/// Every failure is fatal: a run either completes or stops at the first of these.
#[derive(Debug, Clone, PartialEq, Eq)]
pub enum CleanupError {
    /// A command-line token that is no known flag; carries the token.
    InvalidArgument(String),
    /// The manifest path does not exist.
    ManifestNotFound,
    /// Reading the manifest or measuring a directory failed.
    IoError(IoStage),
    /// A directory tree could not be deleted.
    DeletionError,
    /// The working directory could not be resolved.
    EnvironmentError,
}

impl CleanupError {
    /// The diagnostic text of this failure.
    pub open spec fn message_text(self) -> Seq<char> {
        match self {
            CleanupError::InvalidArgument(token) => "Invalid flags provided: "@ + token@,
            CleanupError::ManifestNotFound => "Invalid file source provided"@,
            CleanupError::IoError(IoStage::ReadingManifest) => "Could not determine directories to remove"@,
            CleanupError::IoError(IoStage::MeasuringSize) => "Indeterminable size"@,
            CleanupError::DeletionError => "Error removing"@,
            CleanupError::EnvironmentError => "Could not determine root directory"@,
        }
    }

    /// Renders the diagnostic that is shown before the process stops.
    pub fn message(&self) -> (text: String)
        ensures
            text@ == self.message_text(),
    {
        match self {
            CleanupError::InvalidArgument(token) => {
                "Invalid flags provided: ".to_owned().concat(token.as_str())
            },
            CleanupError::ManifestNotFound => "Invalid file source provided".to_owned(),
            CleanupError::IoError(IoStage::ReadingManifest) => {
                "Could not determine directories to remove".to_owned()
            },
            CleanupError::IoError(IoStage::MeasuringSize) => "Indeterminable size".to_owned(),
            CleanupError::DeletionError => "Error removing".to_owned(),
            CleanupError::EnvironmentError => "Could not determine root directory".to_owned(),
        }
    }
}

} // verus!
