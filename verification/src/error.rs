//! The ways in which a command can be refused.

use vstd::prelude::*;

verus! {

/// Why a publication or a change of the registry was refused.
#[derive(Debug, Clone, Copy, PartialEq, Eq, Structural)]
pub enum PublishError {
    /// The document declares no date, and the creation time of its file is
    /// not known.
    CreationDateUnavailable,
    /// The target's file name is not of the form `{date}-{slug}` from which
    /// its image directory is named.
    InvalidTargetFilename,
    /// The source to register does not exist.
    SourceMissing,
    /// The source to register is already the source of a mapping.
    AlreadyRegistered,
    /// The path to deregister has no file name.
    InvalidSourcePath,
    /// No mapping has a source with the file name to deregister.
    NotRegistered,
}

impl PublishError {
    /// The message shown for this error.
    pub open spec fn text(self) -> Seq<char> {
        match self {
            PublishError::CreationDateUnavailable => "Creation date of the source file is not known"@,
            PublishError::InvalidTargetFilename => "Invalid target file name"@,
            PublishError::SourceMissing => "Source path does not exist"@,
            PublishError::AlreadyRegistered => "Source path already exists in config"@,
            PublishError::InvalidSourcePath => "Invalid source path"@,
            PublishError::NotRegistered => "Source file not found in config"@,
        }
    }

    /// The message shown for this error.
    pub fn message(&self) -> (m: String)
        ensures
            m@ == self.text(),
    {
        let text = match self {
            PublishError::CreationDateUnavailable => "Creation date of the source file is not known",
            PublishError::InvalidTargetFilename => "Invalid target file name",
            PublishError::SourceMissing => "Source path does not exist",
            PublishError::AlreadyRegistered => "Source path already exists in config",
            PublishError::InvalidSourcePath => "Invalid source path",
            PublishError::NotRegistered => "Source file not found in config",
        };
        text.to_owned()
    }
}

} // verus!
