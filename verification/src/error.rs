//! The errors that end a run.
use vstd::prelude::*;

verus! {

/// Why a run failed. Every variant is fatal: nothing is retried and nothing
/// already written is taken back.
#[derive(Clone, Debug, PartialEq, Eq)]
pub enum ProgramError {
    /// The root package, or a package that the closure depends on, is not in
    /// the index. Holds the name that was not found.
    MissingDependency(String),
    /// The archive of a package could not be fetched.
    DownloadFailure { package: String, cause: String },
    /// The archive of a package could not be listed (`entry` is `None`), or
    /// one of its entries could not be decoded.
    ExtractionFailure { package: String, entry: Option<String>, cause: String },
    /// A directory could not be created or a file could not be written.
    FilesystemFailure { path: String, cause: String },
}

/// The text that describes an error to the user.
pub open spec fn message_spec(error: ProgramError) -> Seq<char> {
    match error {
        ProgramError::MissingDependency(name) => "Package "@ + name@ + " not found"@,
        ProgramError::DownloadFailure { package, cause } => "Package "@ + package@
            + " could not be downloaded: "@ + cause@,
        ProgramError::ExtractionFailure { package, entry: Some(entry), cause } => "Entry "@
            + entry@ + " of package "@ + package@ + " could not be extracted: "@ + cause@,
        ProgramError::ExtractionFailure { package, entry: None, cause } => "Archive of package "@
            + package@ + " could not be read: "@ + cause@,
        ProgramError::FilesystemFailure { path, cause } => "File "@ + path@
            + " could not be written: "@ + cause@,
    }
}

impl ProgramError {
    /// Describes the error with the package, entry or path it is about.
    pub fn message(&self) -> (text: String)
        ensures
            text@ == message_spec(*self),
    {
        match self {
            ProgramError::MissingDependency(name) => {
                String::from_str("Package ").concat(name.as_str()).concat(" not found")
            },
            ProgramError::DownloadFailure { package, cause } => {
                String::from_str("Package ").concat(package.as_str()).concat(
                    " could not be downloaded: ",
                ).concat(cause.as_str())
            },
            ProgramError::ExtractionFailure { package, entry: Some(entry), cause } => {
                String::from_str("Entry ").concat(entry.as_str()).concat(" of package ").concat(
                    package.as_str(),
                ).concat(" could not be extracted: ").concat(cause.as_str())
            },
            ProgramError::ExtractionFailure { package, entry: None, cause } => {
                String::from_str("Archive of package ").concat(package.as_str()).concat(
                    " could not be read: ",
                ).concat(cause.as_str())
            },
            ProgramError::FilesystemFailure { path, cause } => {
                String::from_str("File ").concat(path.as_str()).concat(
                    " could not be written: ",
                ).concat(cause.as_str())
            },
        }
    }
}

} // verus!
