//! The ways in which making the acknowledgements can fail.

use vstd::prelude::*;

verus! {

/// Why the acknowledgements could not be made. Each failure ends the whole
/// run; its message says what to do about it.
#[derive(Debug, Clone)]
pub enum AcknowledgementsError {
    /// The home directory is not known and no other place is configured.
    HomeDirectoryUnavailable,
    /// No artifacts directory exists for the application.
    NoArtifactsFound,
    /// The search for artifacts directories could not be made; holds the
    /// cause.
    ArtifactsSearchError(String),
    /// The manifest could not be read; holds the cause.
    ManifestReadError(String),
    /// The manifest does not have the expected shape; holds the cause.
    ManifestParseError(String),
    /// The checkouts directory is missing; holds its path.
    ChecksoutDirMissing(String),
    /// A directory could not be listed; holds the cause.
    DirReadError(String),
    /// A license file could not be read; holds the cause.
    LicenseReadError(String),
    /// The report could not be encoded.
    SerializationError,
    /// The report could not be written; holds the path.
    WriteError(String),
}

impl AcknowledgementsError {
    /// The message of the failure.
    pub open spec fn message(self) -> Seq<char> {
        match self {
            AcknowledgementsError::HomeDirectoryUnavailable => "Failed to load home directory"@,
            AcknowledgementsError::NoArtifactsFound => "Could not find any DerivedData for project, make sure to build at least once"@,
            AcknowledgementsError::ArtifactsSearchError(cause) => "Failed to search through derived data; error="@
                + cause@,
            AcknowledgementsError::ManifestReadError(cause) => "Failed to read workspace-state.json; error='"@
                + cause@ + "'"@,
            AcknowledgementsError::ManifestParseError(cause) => "Failed to parse workspace-state.json; error='"@
                + cause@ + "'"@,
            AcknowledgementsError::ChecksoutDirMissing(path) => "Failed to read packages directory contents; directory does not exist: "@
                + path@,
            AcknowledgementsError::DirReadError(cause) => "Failed to read packages directory contents; error='"@
                + cause@ + "'"@,
            AcknowledgementsError::LicenseReadError(cause) => "Failed to read license; error='"@
                + cause@ + "'"@,
            AcknowledgementsError::SerializationError => "Failed to serialize acknowledgements to JSON"@,
            AcknowledgementsError::WriteError(path) => "Failed to write acknowledgements to file: "@
                + path@,
        }
    }

    /// The message of the failure.
    pub fn to_string(&self) -> (out: String)
        ensures
            out@ == self.message(),
    {
        match self {
            AcknowledgementsError::HomeDirectoryUnavailable => String::from_str(
                "Failed to load home directory",
            ),
            AcknowledgementsError::NoArtifactsFound => String::from_str(
                "Could not find any DerivedData for project, make sure to build at least once",
            ),
            AcknowledgementsError::ArtifactsSearchError(cause) => String::from_str(
                "Failed to search through derived data; error=",
            ).concat(cause.as_str()),
            AcknowledgementsError::ManifestReadError(cause) => String::from_str(
                "Failed to read workspace-state.json; error='",
            ).concat(cause.as_str()).concat("'"),
            AcknowledgementsError::ManifestParseError(cause) => String::from_str(
                "Failed to parse workspace-state.json; error='",
            ).concat(cause.as_str()).concat("'"),
            AcknowledgementsError::ChecksoutDirMissing(path) => String::from_str(
                "Failed to read packages directory contents; directory does not exist: ",
            ).concat(path.as_str()),
            AcknowledgementsError::DirReadError(cause) => String::from_str(
                "Failed to read packages directory contents; error='",
            ).concat(cause.as_str()).concat("'"),
            AcknowledgementsError::LicenseReadError(cause) => String::from_str(
                "Failed to read license; error='",
            ).concat(cause.as_str()).concat("'"),
            AcknowledgementsError::SerializationError => String::from_str(
                "Failed to serialize acknowledgements to JSON",
            ),
            AcknowledgementsError::WriteError(path) => String::from_str(
                "Failed to write acknowledgements to file: ",
            ).concat(path.as_str()),
        }
    }
}

} // verus!
