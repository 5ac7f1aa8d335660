//! The failures of the installer and launcher.
//!
//! Every failure is final: it is reported to the user and ends the process with
//! a non-zero status. Nothing is retried and nothing is rolled back.

use vstd::prelude::*;
use vstd::string::StringExecFns;

verus! {

/// Why the installer or the launch gave up.
#[derive(Debug, PartialEq, Eq)]
pub enum WrapperError {
    /// The embedded release metadata could not be understood.
    MetadataCorrupted,
    /// Neither an override nor a per-user data directory names a place to install to.
    CannotComputeInstallDir,
    /// The embedded payload is not a compressed archive.
    PayloadDecompressFailed,
    /// A record's path does not name a file inside the install directory.
    ExtractInvalidInstallDir,
    /// The directories above a file could not be created.
    ExtractMkdirFailed(String),
    /// A file could not be created or its content could not be written.
    ExtractFileWriteFailed(String),
    /// The permission bits of a file could not be set.
    ExtractChmodFailed(String),
    /// The installed application could not be started.
    LaunchFailed(String),
}

/// The mathematical value of a [`WrapperError`].
pub enum ErrorModel {
    MetadataCorrupted,
    CannotComputeInstallDir,
    PayloadDecompressFailed,
    ExtractInvalidInstallDir,
    ExtractMkdirFailed(Seq<char>),
    ExtractFileWriteFailed(Seq<char>),
    ExtractChmodFailed(Seq<char>),
    LaunchFailed(Seq<char>),
}

impl View for WrapperError {
    type V = ErrorModel;

    open spec fn view(&self) -> ErrorModel {
        match self {
            WrapperError::MetadataCorrupted => ErrorModel::MetadataCorrupted,
            WrapperError::CannotComputeInstallDir => ErrorModel::CannotComputeInstallDir,
            WrapperError::PayloadDecompressFailed => ErrorModel::PayloadDecompressFailed,
            WrapperError::ExtractInvalidInstallDir => ErrorModel::ExtractInvalidInstallDir,
            WrapperError::ExtractMkdirFailed(cause) => ErrorModel::ExtractMkdirFailed(cause@),
            WrapperError::ExtractFileWriteFailed(cause) => ErrorModel::ExtractFileWriteFailed(
                cause@,
            ),
            WrapperError::ExtractChmodFailed(cause) => ErrorModel::ExtractChmodFailed(cause@),
            WrapperError::LaunchFailed(cause) => ErrorModel::LaunchFailed(cause@),
        }
    }
}

impl ErrorModel {
    /// The line shown to the user for this failure.
    pub open spec fn message(self) -> Seq<char> {
        match self {
            ErrorModel::MetadataCorrupted => "release metadata is corrupted"@,
            ErrorModel::CannotComputeInstallDir => "cannot compute the install directory"@,
            ErrorModel::PayloadDecompressFailed => "payload could not be decompressed"@,
            ErrorModel::ExtractInvalidInstallDir => "invalid install directory"@,
            ErrorModel::ExtractMkdirFailed(cause) => "could not create directory: "@ + cause,
            ErrorModel::ExtractFileWriteFailed(cause) => "could not write file: "@ + cause,
            ErrorModel::ExtractChmodFailed(cause) => "could not set permissions: "@ + cause,
            ErrorModel::LaunchFailed(cause) => "could not launch the application: "@ + cause,
        }
    }
}

impl WrapperError {
    /// The line shown to the user for this failure.
    pub fn message(&self) -> (text: String)
        ensures
            text@ == self@.message(),
    {
        match self {
            WrapperError::MetadataCorrupted => String::from_str("release metadata is corrupted"),
            WrapperError::CannotComputeInstallDir => String::from_str(
                "cannot compute the install directory",
            ),
            WrapperError::PayloadDecompressFailed => String::from_str(
                "payload could not be decompressed",
            ),
            WrapperError::ExtractInvalidInstallDir => String::from_str("invalid install directory"),
            WrapperError::ExtractMkdirFailed(cause) => String::from_str(
                "could not create directory: ",
            ).concat(cause.as_str()),
            WrapperError::ExtractFileWriteFailed(cause) => String::from_str(
                "could not write file: ",
            ).concat(cause.as_str()),
            WrapperError::ExtractChmodFailed(cause) => String::from_str(
                "could not set permissions: ",
            ).concat(cause.as_str()),
            WrapperError::LaunchFailed(cause) => String::from_str(
                "could not launch the application: ",
            ).concat(cause.as_str()),
        }
    }
}

impl Clone for WrapperError {
    fn clone(&self) -> (copy: Self)
        ensures
            copy@ == self@,
    {
        match self {
            WrapperError::MetadataCorrupted => WrapperError::MetadataCorrupted,
            WrapperError::CannotComputeInstallDir => WrapperError::CannotComputeInstallDir,
            WrapperError::PayloadDecompressFailed => WrapperError::PayloadDecompressFailed,
            WrapperError::ExtractInvalidInstallDir => WrapperError::ExtractInvalidInstallDir,
            WrapperError::ExtractMkdirFailed(cause) => WrapperError::ExtractMkdirFailed(
                cause.clone(),
            ),
            WrapperError::ExtractFileWriteFailed(cause) => WrapperError::ExtractFileWriteFailed(
                cause.clone(),
            ),
            WrapperError::ExtractChmodFailed(cause) => WrapperError::ExtractChmodFailed(
                cause.clone(),
            ),
            WrapperError::LaunchFailed(cause) => WrapperError::LaunchFailed(cause.clone()),
        }
    }
}

} // verus!
