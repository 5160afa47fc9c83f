//! The failures that the upload pipeline reports.

use vstd::prelude::*;

verus! {

/// Why an operation of the pipeline did not succeed. None is retried
/// automatically; each is handed to the caller as it is.
#[derive(Debug, PartialEq, Eq)]
pub enum PipelineError {
    /// The source path does not exist. Holds the path.
    NotFound(String),
    /// The source path is a directory; directories are never walked.
    UnsupportedInput,
    /// A required setting is absent. Holds the setting's key.
    MissingConfig(String),
    /// A signed URL was asked for and no signing secret is stored.
    MissingSigningSecret,
    /// The overwrite guard found an object under the derived key.
    AlreadyExists,
    /// The overwrite guard's probe failed otherwise. Holds the cause.
    ProbeFailed(String),
    /// The source file could not be read for sending. Holds the cause.
    SourceUnreadable(String),
    /// The object store refused or lost the write. Holds the cause.
    UploadFailed(String),
    /// The clock gave no time for an expiry, or no date for a date folder.
    /// Holds the cause.
    ClockFailed(String),
    /// The bucket could not be reached with the stored credentials.
    ConnectionFailed(String),
    /// The stored secrets could not be parsed. Holds the cause.
    SecretsCorrupt(String),
    /// The secure store failed. Holds the whole message.
    KeyringError(String),
}

/// A failure with its texts as plain sequences: what contracts speak of.
pub ghost enum Failure {
    NotFound(Seq<char>),
    UnsupportedInput,
    MissingConfig(Seq<char>),
    MissingSigningSecret,
    AlreadyExists,
    ProbeFailed(Seq<char>),
    SourceUnreadable(Seq<char>),
    UploadFailed(Seq<char>),
    ClockFailed(Seq<char>),
    ConnectionFailed(Seq<char>),
    SecretsCorrupt(Seq<char>),
    KeyringError(Seq<char>),
}

impl View for PipelineError {
    type V = Failure;

    open spec fn view(&self) -> Failure {
        match *self {
            PipelineError::NotFound(path) => Failure::NotFound(path@),
            PipelineError::UnsupportedInput => Failure::UnsupportedInput,
            PipelineError::MissingConfig(field) => Failure::MissingConfig(field@),
            PipelineError::MissingSigningSecret => Failure::MissingSigningSecret,
            PipelineError::AlreadyExists => Failure::AlreadyExists,
            PipelineError::ProbeFailed(cause) => Failure::ProbeFailed(cause@),
            PipelineError::SourceUnreadable(cause) => Failure::SourceUnreadable(cause@),
            PipelineError::UploadFailed(cause) => Failure::UploadFailed(cause@),
            PipelineError::ClockFailed(cause) => Failure::ClockFailed(cause@),
            PipelineError::ConnectionFailed(cause) => Failure::ConnectionFailed(cause@),
            PipelineError::SecretsCorrupt(cause) => Failure::SecretsCorrupt(cause@),
            PipelineError::KeyringError(message) => Failure::KeyringError(message@),
        }
    }
}

/// A result with both sides as plain values.
pub open spec fn outcome<T: View>(r: Result<T, PipelineError>) -> Result<T::V, Failure> {
    match r {
        Ok(v) => Ok(v@),
        Err(e) => Err(e@),
    }
}

impl Failure {
    /// The text shown to the user for this failure.
    pub open spec fn message(self) -> Seq<char> {
        match self {
            Failure::NotFound(path) => "File not found: "@ + path,
            Failure::UnsupportedInput =>
                "Directories are not supported. Drop individual files instead."@,
            Failure::MissingConfig(field) => "Missing "@ + field,
            Failure::MissingSigningSecret => "TOKEN_SECRET is required for dynamic token mode"@,
            Failure::AlreadyExists => "File already exists (overwrite is disabled)"@,
            Failure::ProbeFailed(cause) => "Failed to check existing file: "@ + cause,
            Failure::SourceUnreadable(cause) => "Failed to read file: "@ + cause,
            Failure::UploadFailed(cause) => "Upload failed: "@ + cause,
            Failure::ClockFailed(cause) => cause,
            Failure::ConnectionFailed(cause) => "Connection failed: "@ + cause,
            Failure::SecretsCorrupt(cause) => "Secrets parse error: "@ + cause,
            Failure::KeyringError(message) => message,
        }
    }
}

impl PipelineError {
    /// Renders the failure for the user.
    pub fn message(&self) -> (text: String)
        ensures
            text@ == self@.message(),
    {
        match self {
            PipelineError::NotFound(path) => prefixed("File not found: ", path),
            PipelineError::UnsupportedInput =>
                "Directories are not supported. Drop individual files instead.".to_owned(),
            PipelineError::MissingConfig(field) => prefixed("Missing ", field),
            PipelineError::MissingSigningSecret =>
                "TOKEN_SECRET is required for dynamic token mode".to_owned(),
            PipelineError::AlreadyExists => "File already exists (overwrite is disabled)".to_owned(),
            PipelineError::ProbeFailed(cause) => prefixed("Failed to check existing file: ", cause),
            PipelineError::SourceUnreadable(cause) => prefixed("Failed to read file: ", cause),
            PipelineError::UploadFailed(cause) => prefixed("Upload failed: ", cause),
            PipelineError::ClockFailed(cause) => cause.clone(),
            PipelineError::ConnectionFailed(cause) => prefixed("Connection failed: ", cause),
            PipelineError::SecretsCorrupt(cause) => prefixed("Secrets parse error: ", cause),
            PipelineError::KeyringError(message) => message.clone(),
        }
    }
}

/// `prefix` followed by `rest`, as a new string.
pub(crate) fn prefixed(prefix: &str, rest: &str) -> (text: String)
    ensures
        text@ == prefix@ + rest@,
{
    let mut text = prefix.to_owned();
    text.append(rest);
    text
}

} // verus!
