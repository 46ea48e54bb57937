//! Error taxonomy shared by the query surface and the ingestion jobs.

use vstd::prelude::*;

verus! {

/// Error type of the mirror's service layer.
#[derive(Debug, Clone, PartialEq, Eq)]
pub enum ApiError {
    Database(String),
    Validation { field: String, message: String },
    ExternalApi(String),
    Embedding(String),
    Config(String),
    NotFound { resource: String, id: String },
    RateLimit { retry_after: u64, message: String },
}

impl ApiError {
    /// HTTP status that each variant maps to when rendered as a response.
    pub fn status_code(&self) -> (r: u16)
        ensures
            r == match self {
                ApiError::Database(_) => 500u16,
                ApiError::Validation { .. } => 400u16,
                ApiError::ExternalApi(_) => 502u16,
                ApiError::Embedding(_) => 500u16,
                ApiError::Config(_) => 500u16,
                ApiError::NotFound { .. } => 404u16,
                ApiError::RateLimit { .. } => 429u16,
            },
    {
        match self {
            ApiError::Database(_) => 500,
            ApiError::Validation { .. } => 400,
            ApiError::ExternalApi(_) => 502,
            ApiError::Embedding(_) => 500,
            ApiError::Config(_) => 500,
            ApiError::NotFound { .. } => 404,
            ApiError::RateLimit { .. } => 429,
        }
    }

    /// Stable machine-readable code that each variant maps to.
    pub fn error_code(&self) -> (r: String)
        ensures
            r@ == match self {
                ApiError::Database(_) => "DB_ERROR"@,
                ApiError::Validation { .. } => "VALIDATION_ERROR"@,
                ApiError::ExternalApi(_) => "EXTERNAL_API_ERROR"@,
                ApiError::Embedding(_) => "EMBEDDING_ERROR"@,
                ApiError::Config(_) => "CONFIG_ERROR"@,
                ApiError::NotFound { .. } => "NOT_FOUND"@,
                ApiError::RateLimit { .. } => "RATE_LIMITED"@,
            },
    {
        match self {
            ApiError::Database(_) => String::from_str("DB_ERROR"),
            ApiError::Validation { .. } => String::from_str("VALIDATION_ERROR"),
            ApiError::ExternalApi(_) => String::from_str("EXTERNAL_API_ERROR"),
            ApiError::Embedding(_) => String::from_str("EMBEDDING_ERROR"),
            ApiError::Config(_) => String::from_str("CONFIG_ERROR"),
            ApiError::NotFound { .. } => String::from_str("NOT_FOUND"),
            ApiError::RateLimit { .. } => String::from_str("RATE_LIMITED"),
        }
    }
}

/// Error type of the job pipeline.
#[derive(Debug, Clone, PartialEq, Eq)]
pub enum JobError {
    Database(String),
    ExternalApi(String),
    Embedding(String),
    Io(String),
    Other(String),
}

/// The sentinel message by which a continuous job reports that it found
/// nothing to do. It is a control signal, not a failure.
pub open spec fn spec_is_no_work(e: JobError) -> bool {
    match e {
        JobError::Other(m) => m@ == "no_work"@,
        _ => false,
    }
}

/// Builds the `no_work` control signal.
pub fn no_work_error() -> (r: JobError)
    ensures
        spec_is_no_work(r),
{
    JobError::Other(String::from_str("no_work"))
}

/// Recognizes the `no_work` control signal.
pub fn is_no_work(e: &JobError) -> (r: bool)
    ensures
        r == spec_is_no_work(*e),
{
    match e {
        JobError::Other(m) => {
            let sentinel = String::from_str("no_work");
            *m == sentinel
        },
        _ => false,
    }
}

} // verus!
