//! Kinds and small rules of the assistant subsystem that the core
//! classifies errors and providers with. The providers themselves are
//! outside collaborators.

use vstd::prelude::*;
use crate::strutil::{chars_of, lower_chars, spec_lower, str_eq, string_of};

verus! {

/// Failures of the assistant subsystem.
pub enum AiError {
    Disabled,
    NoApiKey,
    Forbidden,
    MonthlyLimitExceeded,
    DailyLimitExceeded,
    HipaaNotApproved,
    SoxReadOnly,
    MaintenanceMode(String),
    ProviderError(String),
    NetworkError(String),
    InvalidResponse,
    FileNotFound,
    ContentExtractionFailed,
    DatabaseError(String),
    InternalError,
}

impl AiError {
    /// A failure the caller brought about, logged as a warning rather
    /// than an error.
    pub open spec fn spec_is_user_error(&self) -> bool {
        match self {
            AiError::Disabled => true,
            AiError::NoApiKey => true,
            AiError::Forbidden => true,
            AiError::MonthlyLimitExceeded => true,
            AiError::DailyLimitExceeded => true,
            AiError::HipaaNotApproved => true,
            AiError::SoxReadOnly => true,
            AiError::MaintenanceMode(_) => true,
            _ => false,
        }
    }

    pub fn is_user_error(&self) -> (r: bool)
        ensures
            r == self.spec_is_user_error(),
    {
        match self {
            AiError::Disabled => true,
            AiError::NoApiKey => true,
            AiError::Forbidden => true,
            AiError::MonthlyLimitExceeded => true,
            AiError::DailyLimitExceeded => true,
            AiError::HipaaNotApproved => true,
            AiError::SoxReadOnly => true,
            AiError::MaintenanceMode(_) => true,
            _ => false,
        }
    }

    pub open spec fn spec_status_code(&self) -> u16 {
        match self {
            AiError::Disabled => 503,
            AiError::NoApiKey => 503,
            AiError::Forbidden => 403,
            AiError::HipaaNotApproved => 403,
            AiError::SoxReadOnly => 403,
            AiError::MonthlyLimitExceeded => 429,
            AiError::DailyLimitExceeded => 429,
            AiError::MaintenanceMode(_) => 503,
            AiError::FileNotFound => 404,
            _ => 500,
        }
    }

    /// The transport status the failure maps to.
    pub fn status_code(&self) -> (r: u16)
        ensures
            r == self.spec_status_code(),
    {
        match self {
            AiError::Disabled => 503,
            AiError::NoApiKey => 503,
            AiError::Forbidden => 403,
            AiError::HipaaNotApproved => 403,
            AiError::SoxReadOnly => 403,
            AiError::MonthlyLimitExceeded => 429,
            AiError::DailyLimitExceeded => 429,
            AiError::MaintenanceMode(_) => 503,
            AiError::FileNotFound => 404,
            _ => 500,
        }
    }
}

/// A completed assistant call: the text, the tokens it cost, the model.
pub struct AiResponse {
    pub content: String,
    pub tokens_used: u32,
    pub model: String,
}

/// The registry of provider names the platform can resolve.
pub struct ProviderRegistry;

impl ProviderRegistry {
    /// The provider names on offer.
    pub fn available_providers() -> (r: Vec<&'static str>)
        ensures
            r@.len() == 1,
            r@[0]@ == "openai"@,
    {
        let mut v: Vec<&'static str> = Vec::new();
        v.push("openai");
        v
    }

    /// Whether a provider, named without regard to ASCII case, is
    /// approved for the strictest health-data regime.
    pub fn is_hipaa_approved(name: &str) -> (r: bool)
        ensures
            r == (spec_lower(name@) == "openai"@),
    {
        let lowered = string_of(&lower_chars(&chars_of(name)));
        str_eq(lowered.as_str(), "openai")
    }
}

/// A semantic search request.
pub struct SearchRequest {
    pub query: String,
    pub limit: Option<i32>,
}

/// The assistant's answer envelope for a caller.
pub struct AiActionResponse {
    pub success: bool,
    pub content: Option<String>,
    pub error: Option<String>,
    pub tokens_used: Option<u32>,
}

/// A failure envelope for a caller.
pub struct AiErrorResponse {
    pub error: String,
    pub code: String,
}

/// Whether the assistant is on, and reachable for this caller.
pub struct AiStatusResponse {
    pub enabled: bool,
    pub has_access: bool,
    pub provider: Option<String>,
}

/// The outcome of a configuration probe.
pub struct TestConnectionResponse {
    pub success: bool,
}

/// The provider catalogue shown to administrators.
pub struct ProvidersResponse {
    pub providers: Vec<ProviderInfo>,
}

pub struct ProviderInfo {
    pub id: String,
    pub name: String,
    pub hipaa_approved: bool,
    pub models: Vec<String>,
}

} // verus!
