//! Error kinds the core distinguishes.

use vstd::prelude::*;

verus! {

/// Outcome classes for every catalog, store and gateway operation.
#[derive(Clone, Copy, PartialEq, Eq, Structural, Debug)]
pub enum CoreError {
    /// Record or backend object absent.
    NotFound,
    /// The access engine denied the request.
    Forbidden,
    /// The lock gate denied a write.
    Locked,
    /// The immutability flag denied a write.
    Immutable,
    /// The name-uniqueness invariant would be violated.
    Duplicate,
    /// The tenant's storage quota would be exceeded.
    QuotaExceeded,
    /// A single upload above the tenant's size limit.
    TooLarge,
    /// The tenant's blocked-extension list matched the name.
    BlockedExtension,
    /// A compliance overlay refused the request.
    ComplianceBlock,
    /// A lock password did not verify.
    WrongPassword,
    /// A share token past its expiry.
    Expired,
    /// A display name the catalog refuses: empty, a dot name, or one with
    /// a forbidden character.
    InvalidName,
    /// The object backend failed transiently.
    BackendUnavailable,
    /// Catch-all for internal faults.
    Internal,
}

impl CoreError {
    /// A stable label for each error kind.
    pub fn label(&self) -> (s: &'static str)
        ensures
            s@ == self.spec_label(),
    {
        match self {
            CoreError::NotFound => "not_found",
            CoreError::Forbidden => "forbidden",
            CoreError::Locked => "locked",
            CoreError::Immutable => "immutable",
            CoreError::Duplicate => "duplicate",
            CoreError::QuotaExceeded => "quota_exceeded",
            CoreError::TooLarge => "too_large",
            CoreError::BlockedExtension => "blocked_extension",
            CoreError::ComplianceBlock => "compliance_block",
            CoreError::WrongPassword => "wrong_password",
            CoreError::Expired => "expired",
            CoreError::InvalidName => "invalid_name",
            CoreError::BackendUnavailable => "backend_unavailable",
            CoreError::Internal => "internal",
        }
    }

    pub open spec fn spec_label(&self) -> Seq<char> {
        match self {
            CoreError::NotFound => "not_found"@,
            CoreError::Forbidden => "forbidden"@,
            CoreError::Locked => "locked"@,
            CoreError::Immutable => "immutable"@,
            CoreError::Duplicate => "duplicate"@,
            CoreError::QuotaExceeded => "quota_exceeded"@,
            CoreError::TooLarge => "too_large"@,
            CoreError::BlockedExtension => "blocked_extension"@,
            CoreError::ComplianceBlock => "compliance_block"@,
            CoreError::WrongPassword => "wrong_password"@,
            CoreError::Expired => "expired"@,
            CoreError::InvalidName => "invalid_name"@,
            CoreError::BackendUnavailable => "backend_unavailable"@,
            CoreError::Internal => "internal"@,
        }
    }
}

} // verus!
