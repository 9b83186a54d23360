//! Per-tenant compliance modes and the restrictions derived from them.

use vstd::prelude::*;

verus! {

/// The compliance regime a tenant runs under.
#[derive(Clone, Copy, PartialEq, Eq, Structural, Debug)]
pub enum ComplianceMode {
    Standard,
    Hipaa,
    Sox,
    Gdpr,
}

/// Restrictions derived from a compliance mode. They are computed, never
/// stored per request.
#[derive(Clone, Copy, PartialEq, Eq, Structural, Debug)]
pub struct ComplianceRestrictions {
    /// Public share links are refused.
    pub public_sharing_blocked: bool,
    /// A rewrite of an existing logical name must create a new immutable
    /// version instead of renaming the newcomer.
    pub file_versioning_required: bool,
    /// File events are audited whether or not the tenant asked for it.
    pub audit_log_forced: bool,
    /// Every export of file bytes must be logged.
    pub export_logging_required: bool,
    /// Audit settings cannot be switched off.
    pub audit_toggles_frozen: bool,
}

impl ComplianceRestrictions {
    pub open spec fn spec_for_mode(mode: ComplianceMode) -> ComplianceRestrictions {
        match mode {
            ComplianceMode::Standard => ComplianceRestrictions {
                public_sharing_blocked: false,
                file_versioning_required: false,
                audit_log_forced: false,
                export_logging_required: false,
                audit_toggles_frozen: false,
            },
            ComplianceMode::Hipaa => ComplianceRestrictions {
                public_sharing_blocked: true,
                file_versioning_required: false,
                audit_log_forced: true,
                export_logging_required: false,
                audit_toggles_frozen: false,
            },
            ComplianceMode::Sox => ComplianceRestrictions {
                public_sharing_blocked: false,
                file_versioning_required: true,
                audit_log_forced: true,
                export_logging_required: false,
                audit_toggles_frozen: true,
            },
            ComplianceMode::Gdpr => ComplianceRestrictions {
                public_sharing_blocked: true,
                file_versioning_required: false,
                audit_log_forced: false,
                export_logging_required: true,
                audit_toggles_frozen: false,
            },
        }
    }

    /// The restriction set a mode implies.
    pub fn for_mode(mode: ComplianceMode) -> (r: ComplianceRestrictions)
        ensures
            r == Self::spec_for_mode(mode),
    {
        match mode {
            ComplianceMode::Standard => ComplianceRestrictions {
                public_sharing_blocked: false,
                file_versioning_required: false,
                audit_log_forced: false,
                export_logging_required: false,
                audit_toggles_frozen: false,
            },
            ComplianceMode::Hipaa => ComplianceRestrictions {
                public_sharing_blocked: true,
                file_versioning_required: false,
                audit_log_forced: true,
                export_logging_required: false,
                audit_toggles_frozen: false,
            },
            ComplianceMode::Sox => ComplianceRestrictions {
                public_sharing_blocked: false,
                file_versioning_required: true,
                audit_log_forced: true,
                export_logging_required: false,
                audit_toggles_frozen: true,
            },
            ComplianceMode::Gdpr => ComplianceRestrictions {
                public_sharing_blocked: true,
                file_versioning_required: false,
                audit_log_forced: false,
                export_logging_required: true,
                audit_toggles_frozen: false,
            },
        }
    }
}

} // verus!
