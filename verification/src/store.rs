//! The store a request operates on: the catalog of records and the object
//! backend, plus the small per-tenant configuration projection the
//! handlers read.

use vstd::prelude::*;
use crate::backend::Backend;
use crate::catalog::Catalog;
use crate::compliance::ComplianceMode;

verus! {

/// The two authoritative state components every handler threads through.
pub struct Store {
    pub catalog: Catalog,
    pub backend: Backend,
}

impl Store {
    pub open spec fn wf(&self) -> bool {
        self.catalog.wf() && self.backend.wf()
    }

    /// An empty store.
    pub fn new() -> (s: Store)
        ensures
            s.wf(),
            s.catalog@.len() == 0,
            s.catalog.next_id == 1,
            s.backend@.len() == 0,
    {
        Store { catalog: Catalog::new(), backend: Backend::new() }
    }
}

/// The readable per-tenant configuration projection: compliance mode,
/// blocked extensions and transfer limits.
pub struct TenantConfig {
    pub compliance_mode: ComplianceMode,
    pub blocked_extensions: Vec<String>,
    pub storage_quota_bytes: Option<u64>,
    pub max_upload_size_bytes: Option<u64>,
}

impl TenantConfig {
    /// A tenant with no restrictions at all.
    pub fn unrestricted() -> (c: TenantConfig)
        ensures
            c.compliance_mode == ComplianceMode::Standard,
            c.blocked_extensions@.len() == 0,
            c.storage_quota_bytes is None,
            c.max_upload_size_bytes is None,
    {
        TenantConfig {
            compliance_mode: ComplianceMode::Standard,
            blocked_extensions: Vec::new(),
            storage_quota_bytes: None,
            max_upload_size_bytes: None,
        }
    }
}

} // verus!
