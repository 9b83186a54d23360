//! The logical file record: the catalog row that carries a file's identity,
//! its content address, its lock state and its lifecycle flags.

use vstd::prelude::*;
use crate::access::RoleLabel;
use crate::strutil::{seq_starts_with, spec_path_join};

verus! {

/// Equality of two optional identifiers.
pub fn opt_u64_eq(a: &Option<u64>, b: &Option<u64>) -> (r: bool)
    ensures
        r == (*a == *b),
{
    match (a, b) {
        (Option::Some(x), Option::Some(y)) => *x == *y,
        (Option::None, Option::None) => true,
        _ => false,
    }
}

/// Whether an optional identifier holds exactly `v`.
pub fn opt_u64_is(o: &Option<u64>, v: u64) -> (r: bool)
    ensures
        r == (*o == Some(v)),
{
    match o {
        Option::Some(x) => *x == v,
        Option::None => false,
    }
}

/// Who may list and read a record: the whole department, or the owner alone.
#[derive(Clone, Copy, PartialEq, Eq, Structural, Debug)]
pub enum Visibility {
    Department,
    Private,
}

/// One catalog row. Paths are slash-joined name chains; the empty parent
/// path is the root. Directories carry no content hash, no storage key and
/// no size of their own.
pub struct FileRecord {
    pub id: u64,
    pub tenant_id: u64,
    pub department_id: Option<u64>,
    pub parent_path: String,
    pub name: String,
    pub size_bytes: u64,
    pub content_type: String,
    pub is_directory: bool,
    pub owner_id: Option<u64>,
    pub visibility: Visibility,
    pub version: u32,
    pub version_parent_id: Option<u64>,
    pub is_immutable: bool,
    pub content_hash: String,
    pub storage_key: String,
    pub is_deleted: bool,
    pub deleted_at: Option<u64>,
    pub is_locked: bool,
    pub locked_by: Option<u64>,
    pub locked_at: Option<u64>,
    pub lock_password_hash: Option<String>,
    pub lock_requires_role: Option<RoleLabel>,
    pub is_company_folder: bool,
    /// The record group this row belongs to, if any.
    pub group_id: Option<u64>,
    pub created_at: u64,
    pub updated_at: u64,
}

impl FileRecord {
    /// Not soft-deleted.
    pub open spec fn live(&self) -> bool {
        !self.is_deleted
    }

    /// Structural soundness of a single row: a non-blank display name,
    /// directories own no bytes, an unlocked record carries no lock
    /// fields, a private record has an owner, a live record has no
    /// deletion stamp, and versions start at 1.
    pub open spec fn row_wf(&self) -> bool {
        &&& self.name@.len() > 0
        &&& (self.is_directory ==> self.content_hash@.len() == 0 && self.storage_key@.len() == 0
            && self.size_bytes == 0)
        &&& (!self.is_locked ==> self.locked_by is None && self.locked_at is None
            && self.lock_password_hash is None && self.lock_requires_role is None)
        &&& (self.visibility == Visibility::Private ==> self.owner_id is Some)
        &&& (!self.is_deleted ==> self.deleted_at is None)
        &&& (self.is_deleted ==> self.deleted_at is Some)
        &&& self.version >= 1
    }

    /// The record's own effective path: its parent path extended by its
    /// name.
    pub open spec fn spec_path(&self) -> Seq<char> {
        spec_path_join(self.parent_path@, self.name@)
    }

    /// The record sits somewhere strictly below the directory whose
    /// effective path is `dir_path`: directly inside it, or deeper.
    pub open spec fn under_path(&self, dir_path: Seq<char>) -> bool {
        self.parent_path@ == dir_path || seq_starts_with(
            self.parent_path@,
            dir_path + seq!['/'],
        )
    }

    /// Two rows share the scope that bounds display-name uniqueness:
    /// tenant, department, parent path and visibility.
    pub open spec fn same_name_scope(&self, other: &FileRecord) -> bool {
        &&& self.tenant_id == other.tenant_id
        &&& self.department_id == other.department_id
        &&& self.parent_path@ == other.parent_path@
        &&& self.visibility == other.visibility
    }

    /// Two rows share the scope that bounds deduplication: tenant and
    /// department.
    pub open spec fn same_dedup_scope(&self, other: &FileRecord) -> bool {
        &&& self.tenant_id == other.tenant_id
        &&& self.department_id == other.department_id
    }

    /// A row that takes part in display-name uniqueness: live, a file
    /// rather than a directory, and not an immutable superseded version.
    /// Superseded versions keep their display name by design, and they are
    /// exactly the immutable rows.
    pub open spec fn names_count(&self) -> bool {
        self.live() && !self.is_directory && !self.is_immutable
    }

    /// The record's effective path, executable form.
    pub fn path(&self) -> (r: String)
        ensures
            r@ == self.spec_path(),
    {
        crate::strutil::path_join(self.parent_path.as_str(), self.name.as_str())
    }
}

} // verus!
