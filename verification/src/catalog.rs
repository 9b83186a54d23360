//! The metadata catalog: the authoritative table of logical file records,
//! with its two governing invariants — well-formed rows with unique
//! identifiers, and display-name uniqueness per scope among the live,
//! mutable, non-directory rows.

use vstd::prelude::*;
use crate::access::RoleLabel;
use crate::errors::CoreError;
use crate::records::{opt_u64_eq, FileRecord, Visibility};
use crate::strutil::{path_join, str_eq, str_starts_with, str_suffix_from};

verus! {

/// The relational store of logical file records.
pub struct Catalog {
    pub records: Vec<FileRecord>,
    /// The next identifier to hand out; every stored id is below it.
    pub next_id: u64,
}

impl Catalog {
    pub open spec fn view(&self) -> Seq<FileRecord> {
        self.records@
    }

    /// Rows are well formed, identifiers are unique and below `next_id`.
    pub open spec fn rows_wf(&self) -> bool {
        &&& forall|i: int| 0 <= i < self@.len() ==> (#[trigger] self@[i]).row_wf()
        &&& forall|i: int| 0 <= i < self@.len() ==> (#[trigger] self@[i]).id < self.next_id
        &&& forall|i: int, j: int|
            0 <= i < self@.len() && 0 <= j < self@.len() && i != j ==> (#[trigger] self@[i]).id
                != (#[trigger] self@[j]).id
    }

    /// Display-name uniqueness: two distinct live, mutable, non-directory
    /// rows in the same scope never share a name. Superseded versions are
    /// immutable and exempt by design.
    pub open spec fn names_unique(&self) -> bool {
        forall|i: int, j: int|
            0 <= i < self@.len() && 0 <= j < self@.len() && i != j
                && (#[trigger] self@[i]).names_count() && (#[trigger] self@[j]).names_count()
                && self@[i].same_name_scope(&self@[j]) ==> self@[i].name@ != self@[j].name@
    }

    pub open spec fn wf(&self) -> bool {
        self.rows_wf() && self.names_unique()
    }

    /// An empty catalog.
    pub fn new() -> (c: Catalog)
        ensures
            c.wf(),
            c@.len() == 0,
            c.next_id == 1,
    {
        Catalog { records: Vec::new(), next_id: 1 }
    }

    /// The index of the record with identifier `id` in tenant `tenant_id`,
    /// if present.
    pub fn index_of(&self, tenant_id: u64, id: u64) -> (r: Option<usize>)
        ensures
            match r {
                Option::Some(i) => i < self@.len() && self@[i as int].id == id
                    && self@[i as int].tenant_id == tenant_id,
                Option::None => forall|i: int|
                    0 <= i < self@.len() ==> !((#[trigger] self@[i]).id == id
                        && self@[i].tenant_id == tenant_id),
            },
    {
        let mut i: usize = 0;
        while i < self.records.len()
            invariant
                i <= self@.len(),
                forall|j: int|
                    0 <= j < i ==> !((#[trigger] self@[j]).id == id && self@[j].tenant_id
                        == tenant_id),
            decreases self@.len() - i,
        {
            if self.records[i].id == id && self.records[i].tenant_id == tenant_id {
                return Some(i);
            }
            i = i + 1;
        }
        None
    }

    /// The index of the live record with identifier `id` in tenant
    /// `tenant_id`, if present.
    pub fn find_live_index(&self, tenant_id: u64, id: u64) -> (r: Option<usize>)
        ensures
            match r {
                Option::Some(i) => i < self@.len() && self@[i as int].id == id
                    && self@[i as int].tenant_id == tenant_id && self@[i as int].live(),
                Option::None => forall|i: int|
                    0 <= i < self@.len() ==> !((#[trigger] self@[i]).id == id
                        && self@[i].tenant_id == tenant_id && self@[i].live()),
            },
    {
        let mut i: usize = 0;
        while i < self.records.len()
            invariant
                i <= self@.len(),
                forall|j: int|
                    0 <= j < i ==> !((#[trigger] self@[j]).id == id && self@[j].tenant_id
                        == tenant_id && self@[j].live()),
            decreases self@.len() - i,
        {
            if self.records[i].id == id && self.records[i].tenant_id == tenant_id
                && !self.records[i].is_deleted {
                return Some(i);
            }
            i = i + 1;
        }
        None
    }

    /// The index of the soft-deleted record with identifier `id` in tenant
    /// `tenant_id`, if present.
    pub fn find_deleted_index(&self, tenant_id: u64, id: u64) -> (r: Option<usize>)
        ensures
            match r {
                Option::Some(i) => i < self@.len() && self@[i as int].id == id
                    && self@[i as int].tenant_id == tenant_id && self@[i as int].is_deleted,
                Option::None => forall|i: int|
                    0 <= i < self@.len() ==> !((#[trigger] self@[i]).id == id
                        && self@[i].tenant_id == tenant_id && self@[i].is_deleted),
            },
    {
        let mut i: usize = 0;
        while i < self.records.len()
            invariant
                i <= self@.len(),
                forall|j: int|
                    0 <= j < i ==> !((#[trigger] self@[j]).id == id && self@[j].tenant_id
                        == tenant_id && self@[j].is_deleted),
            decreases self@.len() - i,
        {
            if self.records[i].id == id && self.records[i].tenant_id == tenant_id
                && self.records[i].is_deleted {
                return Some(i);
            }
            i = i + 1;
        }
        None
    }

    /// A row matching the name-uniqueness probe: live, in the given scope,
    /// under the given name. Directories count here too, as any occupant of
    /// the name blocks it.
    pub open spec fn scope_match(
        r: &FileRecord,
        tenant_id: u64,
        department_id: Option<u64>,
        parent_path: Seq<char>,
        visibility: Visibility,
        name: Seq<char>,
    ) -> bool {
        &&& r.live()
        &&& r.tenant_id == tenant_id
        &&& r.department_id == department_id
        &&& r.parent_path@ == parent_path
        &&& r.visibility == visibility
        &&& r.name@ == name
    }

    /// The uniqueness probe: the index of a live record carrying `name` in
    /// the scope, preferring the highest version, or `None` when the name
    /// is free.
    pub fn find_live_by_scope(
        &self,
        tenant_id: u64,
        department_id: &Option<u64>,
        parent_path: &str,
        visibility: Visibility,
        name: &str,
    ) -> (r: Option<usize>)
        ensures
            match r {
                Option::Some(i) => i < self@.len() && Self::scope_match(
                    &self@[i as int],
                    tenant_id,
                    *department_id,
                    parent_path@,
                    visibility,
                    name@,
                ) && forall|j: int|
                    0 <= j < self@.len() && Self::scope_match(
                        &self@[j],
                        tenant_id,
                        *department_id,
                        parent_path@,
                        visibility,
                        name@,
                    ) ==> (#[trigger] self@[j]).version <= self@[i as int].version,
                Option::None => forall|j: int|
                    0 <= j < self@.len() ==> !Self::scope_match(
                        &(#[trigger] self@[j]),
                        tenant_id,
                        *department_id,
                        parent_path@,
                        visibility,
                        name@,
                    ),
            },
    {
        let mut best: Option<usize> = None;
        let mut i: usize = 0;
        while i < self.records.len()
            invariant
                i <= self@.len(),
                match best {
                    Option::Some(b) => b < i && Self::scope_match(
                        &self@[b as int],
                        tenant_id,
                        *department_id,
                        parent_path@,
                        visibility,
                        name@,
                    ) && forall|j: int|
                        0 <= j < i && Self::scope_match(
                            &self@[j],
                            tenant_id,
                            *department_id,
                            parent_path@,
                            visibility,
                            name@,
                        ) ==> (#[trigger] self@[j]).version <= self@[b as int].version,
                    Option::None => forall|j: int|
                        0 <= j < i ==> !Self::scope_match(
                            &(#[trigger] self@[j]),
                            tenant_id,
                            *department_id,
                            parent_path@,
                            visibility,
                            name@,
                        ),
                },
            decreases self@.len() - i,
        {
            let rec = &self.records[i];
            let matches_here = !rec.is_deleted && rec.tenant_id == tenant_id && opt_u64_eq(
                &rec.department_id,
                department_id,
            ) && str_eq(rec.parent_path.as_str(), parent_path) && rec.visibility == visibility
                && str_eq(rec.name.as_str(), name);
            if matches_here {
                match best {
                    Option::Some(b) => {
                        if self.records[i].version > self.records[b].version {
                            best = Some(i);
                        }
                    },
                    Option::None => {
                        best = Some(i);
                    },
                }
            }
            i = i + 1;
        }
        best
    }

    /// A live, non-directory row in the dedup scope carrying `hash`.
    pub open spec fn hash_match(
        r: &FileRecord,
        tenant_id: u64,
        department_id: Option<u64>,
        hash: Seq<char>,
    ) -> bool {
        &&& r.live()
        &&& !r.is_directory
        &&& r.tenant_id == tenant_id
        &&& r.department_id == department_id
        &&& r.content_hash@ == hash
    }

    /// The dedup probe: the index of some live, non-directory record in the
    /// scope whose content hash is `hash`, or `None` when no such record
    /// exists.
    pub fn find_live_by_hash(
        &self,
        tenant_id: u64,
        department_id: &Option<u64>,
        hash: &str,
    ) -> (r: Option<usize>)
        ensures
            match r {
                Option::Some(i) => i < self@.len() && Self::hash_match(
                    &self@[i as int],
                    tenant_id,
                    *department_id,
                    hash@,
                ),
                Option::None => forall|j: int|
                    0 <= j < self@.len() ==> !Self::hash_match(
                        &(#[trigger] self@[j]),
                        tenant_id,
                        *department_id,
                        hash@,
                    ),
            },
    {
        let mut i: usize = 0;
        while i < self.records.len()
            invariant
                i <= self@.len(),
                forall|j: int|
                    0 <= j < i ==> !Self::hash_match(
                        &(#[trigger] self@[j]),
                        tenant_id,
                        *department_id,
                        hash@,
                    ),
            decreases self@.len() - i,
        {
            let rec = &self.records[i];
            if !rec.is_deleted && !rec.is_directory && rec.tenant_id == tenant_id && opt_u64_eq(
                &rec.department_id,
                department_id,
            ) && str_eq(rec.content_hash.as_str(), hash) {
                return Some(i);
            }
            i = i + 1;
        }
        None
    }

    /// A row counted by the reference-count probe: live, a file, in the
    /// dedup scope, carrying `hash`, and not the excluded record.
    pub open spec fn ref_match(
        r: &FileRecord,
        tenant_id: u64,
        department_id: Option<u64>,
        hash: Seq<char>,
        excluding_id: u64,
    ) -> bool {
        Self::hash_match(r, tenant_id, department_id, hash) && r.id != excluding_id
    }

    /// How many rows of the prefix `s` the reference-count probe matches.
    pub open spec fn spec_ref_count(
        s: Seq<FileRecord>,
        tenant_id: u64,
        department_id: Option<u64>,
        hash: Seq<char>,
        excluding_id: u64,
    ) -> nat
        decreases s.len(),
    {
        if s.len() == 0 {
            0
        } else {
            Self::spec_ref_count(s.drop_last(), tenant_id, department_id, hash, excluding_id) + (
            if Self::ref_match(&s.last(), tenant_id, department_id, hash, excluding_id) {
                1nat
            } else {
                0nat
            })
        }
    }

    /// Number of live records, other than `excluding_id`, that keep the
    /// backend object for `hash` alive in the scope.
    pub fn ref_count_live_by_hash(
        &self,
        tenant_id: u64,
        department_id: &Option<u64>,
        hash: &str,
        excluding_id: u64,
    ) -> (r: u64)
        requires
            self@.len() <= u64::MAX,
        ensures
            r == Self::spec_ref_count(self@, tenant_id, *department_id, hash@, excluding_id),
            (r == 0) == (forall|j: int|
                0 <= j < self@.len() ==> !Self::ref_match(
                    &(#[trigger] self@[j]),
                    tenant_id,
                    *department_id,
                    hash@,
                    excluding_id,
                )),
    {
        let mut count: u64 = 0;
        let mut i: usize = 0;
        while i < self.records.len()
            invariant
                i <= self@.len(),
                self@.len() <= u64::MAX,
                count == Self::spec_ref_count(
                    self@.subrange(0, i as int),
                    tenant_id,
                    *department_id,
                    hash@,
                    excluding_id,
                ),
                count <= i,
                (count == 0) == (forall|j: int|
                    0 <= j < i ==> !Self::ref_match(
                        &(#[trigger] self@[j]),
                        tenant_id,
                        *department_id,
                        hash@,
                        excluding_id,
                    )),
            decreases self@.len() - i,
        {
            let rec = &self.records[i];
            proof {
                assert(self@.subrange(0, i + 1 as int).drop_last() =~= self@.subrange(
                    0,
                    i as int,
                ));
                assert(self@.subrange(0, i + 1 as int).last() == self@[i as int]);
            }
            if !rec.is_deleted && !rec.is_directory && rec.tenant_id == tenant_id && opt_u64_eq(
                &rec.department_id,
                department_id,
            ) && str_eq(rec.content_hash.as_str(), hash) && rec.id != excluding_id {
                count = count + 1;
            }
            i = i + 1;
        }
        proof {
            assert(self@.subrange(0, self@.len() as int) =~= self@);
        }
        count
    }
    /// A live, mutable, non-directory row under `name` in the scope: the
    /// one row display-name uniqueness speaks about.
    pub open spec fn scope_file_match(
        r: &FileRecord,
        tenant_id: u64,
        department_id: Option<u64>,
        parent_path: Seq<char>,
        visibility: Visibility,
        name: Seq<char>,
    ) -> bool {
        Self::scope_match(r, tenant_id, department_id, parent_path, visibility, name)
            && !r.is_directory && !r.is_immutable
    }

    /// The index of the live, mutable, non-directory record carrying
    /// `name` in the scope, if one exists. By display-name uniqueness there
    /// is at most one.
    pub fn find_live_file_by_scope(
        &self,
        tenant_id: u64,
        department_id: &Option<u64>,
        parent_path: &str,
        visibility: Visibility,
        name: &str,
    ) -> (r: Option<usize>)
        ensures
            match r {
                Option::Some(i) => i < self@.len() && Self::scope_file_match(
                    &self@[i as int],
                    tenant_id,
                    *department_id,
                    parent_path@,
                    visibility,
                    name@,
                ),
                Option::None => forall|j: int|
                    0 <= j < self@.len() ==> !Self::scope_file_match(
                        &(#[trigger] self@[j]),
                        tenant_id,
                        *department_id,
                        parent_path@,
                        visibility,
                        name@,
                    ),
            },
    {
        let mut i: usize = 0;
        while i < self.records.len()
            invariant
                i <= self@.len(),
                forall|j: int|
                    0 <= j < i ==> !Self::scope_file_match(
                        &(#[trigger] self@[j]),
                        tenant_id,
                        *department_id,
                        parent_path@,
                        visibility,
                        name@,
                    ),
            decreases self@.len() - i,
        {
            let rec = &self.records[i];
            if !rec.is_deleted && !rec.is_directory && !rec.is_immutable && rec.tenant_id
                == tenant_id && opt_u64_eq(&rec.department_id, department_id) && str_eq(
                rec.parent_path.as_str(),
                parent_path,
            ) && rec.visibility == visibility && str_eq(rec.name.as_str(), name) {
                return Some(i);
            }
            i = i + 1;
        }
        None
    }

    /// Total bytes of the live, non-directory rows of a tenant, summed over
    /// the prefix `s`.
    pub open spec fn spec_storage_used(s: Seq<FileRecord>, tenant_id: u64) -> int
        decreases s.len(),
    {
        if s.len() == 0 {
            0
        } else {
            Self::spec_storage_used(s.drop_last(), tenant_id) + (if s.last().live()
                && !s.last().is_directory && s.last().tenant_id == tenant_id {
                s.last().size_bytes as int
            } else {
                0
            })
        }
    }

    /// The tenant's current storage usage: the byte sizes of its live,
    /// non-directory records.
    pub fn storage_used(&self, tenant_id: u64) -> (r: u128)
        ensures
            r == Self::spec_storage_used(self@, tenant_id),
    {
        let mut used: u128 = 0;
        let mut i: usize = 0;
        while i < self.records.len()
            invariant
                i <= self@.len(),
                used == Self::spec_storage_used(self@.subrange(0, i as int), tenant_id),
                used <= i as u128 * (u64::MAX as u128),
            decreases self@.len() - i,
        {
            let rec = &self.records[i];
            proof {
                assert(self@.subrange(0, i + 1 as int).drop_last() =~= self@.subrange(
                    0,
                    i as int,
                ));
                assert(self@.subrange(0, i + 1 as int).last() == self@[i as int]);
            }
            if !rec.is_deleted && !rec.is_directory && rec.tenant_id == tenant_id {
                used = used + rec.size_bytes as u128;
            }
            i = i + 1;
        }
        proof {
            assert(self@.subrange(0, self@.len() as int) =~= self@);
        }
        used
    }

    /// Flips the record at `idx` to immutable: from then on it is exempt
    /// from display-name uniqueness and refuses deletion, as a superseded
    /// version under mandatory versioning must.
    pub fn set_immutable(&mut self, idx: usize)
        requires
            old(self).wf(),
            idx < old(self)@.len(),
        ensures
            final(self)@[idx as int] == (FileRecord {
                is_immutable: true,
                ..old(self)@[idx as int]
            }),
            forall|j: int|
                0 <= j < old(self)@.len() && j != idx ==> final(self)@[j] == old(self)@[j],
            final(self)@.len() == old(self)@.len(),
            final(self).next_id == old(self).next_id,
            final(self).wf(),
    {
        let ghost pre = self@;
        let mut rec = self.records.remove(idx);
        rec.is_immutable = true;
        self.records.insert(idx, rec);
        proof {
            assert(self@ =~= pre.update(idx as int, self@[idx as int]));
            assert forall|i: int| 0 <= i < self@.len() implies (#[trigger] self@[i]).row_wf() by {
                assert(pre[i].row_wf());
            }
            assert forall|i: int, j: int|
                0 <= i < self@.len() && 0 <= j < self@.len() && i != j
                    && (#[trigger] self@[i]).names_count() && (#[trigger] self@[j]).names_count()
                    && self@[i].same_name_scope(&self@[j]) implies self@[i].name@
                != self@[j].name@ by {
                assert(pre[i].names_count());
                assert(pre[j].names_count());
                assert(pre[i].same_name_scope(&pre[j]));
            }
        }
    }

    /// The record `rec` would not collide with any live, mutable,
    /// non-directory row already in the catalog.
    pub open spec fn spec_insert_free(&self, rec: FileRecord) -> bool {
        rec.names_count() ==> forall|j: int|
            0 <= j < self@.len() ==> !((#[trigger] self@[j]).names_count()
                && self@[j].same_name_scope(&rec) && self@[j].name@ == rec.name@)
    }

    /// Appends a new row under a fresh identifier and returns it. The
    /// caller has already established that the name is free in its scope.
    pub fn insert_file(&mut self, rec: FileRecord) -> (id: u64)
        requires
            old(self).wf(),
            old(self).next_id < u64::MAX,
            rec.row_wf(),
            old(self).spec_insert_free(rec),
        ensures
            id == old(self).next_id,
            final(self)@ == old(self)@.push(FileRecord { id, ..rec }),
            final(self).next_id == old(self).next_id + 1,
            final(self).wf(),
    {
        let id = self.next_id;
        let mut rec = rec;
        rec.id = id;
        self.records.push(rec);
        self.next_id = self.next_id + 1;
        proof {
            let s = self@;
            let n = s.len() - 1;
            assert forall|i: int, j: int|
                0 <= i < s.len() && 0 <= j < s.len() && i != j && (#[trigger] s[i]).names_count()
                    && (#[trigger] s[j]).names_count() && s[i].same_name_scope(
                    &s[j],
                ) implies s[i].name@ != s[j].name@ by {
                if i < n && j < n {
                    assert(old(self).names_unique());
                } else if i == n {
                    assert(s[j].same_name_scope(&s[i]));
                } else {
                }
            }
        }
        id
    }

    /// A row swept up by a subtree soft-delete rooted at `root_id` with
    /// effective path `root_path`: the root itself, or any live row of the
    /// tenant below that path.
    pub open spec fn tree_member(
        r: FileRecord,
        tenant_id: u64,
        root_id: u64,
        root_path: Seq<char>,
    ) -> bool {
        r.tenant_id == tenant_id && (r.id == root_id || r.under_path(root_path))
    }

    pub open spec fn spec_deleted(r: FileRecord, now: u64) -> FileRecord {
        FileRecord { is_deleted: true, deleted_at: Some(now), ..r }
    }

    pub open spec fn spec_mark_one(
        r: FileRecord,
        tenant_id: u64,
        root_id: u64,
        root_path: Seq<char>,
        now: u64,
    ) -> FileRecord {
        if Self::tree_member(r, tenant_id, root_id, root_path) && r.live() {
            Self::spec_deleted(r, now)
        } else {
            r
        }
    }

    /// Soft-deletes the record `root_id` and every record of the tenant
    /// below `root_path`, in one pass. Never touches the backend.
    pub fn mark_deleted_descendants(
        &mut self,
        tenant_id: u64,
        root_id: u64,
        root_path: &str,
        now: u64,
    )
        requires
            old(self).wf(),
        ensures
            final(self)@.len() == old(self)@.len(),
            forall|j: int|
                0 <= j < old(self)@.len() ==> final(self)@[j] == Self::spec_mark_one(
                    #[trigger] old(self)@[j],
                    tenant_id,
                    root_id,
                    root_path@,
                    now,
                ),
            final(self).next_id == old(self).next_id,
            final(self).wf(),
    {
        proof {
            reveal_strlit("/");
        }
        let mut prefix = root_path.to_owned();
        prefix.append("/");
        proof {
            assert(prefix@ =~= root_path@ + seq!['/']);
        }
        let ghost orig = self@;
        let mut i: usize = 0;
        while i < self.records.len()
            invariant
                i <= orig.len(),
                self@.len() == orig.len(),
                self.next_id == old(self).next_id,
                prefix@ == root_path@ + seq!['/'],
                forall|j: int| i <= j < orig.len() ==> self@[j] == orig[j],
                forall|j: int|
                    0 <= j < i ==> self@[j] == Self::spec_mark_one(
                        #[trigger] orig[j],
                        tenant_id,
                        root_id,
                        root_path@,
                        now,
                    ),
            decreases orig.len() - i,
        {
            let rec = &self.records[i];
            let affected = rec.tenant_id == tenant_id && (rec.id == root_id || str_eq(
                rec.parent_path.as_str(),
                root_path,
            ) || str_starts_with(rec.parent_path.as_str(), prefix.as_str())) && !rec.is_deleted;
            if affected {
                let ghost pre = self@;
                let mut rec = self.records.remove(i);
                rec.is_deleted = true;
                rec.deleted_at = Some(now);
                self.records.insert(i, rec);
                proof {
                    assert(self@ =~= pre.update(
                        i as int,
                        Self::spec_deleted(pre[i as int], now),
                    ));
                }
            }
            i = i + 1;
        }
        proof {
            lemma_mark_preserves_wf(*old(self), *self, tenant_id, root_id, root_path@, now);
        }
    }

    /// Locks the record at `idx` for `locker`, with an optional password
    /// hash and an optional required role.
    pub fn set_lock(
        &mut self,
        idx: usize,
        locker: u64,
        now: u64,
        password_hash: Option<String>,
        requires_role: Option<RoleLabel>,
    )
        requires
            old(self).wf(),
            idx < old(self)@.len(),
        ensures
            final(self)@[idx as int] == (FileRecord {
                is_locked: true,
                locked_by: Some(locker),
                locked_at: Some(now),
                lock_password_hash: password_hash,
                lock_requires_role: requires_role,
                ..old(self)@[idx as int]
            }),
            forall|j: int|
                0 <= j < old(self)@.len() && j != idx ==> final(self)@[j] == old(self)@[j],
            final(self)@.len() == old(self)@.len(),
            final(self).next_id == old(self).next_id,
            final(self).wf(),
    {
        let ghost pre = self@;
        let mut rec = self.records.remove(idx);
        rec.is_locked = true;
        rec.locked_by = Some(locker);
        rec.locked_at = Some(now);
        rec.lock_password_hash = password_hash;
        rec.lock_requires_role = requires_role;
        self.records.insert(idx, rec);
        proof {
            assert(self@ =~= pre.update(idx as int, self@[idx as int]));
            lemma_same_shape_preserves_wf(*old(self), *self);
        }
    }

    /// Clears the lock on the record at `idx`: all lock fields are absent
    /// afterwards.
    pub fn clear_lock(&mut self, idx: usize)
        requires
            old(self).wf(),
            idx < old(self)@.len(),
        ensures
            final(self)@[idx as int] == (FileRecord {
                is_locked: false,
                locked_by: None,
                locked_at: None,
                lock_password_hash: None,
                lock_requires_role: None,
                ..old(self)@[idx as int]
            }),
            forall|j: int|
                0 <= j < old(self)@.len() && j != idx ==> final(self)@[j] == old(self)@[j],
            final(self)@.len() == old(self)@.len(),
            final(self).next_id == old(self).next_id,
            final(self).wf(),
    {
        let ghost pre = self@;
        let mut rec = self.records.remove(idx);
        rec.is_locked = false;
        rec.locked_by = None;
        rec.locked_at = None;
        rec.lock_password_hash = None;
        rec.lock_requires_role = None;
        self.records.insert(idx, rec);
        proof {
            assert(self@ =~= pre.update(idx as int, self@[idx as int]));
            lemma_same_shape_preserves_wf(*old(self), *self);
        }
    }

    /// A row swept up by a restore rooted at `root_id` with effective path
    /// `root_path`: the root itself, or any soft-deleted row of the tenant
    /// below that path.
    pub open spec fn restore_member(
        r: FileRecord,
        tenant_id: u64,
        root_id: u64,
        root_path: Seq<char>,
    ) -> bool {
        r.id == root_id || (r.tenant_id == tenant_id && r.is_deleted && r.under_path(root_path))
    }

    pub open spec fn spec_restored(r: FileRecord) -> FileRecord {
        FileRecord { is_deleted: false, deleted_at: None, ..r }
    }

    pub open spec fn spec_restore_one(
        r: FileRecord,
        tenant_id: u64,
        root_id: u64,
        root_path: Seq<char>,
    ) -> FileRecord {
        if Self::restore_member(r, tenant_id, root_id, root_path) {
            Self::spec_restored(r)
        } else {
            r
        }
    }

    /// Restoring the subtree would put two records with one name into one
    /// scope: some member, once live again, would collide with a live
    /// record or with another member.
    pub open spec fn restore_collides(
        s: Seq<FileRecord>,
        tenant_id: u64,
        root_id: u64,
        root_path: Seq<char>,
    ) -> bool {
        exists|a: int, b: int|
            0 <= a < s.len() && 0 <= b < s.len() && a != b && Self::restore_member(
                #[trigger] s[a],
                tenant_id,
                root_id,
                root_path,
            ) && !s[a].is_directory && !s[a].is_immutable && (if Self::restore_member(
                #[trigger] s[b],
                tenant_id,
                root_id,
                root_path,
            ) {
                !s[b].is_directory && !s[b].is_immutable
            } else {
                s[b].names_count()
            }) && s[a].same_name_scope(&s[b]) && s[a].name@ == s[b].name@
    }

    /// Restores the record `root_id` and every soft-deleted record of the
    /// tenant below `root_path`, unless that would break display-name
    /// uniqueness, in which case nothing changes.
    pub fn restore_descendants(
        &mut self,
        tenant_id: u64,
        root_id: u64,
        root_path: &str,
    ) -> (r: Result<(), CoreError>)
        requires
            old(self).wf(),
        ensures
            match r {
                Result::Ok(()) => {
                    &&& !Self::restore_collides(old(self)@, tenant_id, root_id, root_path@)
                    &&& final(self)@.len() == old(self)@.len()
                    &&& forall|j: int|
                        0 <= j < old(self)@.len() ==> final(self)@[j] == Self::spec_restore_one(
                            #[trigger] old(self)@[j],
                            tenant_id,
                            root_id,
                            root_path@,
                        )
                    &&& final(self).next_id == old(self).next_id
                    &&& final(self).wf()
                },
                Result::Err(e) => {
                    &&& e == CoreError::Duplicate
                    &&& Self::restore_collides(old(self)@, tenant_id, root_id, root_path@)
                    &&& *final(self) == *old(self)
                },
            },
    {
        proof {
            reveal_strlit("/");
        }
        let mut prefix = root_path.to_owned();
        prefix.append("/");
        proof {
            assert(prefix@ =~= root_path@ + seq!['/']);
        }
        let n = self.records.len();
        // First pass: refuse the restore when a member would collide.
        let mut a: usize = 0;
        while a < n
            invariant
                n == self@.len(),
                prefix@ == root_path@ + seq!['/'],
                forall|x: int, y: int|
                    0 <= x < a && 0 <= y < self@.len() && x != y ==> !(Self::restore_member(
                        #[trigger] self@[x],
                        tenant_id,
                        root_id,
                        root_path@,
                    ) && !self@[x].is_directory && !self@[x].is_immutable && (
                    if Self::restore_member(#[trigger] self@[y], tenant_id, root_id, root_path@) {
                        !self@[y].is_directory && !self@[y].is_immutable
                    } else {
                        self@[y].names_count()
                    }) && self@[x].same_name_scope(&self@[y]) && self@[x].name@ == self@[y].name@),
            decreases n - a,
        {
            let ra = &self.records[a];
            let a_member = ra.id == root_id || (ra.tenant_id == tenant_id && ra.is_deleted && (
            str_eq(ra.parent_path.as_str(), root_path) || str_starts_with(
                ra.parent_path.as_str(),
                prefix.as_str(),
            )));
            if a_member && !ra.is_directory && !ra.is_immutable {
                let mut b: usize = 0;
                while b < n
                    invariant
                        n == self@.len(),
                        a < self@.len(),
                        prefix@ == root_path@ + seq!['/'],
                        Self::restore_member(self@[a as int], tenant_id, root_id, root_path@),
                        !self@[a as int].is_directory,
                        !self@[a as int].is_immutable,
                        forall|y: int|
                            0 <= y < b && y != a ==> !((if Self::restore_member(
                                #[trigger] self@[y],
                                tenant_id,
                                root_id,
                                root_path@,
                            ) {
                                !self@[y].is_directory && !self@[y].is_immutable
                            } else {
                                self@[y].names_count()
                            }) && self@[a as int].same_name_scope(&self@[y]) && self@[
                                a as int
                            ].name@ == self@[y].name@),
                    decreases n - b,
                {
                    if b != a {
                        let rb = &self.records[b];
                        let b_member = rb.id == root_id || (rb.tenant_id == tenant_id
                            && rb.is_deleted && (str_eq(rb.parent_path.as_str(), root_path)
                            || str_starts_with(rb.parent_path.as_str(), prefix.as_str())));
                        let b_counts = if b_member {
                            !rb.is_directory && !rb.is_immutable
                        } else {
                            !rb.is_deleted && !rb.is_directory && !rb.is_immutable
                        };
                        let ra2 = &self.records[a];
                        if b_counts && ra2.tenant_id == rb.tenant_id && opt_u64_eq(
                            &ra2.department_id,
                            &rb.department_id,
                        ) && str_eq(ra2.parent_path.as_str(), rb.parent_path.as_str())
                            && ra2.visibility == rb.visibility && str_eq(
                            ra2.name.as_str(),
                            rb.name.as_str(),
                        ) {
                            return Err(CoreError::Duplicate);
                        }
                    }
                    b = b + 1;
                }
            }
            a = a + 1;
        }
        proof {
            assert(!Self::restore_collides(self@, tenant_id, root_id, root_path@));
        }
        // Second pass: flip every member back to live.
        let ghost orig = self@;
        let mut i: usize = 0;
        while i < self.records.len()
            invariant
                i <= orig.len(),
                self@.len() == orig.len(),
                self.next_id == old(self).next_id,
                prefix@ == root_path@ + seq!['/'],
                forall|j: int| i <= j < orig.len() ==> self@[j] == orig[j],
                forall|j: int|
                    0 <= j < i ==> self@[j] == Self::spec_restore_one(
                        #[trigger] orig[j],
                        tenant_id,
                        root_id,
                        root_path@,
                    ),
            decreases orig.len() - i,
        {
            let rec = &self.records[i];
            let member = rec.id == root_id || (rec.tenant_id == tenant_id && rec.is_deleted && (
            str_eq(rec.parent_path.as_str(), root_path) || str_starts_with(
                rec.parent_path.as_str(),
                prefix.as_str(),
            )));
            if member {
                let ghost pre = self@;
                let mut rec = self.records.remove(i);
                rec.is_deleted = false;
                rec.deleted_at = None;
                self.records.insert(i, rec);
                proof {
                    assert(self@ =~= pre.update(
                        i as int,
                        Self::spec_restored(pre[i as int]),
                    ));
                }
            }
            i = i + 1;
        }
        proof {
            lemma_restore_preserves_wf(*old(self), *self, tenant_id, root_id, root_path@);
        }
        Ok(())
    }

    /// A rename of row `idx` to `new_name` is refused: a live record of
    /// the same scope already wears the name, or, for a directory, a live
    /// stranger already sits below the destination path.
    pub open spec fn spec_rename_blocked(
        s: Seq<FileRecord>,
        idx: int,
        new_name: Seq<char>,
    ) -> bool {
        let t = s[idx];
        let old_path = t.spec_path();
        let new_path = crate::strutil::spec_path_join(t.parent_path@, new_name);
        ||| (exists|k: int|
            0 <= k < s.len() && k != idx && (#[trigger] s[k]).live() && s[k].tenant_id
                == t.tenant_id && s[k].department_id == t.department_id && s[k].visibility
                == t.visibility && s[k].parent_path@ == t.parent_path@ && s[k].name@ == new_name)
        ||| (t.is_directory && exists|k: int|
            0 <= k < s.len() && k != idx && (#[trigger] s[k]).live() && s[k].tenant_id
                == t.tenant_id && s[k].under_path(new_path) && !s[k].under_path(old_path))
    }

    /// A move of row `idx` under (`new_parent`, `new_department`,
    /// `new_visibility`) is refused for the same two reasons, judged at
    /// the destination scope, or because forcing one visibility on the
    /// subtree would merge two same-named rows.
    pub open spec fn spec_move_blocked(
        s: Seq<FileRecord>,
        idx: int,
        new_parent: Seq<char>,
        new_department: Option<u64>,
        new_visibility: Visibility,
    ) -> bool {
        let t = s[idx];
        let old_path = t.spec_path();
        let new_path = crate::strutil::spec_path_join(new_parent, t.name@);
        ||| (exists|k: int|
            0 <= k < s.len() && k != idx && (#[trigger] s[k]).live() && s[k].tenant_id
                == t.tenant_id && s[k].department_id == new_department && s[k].visibility
                == new_visibility && s[k].parent_path@ == new_parent && s[k].name@ == t.name@)
        ||| (t.is_directory && exists|k: int|
            0 <= k < s.len() && k != idx && (#[trigger] s[k]).live() && s[k].tenant_id
                == t.tenant_id && s[k].under_path(new_path) && !s[k].under_path(old_path))
        ||| (t.is_directory && Self::move_merges(
            s,
            idx,
            t.tenant_id,
            t.id,
            t.is_directory,
            old_path,
        ))
    }

    /// The subtree rows carried along when a directory with identifier
    /// `target_id` and effective path `old_path` is renamed or moved: every
    /// other row of the tenant below that path, live or not.
    pub open spec fn carried(
        r: FileRecord,
        tenant_id: u64,
        target_id: u64,
        dir: bool,
        old_path: Seq<char>,
    ) -> bool {
        dir && r.id != target_id && r.tenant_id == tenant_id && r.under_path(old_path)
    }

    /// `b` is `a` with only its parent path changed, to `new_parent`.
    pub open spec fn reparented(a: FileRecord, b: FileRecord, new_parent: Seq<char>) -> bool {
        b == (FileRecord { parent_path: b.parent_path, ..a }) && b.parent_path@ == new_parent
    }

    /// A carried path, rebased from `old_base` onto `new_base`.
    pub open spec fn spec_rewrite(
        p: Seq<char>,
        old_base: Seq<char>,
        new_base: Seq<char>,
    ) -> Seq<char> {
        new_base + p.skip(old_base.len() as int)
    }

    /// Renames the live record at `idx` and, for a directory, rebases the
    /// parent path of every record below it. The storage keys never change:
    /// a rename is catalog-only. Renaming to the very same name always
    /// succeeds and changes nothing but the update stamp.
    #[verifier::loop_isolation(false)]
    pub fn rename(&mut self, idx: usize, new_name: String, now: u64) -> (r: Result<
        (),
        CoreError,
    >)
        requires
            old(self).wf(),
            idx < old(self)@.len(),
            old(self)@[idx as int].live(),
            new_name@.len() > 0,
        ensures
            match r {
                Result::Ok(()) => ({
                    let pre = old(self)@;
                    let t = pre[idx as int];
                    let old_path = t.spec_path();
                    let new_path = crate::strutil::spec_path_join(t.parent_path@, new_name@);
                    &&& final(self)@.len() == pre.len()
                    &&& final(self).next_id == old(self).next_id
                    &&& final(self)@[idx as int] == (FileRecord {
                        name: new_name,
                        updated_at: now,
                        ..t
                    })
                    &&& (forall|j: int|
                        0 <= j < pre.len() && j != idx ==> (if Self::carried(
                            #[trigger] pre[j],
                            t.tenant_id,
                            t.id,
                            t.is_directory,
                            old_path,
                        ) {
                            Self::reparented(
                                pre[j],
                                final(self)@[j],
                                Self::spec_rewrite(pre[j].parent_path@, old_path, new_path),
                            )
                        } else {
                            final(self)@[j] == pre[j]
                        }))
                    &&& final(self).wf()
                }),
                Result::Err(e) => {
                    &&& e == CoreError::Duplicate
                    &&& *final(self) == *old(self)
                    &&& new_name@ != old(self)@[idx as int].name@
                },
            },
            (r is Err) == (new_name@ != old(self)@[idx as int].name@ && Self::spec_rename_blocked(
                old(self)@,
                idx as int,
                new_name@,
            )),
    {
        let ghost pre_all = self@;
        let ghost t = self@[idx as int];
        let t_tenant = self.records[idx].tenant_id;
        let t_dept = self.records[idx].department_id;
        let t_vis = self.records[idx].visibility;
        let t_dir = self.records[idx].is_directory;
        let ghost t_id = self@[idx as int].id;
        let same = str_eq(self.records[idx].name.as_str(), new_name.as_str());
        let t_parent = self.records[idx].parent_path.clone();
        let old_path = path_join(t_parent.as_str(), self.records[idx].name.as_str());
        let new_path = path_join(t_parent.as_str(), new_name.as_str());
        proof {
            reveal_strlit("/");
            assert(old_path@ == t.spec_path());
        }

        if !same {
            // The destination name must be free in its own scope: the
            // tenant, department, parent path and visibility the record
            // already has.
            let n = self.records.len();
            let mut j: usize = 0;
            while j < n
                invariant
                    n == self@.len(),
                    idx < self@.len(),
                    self@ == pre_all,
                    t_tenant == t.tenant_id,
                    t_dept == t.department_id,
                    t_vis == t.visibility,
                    t_parent@ == t.parent_path@,
                    forall|k: int|
                        0 <= k < j && k != idx ==> !((#[trigger] self@[k]).live()
                            && self@[k].tenant_id == t_tenant && self@[k].department_id
                            == t_dept && self@[k].visibility == t_vis && self@[k].parent_path@
                            == t_parent@ && self@[k].name@ == new_name@),
                decreases n - j,
            {
                if j != idx {
                    let rec = &self.records[j];
                    if !rec.is_deleted && rec.tenant_id == t_tenant && opt_u64_eq(
                        &rec.department_id,
                        &t_dept,
                    ) && rec.visibility == t_vis && str_eq(
                        rec.parent_path.as_str(),
                        t_parent.as_str(),
                    ) && str_eq(rec.name.as_str(), new_name.as_str()) {
                        proof {
                            assert(Self::spec_rename_blocked(pre_all, idx as int, new_name@))
                                by {
                                assert((#[trigger] pre_all[j as int]).live());
                            }
                        }
                        return Err(CoreError::Duplicate);
                    }
                }
                j = j + 1;
            }
            // A directory may not land on a path that live strangers
            // already occupy.
            if t_dir {
                let mut old_prefix = old_path.clone();
                old_prefix.append("/");
                let mut new_prefix = new_path.clone();
                new_prefix.append("/");
                proof {
                    assert(old_prefix@ =~= old_path@ + seq!['/']);
                    assert(new_prefix@ =~= new_path@ + seq!['/']);
                }
                let mut k: usize = 0;
                while k < n
                    invariant
                        n == self@.len(),
                        idx < self@.len(),
                        self@ == pre_all,
                        t_tenant == t.tenant_id,
                        old_prefix@ == old_path@ + seq!['/'],
                        new_prefix@ == new_path@ + seq!['/'],
                        forall|x: int|
                            0 <= x < k && x != idx ==> !((#[trigger] self@[x]).live()
                                && self@[x].tenant_id == t_tenant && self@[x].under_path(
                                new_path@,
                            ) && !self@[x].under_path(old_path@)),
                    decreases n - k,
                {
                    if k != idx {
                        let rec = &self.records[k];
                        let under_new = str_eq(rec.parent_path.as_str(), new_path.as_str())
                            || str_starts_with(rec.parent_path.as_str(), new_prefix.as_str());
                        let under_old = str_eq(rec.parent_path.as_str(), old_path.as_str())
                            || str_starts_with(rec.parent_path.as_str(), old_prefix.as_str());
                        if !rec.is_deleted && rec.tenant_id == t_tenant && under_new
                            && !under_old {
                            proof {
                                assert(Self::spec_rename_blocked(
                                    pre_all,
                                    idx as int,
                                    new_name@,
                                )) by {
                                    assert((#[trigger] pre_all[k as int]).live());
                                    assert(pre_all[k as int].under_path(new_path@));
                                    assert(!pre_all[k as int].under_path(old_path@));
                                }
                            }
                            return Err(CoreError::Duplicate);
                        }
                    }
                    k = k + 1;
                }
            }
            proof {
                assert(!Self::spec_rename_blocked(pre_all, idx as int, new_name@));
            }
        }

        // Rename the record itself.
        {
            let ghost prev = self@;
            let mut rec = self.records.remove(idx);
            rec.name = new_name;
            rec.updated_at = now;
            self.records.insert(idx, rec);
            proof {
                assert(self@ =~= prev.update(idx as int, self@[idx as int]));
            }
        }

        // Rebase every carried row of the subtree.
        if t_dir && !same {
            let old_len_chars = old_path.unicode_len();
            let mut old_prefix = old_path.clone();
            old_prefix.append("/");
            proof {
                assert(old_prefix@ =~= old_path@ + seq!['/']);
            }
            let mut i: usize = 0;
            while i < self.records.len()
                invariant
                    self@.len() == pre_all.len(),
                    i <= self@.len(),
                    idx < self@.len(),
                    self.next_id == old(self).next_id,
                    old_prefix@ == old_path@ + seq!['/'],
                    old_len_chars == old_path@.len(),
                    old_path@ == t.spec_path(),
                    t_tenant == t.tenant_id,
                    t_dir == t.is_directory,
                    t_id == t.id,
                    self@[idx as int] == (FileRecord { name: new_name, updated_at: now, ..t }),
                    forall|j: int|
                        0 <= j < pre_all.len() && j != idx && (i <= j || !Self::carried(
                            #[trigger] pre_all[j],
                            t.tenant_id,
                            t.id,
                            t.is_directory,
                            old_path@,
                        )) ==> self@[j] == pre_all[j],
                    forall|j: int|
                        0 <= j < i && j != idx && Self::carried(
                            #[trigger] pre_all[j],
                            t.tenant_id,
                            t.id,
                            t.is_directory,
                            old_path@,
                        ) ==> Self::reparented(
                            pre_all[j],
                            self@[j],
                            Self::spec_rewrite(pre_all[j].parent_path@, old_path@, new_path@),
                        ),
                decreases self@.len() - i,
            {
                if i != idx {
                    let rec = &self.records[i];
                    let is_member = rec.tenant_id == t_tenant && (str_eq(
                        rec.parent_path.as_str(),
                        old_path.as_str(),
                    ) || str_starts_with(rec.parent_path.as_str(), old_prefix.as_str()));
                    if is_member {
                        proof {
                            lemma_under_path_decompose(
                                self@[i as int].parent_path@,
                                old_path@,
                            );
                        }
                        let suffix = str_suffix_from(
                            self.records[i].parent_path.as_str(),
                            old_len_chars,
                        );
                        let mut np = new_path.clone();
                        np.append(suffix.as_str());
                        let ghost prev = self@;
                        let mut moved = self.records.remove(i);
                        moved.parent_path = np;
                        self.records.insert(i, moved);
                        proof {
                            assert(self@ =~= prev.update(i as int, self@[i as int]));
                            assert(pre_all[i as int].id != t_id);
                        }
                    }
                }
                i = i + 1;
            }
        }
        proof {
            if same {
                assert(new_path@ == old_path@);
                assert forall|j: int|
                    0 <= j < pre_all.len() && j != idx && Self::carried(
                        #[trigger] pre_all[j],
                        t.tenant_id,
                        t.id,
                        t.is_directory,
                        old_path@,
                    ) implies Self::reparented(
                    pre_all[j],
                    self@[j],
                    Self::spec_rewrite(pre_all[j].parent_path@, old_path@, new_path@),
                ) by {
                    lemma_under_path_decompose(pre_all[j].parent_path@, old_path@);
                    assert(self@[j] == pre_all[j]);
                    assert(self@[j] == (FileRecord { parent_path: self@[j].parent_path, ..pre_all[j] }));
                }
            }
            lemma_rename_preserves_wf(*old(self), *self, idx as int, new_name@, now);
        }
        Ok(())
    }

    /// `b` is the carried row `a` after a move: reparented onto
    /// `new_parent`, given the target visibility, and handed to the mover
    /// when that visibility is private.
    pub open spec fn carried_moved(
        a: FileRecord,
        b: FileRecord,
        new_parent: Seq<char>,
        vis: Visibility,
        mover: u64,
    ) -> bool {
        &&& b == (FileRecord {
            parent_path: b.parent_path,
            visibility: vis,
            owner_id: b.owner_id,
            ..a
        })
        &&& b.owner_id == (if vis == Visibility::Private {
            Some(mover)
        } else {
            a.owner_id
        })
        &&& b.parent_path@ == new_parent
    }

    /// `b` is the moved record `t` itself: new parent, department,
    /// visibility and update stamp; owned by the mover when private.
    pub open spec fn moved_target(
        t: FileRecord,
        b: FileRecord,
        new_parent: Seq<char>,
        dept: Option<u64>,
        vis: Visibility,
        mover: u64,
        now: u64,
    ) -> bool {
        &&& b == (FileRecord {
            parent_path: b.parent_path,
            department_id: dept,
            visibility: vis,
            owner_id: b.owner_id,
            updated_at: now,
            ..t
        })
        &&& b.owner_id == (if vis == Visibility::Private {
            Some(mover)
        } else {
            t.owner_id
        })
        &&& b.parent_path@ == new_parent
    }

    /// Two carried rows would merge into one scope once the move forces a
    /// single visibility on them.
    pub open spec fn move_merges(
        s: Seq<FileRecord>,
        idx: int,
        tenant_id: u64,
        target_id: u64,
        dir: bool,
        old_path: Seq<char>,
    ) -> bool {
        exists|a: int, b: int|
            0 <= a < s.len() && 0 <= b < s.len() && a != b && a != idx && b != idx
                && Self::carried(#[trigger] s[a], tenant_id, target_id, dir, old_path)
                && Self::carried(#[trigger] s[b], tenant_id, target_id, dir, old_path)
                && s[a].live() && !s[a].is_directory && !s[a].is_immutable && s[b].live()
                && !s[b].is_directory && !s[b].is_immutable && s[a].department_id
                == s[b].department_id && s[a].parent_path@ == s[b].parent_path@ && s[a].name@
                == s[b].name@
    }

    /// Moves the live record at `idx` under a new parent path, department
    /// and visibility; for a directory, rebases and re-labels every record
    /// below it. A move never touches the backend: the storage key is
    /// derived from the content hash and immutable by construction.
    #[verifier::loop_isolation(false)]
    pub fn move_record(
        &mut self,
        idx: usize,
        new_parent_path: String,
        new_department: Option<u64>,
        new_visibility: Visibility,
        mover: u64,
        now: u64,
    ) -> (r: Result<(), CoreError>)
        requires
            old(self).wf(),
            idx < old(self)@.len(),
            old(self)@[idx as int].live(),
            old(self)@[idx as int].name@.len() > 0,
        ensures
            match r {
                Result::Ok(()) => ({
                    let pre = old(self)@;
                    let t = pre[idx as int];
                    let old_path = t.spec_path();
                    let new_path = crate::strutil::spec_path_join(new_parent_path@, t.name@);
                    &&& final(self)@.len() == pre.len()
                    &&& final(self).next_id == old(self).next_id
                    &&& Self::moved_target(
                        t,
                        final(self)@[idx as int],
                        new_parent_path@,
                        new_department,
                        new_visibility,
                        mover,
                        now,
                    )
                    &&& (forall|j: int|
                        0 <= j < pre.len() && j != idx ==> (if Self::carried(
                            #[trigger] pre[j],
                            t.tenant_id,
                            t.id,
                            t.is_directory,
                            old_path,
                        ) {
                            Self::carried_moved(
                                pre[j],
                                final(self)@[j],
                                Self::spec_rewrite(pre[j].parent_path@, old_path, new_path),
                                new_visibility,
                                mover,
                            )
                        } else {
                            final(self)@[j] == pre[j]
                        }))
                    &&& final(self).wf()
                }),
                Result::Err(e) => {
                    &&& e == CoreError::Duplicate
                    &&& *final(self) == *old(self)
                },
            },
            (r is Err) == Self::spec_move_blocked(
                old(self)@,
                idx as int,
                new_parent_path@,
                new_department,
                new_visibility,
            ),
    {
        let ghost pre_all = self@;
        let ghost t = self@[idx as int];
        let t_tenant = self.records[idx].tenant_id;
        let t_dir = self.records[idx].is_directory;
        let ghost t_id = self@[idx as int].id;
        let t_name = self.records[idx].name.clone();
        let t_parent = self.records[idx].parent_path.clone();
        let old_path = path_join(t_parent.as_str(), t_name.as_str());
        let new_path = path_join(new_parent_path.as_str(), t_name.as_str());
        proof {
            reveal_strlit("/");
            assert(old_path@ == t.spec_path());
        }
        let n = self.records.len();

        // The destination scope — tenant, target department, target parent
        // and target visibility — must be free of a live record with this
        // name.
        let mut j: usize = 0;
        while j < n
            invariant
                forall|k: int|
                    0 <= k < j && k != idx ==> !((#[trigger] self@[k]).live()
                        && self@[k].tenant_id == t_tenant && self@[k].department_id
                        == new_department && self@[k].visibility == new_visibility
                        && self@[k].parent_path@ == new_parent_path@ && self@[k].name@
                        == t_name@),
            decreases n - j,
        {
            if j != idx {
                let rec = &self.records[j];
                if !rec.is_deleted && rec.tenant_id == t_tenant && opt_u64_eq(
                    &rec.department_id,
                    &new_department,
                ) && rec.visibility == new_visibility && str_eq(
                    rec.parent_path.as_str(),
                    new_parent_path.as_str(),
                ) && str_eq(rec.name.as_str(), t_name.as_str()) {
                    proof {
                        assert(Self::spec_move_blocked(
                            pre_all,
                            idx as int,
                            new_parent_path@,
                            new_department,
                            new_visibility,
                        )) by {
                            assert((#[trigger] pre_all[j as int]).live());
                        }
                    }
                    return Err(CoreError::Duplicate);
                }
            }
            j = j + 1;
        }

        if t_dir {
            let mut old_prefix = old_path.clone();
            old_prefix.append("/");
            let mut new_prefix = new_path.clone();
            new_prefix.append("/");
            proof {
                assert(old_prefix@ =~= old_path@ + seq!['/']);
                assert(new_prefix@ =~= new_path@ + seq!['/']);
            }
            // No live stranger may already sit below the destination path.
            let mut k: usize = 0;
            while k < n
                invariant
                    old_prefix@ == old_path@ + seq!['/'],
                    new_prefix@ == new_path@ + seq!['/'],
                    forall|x: int|
                        0 <= x < k && x != idx ==> !((#[trigger] self@[x]).live()
                            && self@[x].tenant_id == t_tenant && self@[x].under_path(new_path@)
                            && !self@[x].under_path(old_path@)),
                decreases n - k,
            {
                if k != idx {
                    let rec = &self.records[k];
                    let under_new = str_eq(rec.parent_path.as_str(), new_path.as_str())
                        || str_starts_with(rec.parent_path.as_str(), new_prefix.as_str());
                    let under_old = str_eq(rec.parent_path.as_str(), old_path.as_str())
                        || str_starts_with(rec.parent_path.as_str(), old_prefix.as_str());
                    if !rec.is_deleted && rec.tenant_id == t_tenant && under_new && !under_old {
                        proof {
                            assert(Self::spec_move_blocked(
                                pre_all,
                                idx as int,
                                new_parent_path@,
                                new_department,
                                new_visibility,
                            )) by {
                                assert((#[trigger] pre_all[k as int]).live());
                                assert(pre_all[k as int].under_path(new_path@));
                                assert(!pre_all[k as int].under_path(old_path@));
                            }
                        }
                        return Err(CoreError::Duplicate);
                    }
                }
                k = k + 1;
            }
            // Forcing one visibility on the subtree must not merge two
            // same-named rows into one scope.
            let mut a: usize = 0;
            while a < n
                invariant
                    old_prefix@ == old_path@ + seq!['/'],
                    forall|x: int, y: int|
                        0 <= x < a && 0 <= y < self@.len() && x != y && x != idx && y != idx
                            ==> !(Self::carried(
                            #[trigger] self@[x],
                            t_tenant,
                            t_id,
                            t_dir,
                            old_path@,
                        ) && Self::carried(
                            #[trigger] self@[y],
                            t_tenant,
                            t_id,
                            t_dir,
                            old_path@,
                        ) && self@[x].live() && !self@[x].is_directory && !self@[x].is_immutable
                            && self@[y].live() && !self@[y].is_directory
                            && !self@[y].is_immutable && self@[x].department_id
                            == self@[y].department_id && self@[x].parent_path@
                            == self@[y].parent_path@ && self@[x].name@ == self@[y].name@),
                decreases n - a,
            {
                let ra = &self.records[a];
                let a_carried = a != idx && ra.tenant_id == t_tenant && (str_eq(
                    ra.parent_path.as_str(),
                    old_path.as_str(),
                ) || str_starts_with(ra.parent_path.as_str(), old_prefix.as_str()));
                if a_carried && !ra.is_deleted && !ra.is_directory && !ra.is_immutable {
                    let mut b: usize = 0;
                    while b < n
                        invariant
                            old_prefix@ == old_path@ + seq!['/'],
                            a < self@.len(),
                            a != idx,
                            Self::carried(self@[a as int], t_tenant, t_id, t_dir, old_path@),
                            self@[a as int].live(),
                            !self@[a as int].is_directory,
                            !self@[a as int].is_immutable,
                            forall|y: int|
                                0 <= y < b && y != a && y != idx ==> !(Self::carried(
                                    #[trigger] self@[y],
                                    t_tenant,
                                    t_id,
                                    t_dir,
                                    old_path@,
                                ) && self@[y].live() && !self@[y].is_directory
                                    && !self@[y].is_immutable && self@[a as int].department_id
                                    == self@[y].department_id && self@[a as int].parent_path@
                                    == self@[y].parent_path@ && self@[a as int].name@
                                    == self@[y].name@),
                        decreases n - b,
                    {
                        if b != a && b != idx {
                            let rb = &self.records[b];
                            let b_carried = rb.tenant_id == t_tenant && (str_eq(
                                rb.parent_path.as_str(),
                                old_path.as_str(),
                            ) || str_starts_with(rb.parent_path.as_str(), old_prefix.as_str()));
                            let ra2 = &self.records[a];
                            if b_carried && !rb.is_deleted && !rb.is_directory
                                && !rb.is_immutable && opt_u64_eq(
                                &ra2.department_id,
                                &rb.department_id,
                            ) && str_eq(ra2.parent_path.as_str(), rb.parent_path.as_str())
                                && str_eq(ra2.name.as_str(), rb.name.as_str()) {
                                proof {
                                    assert(Catalog::move_merges(
                                        pre_all,
                                        idx as int,
                                        t_tenant,
                                        t_id,
                                        t_dir,
                                        old_path@,
                                    )) by {
                                        assert(Self::carried(
                                            #[trigger] pre_all[a as int],
                                            t_tenant,
                                            t_id,
                                            t_dir,
                                            old_path@,
                                        ));
                                        assert(Self::carried(
                                            #[trigger] pre_all[b as int],
                                            t_tenant,
                                            t_id,
                                            t_dir,
                                            old_path@,
                                        ));
                                    }
                                    assert(Self::spec_move_blocked(
                                        pre_all,
                                        idx as int,
                                        new_parent_path@,
                                        new_department,
                                        new_visibility,
                                    ));
                                }
                                return Err(CoreError::Duplicate);
                            }
                        }
                        b = b + 1;
                    }
                }
                a = a + 1;
            }
        }
        proof {
            assert(!Self::spec_move_blocked(
                pre_all,
                idx as int,
                new_parent_path@,
                new_department,
                new_visibility,
            )) by {
                if t_dir {
                } else {
                }
            }
        }

        // Move the record itself.
        {
            let ghost prev = self@;
            let mut rec = self.records.remove(idx);
            rec.parent_path = new_parent_path;
            rec.department_id = new_department;
            rec.visibility = new_visibility;
            if matches!(new_visibility, Visibility::Private) {
                rec.owner_id = Some(mover);
            }
            rec.updated_at = now;
            self.records.insert(idx, rec);
            proof {
                assert(self@ =~= prev.update(idx as int, self@[idx as int]));
            }
        }

        // Rebase and re-label every carried row of the subtree.
        if t_dir {
            let old_len_chars = old_path.unicode_len();
            let mut old_prefix = old_path.clone();
            old_prefix.append("/");
            proof {
                assert(old_prefix@ =~= old_path@ + seq!['/']);
            }
            let mut i: usize = 0;
            while i < self.records.len()
                invariant
                    self@.len() == pre_all.len(),
                    i <= self@.len(),
                    self.next_id == old(self).next_id,
                    old_prefix@ == old_path@ + seq!['/'],
                    old_len_chars == old_path@.len(),
                    Self::moved_target(
                        t,
                        self@[idx as int],
                        new_parent_path@,
                        new_department,
                        new_visibility,
                        mover,
                        now,
                    ),
                    forall|j: int|
                        0 <= j < pre_all.len() && j != idx && (i <= j || !Self::carried(
                            #[trigger] pre_all[j],
                            t.tenant_id,
                            t.id,
                            t.is_directory,
                            old_path@,
                        )) ==> self@[j] == pre_all[j],
                    forall|j: int|
                        0 <= j < i && j != idx && Self::carried(
                            #[trigger] pre_all[j],
                            t.tenant_id,
                            t.id,
                            t.is_directory,
                            old_path@,
                        ) ==> Self::carried_moved(
                            pre_all[j],
                            self@[j],
                            Self::spec_rewrite(pre_all[j].parent_path@, old_path@, new_path@),
                            new_visibility,
                            mover,
                        ),
                decreases self@.len() - i,
            {
                if i != idx {
                    let rec = &self.records[i];
                    let is_member = rec.tenant_id == t_tenant && (str_eq(
                        rec.parent_path.as_str(),
                        old_path.as_str(),
                    ) || str_starts_with(rec.parent_path.as_str(), old_prefix.as_str()));
                    if is_member {
                        proof {
                            lemma_under_path_decompose(self@[i as int].parent_path@, old_path@);
                        }
                        let suffix = str_suffix_from(
                            self.records[i].parent_path.as_str(),
                            old_len_chars,
                        );
                        let mut np = new_path.clone();
                        np.append(suffix.as_str());
                        let ghost prev = self@;
                        let mut moved = self.records.remove(i);
                        moved.parent_path = np;
                        moved.visibility = new_visibility;
                        if matches!(new_visibility, Visibility::Private) {
                            moved.owner_id = Some(mover);
                        }
                        self.records.insert(i, moved);
                        proof {
                            assert(self@ =~= prev.update(i as int, self@[i as int]));
                            assert(pre_all[i as int].id != t_id);
                        }
                    }
                }
                i = i + 1;
            }
        }
        proof {
            lemma_move_preserves_wf(
                *old(self),
                *self,
                idx as int,
                new_parent_path@,
                new_department,
                new_visibility,
                mover,
                now,
            );
        }
        Ok(())
    }

    /// The rows that survive a permanent delete rooted at `root_id` with
    /// effective path `root_path`: everything but the root and the
    /// soft-deleted rows of the tenant below that path, in order.
    pub open spec fn spec_purged(
        s: Seq<FileRecord>,
        tenant_id: u64,
        root_id: u64,
        root_path: Seq<char>,
    ) -> Seq<FileRecord>
        decreases s.len(),
    {
        if s.len() == 0 {
            Seq::empty()
        } else {
            let rest = Self::spec_purged(s.drop_last(), tenant_id, root_id, root_path);
            if Self::restore_member(s.last(), tenant_id, root_id, root_path) {
                rest
            } else {
                rest.push(s.last())
            }
        }
    }

    /// Hard-deletes the record `root_id` and every soft-deleted record of
    /// the tenant below `root_path`, in one pass, and reports how many
    /// rows went. Backend objects are the caller's business.
    pub fn purge_tree(&mut self, tenant_id: u64, root_id: u64, root_path: &str) -> (removed:
        u64)
        requires
            old(self).wf(),
            forall|i: int|
                0 <= i < old(self)@.len() && (#[trigger] old(self)@[i]).id == root_id ==> old(
                    self,
                )@[i].is_deleted,
        ensures
            final(self)@ == Self::spec_purged(old(self)@, tenant_id, root_id, root_path@),
            final(self).next_id == old(self).next_id,
            final(self).wf(),
            removed == old(self)@.len() - final(self)@.len(),
            final(self)@.len() <= old(self)@.len(),
    {
        proof {
            reveal_strlit("/");
        }
        let mut prefix = root_path.to_owned();
        prefix.append("/");
        proof {
            assert(prefix@ =~= root_path@ + seq!['/']);
        }
        let ghost orig = self@;
        let ghost k: int = 0;
        let n0 = self.records.len();
        proof {
            assert(orig.len() == n0);
        }
        let mut i: usize = 0;
        let mut removed: u64 = 0;
        while i < self.records.len()
            invariant
                old(self).wf(),
                self.next_id == old(self).next_id,
                prefix@ == root_path@ + seq!['/'],
                orig == old(self)@,
                0 <= k <= orig.len(),
                orig.len() <= usize::MAX,
                self@ =~= Self::spec_purged(orig.take(k), tenant_id, root_id, root_path@)
                    + orig.skip(k),
                i == Self::spec_purged(orig.take(k), tenant_id, root_id, root_path@).len(),
                i <= self@.len(),
                removed == k - i,
                removed <= k,
            decreases orig.len() - k,
        {
            proof {
                assert(self@[i as int] == orig.skip(k)[0]);
                assert(orig.skip(k)[0] == orig[k]);
                assert(orig.take(k + 1).drop_last() =~= orig.take(k));
                assert(orig.take(k + 1).last() == orig[k]);
            }
            let rec = &self.records[i];
            let member = rec.id == root_id || (rec.tenant_id == tenant_id && rec.is_deleted && (
            str_eq(rec.parent_path.as_str(), root_path) || str_starts_with(
                rec.parent_path.as_str(),
                prefix.as_str(),
            )));
            if member {
                let ghost pre = self@;
                self.records.remove(i);
                removed = removed + 1;
                proof {
                    assert(self@ =~= pre.remove(i as int));
                    assert(self@ =~= Self::spec_purged(
                        orig.take(k + 1),
                        tenant_id,
                        root_id,
                        root_path@,
                    ) + orig.skip(k + 1));
                }
            } else {
                i = i + 1;
                proof {
                    assert(Self::spec_purged(orig.take(k + 1), tenant_id, root_id, root_path@)
                        =~= Self::spec_purged(
                        orig.take(k),
                        tenant_id,
                        root_id,
                        root_path@,
                    ).push(orig[k]));
                    assert(self@ =~= Self::spec_purged(
                        orig.take(k + 1),
                        tenant_id,
                        root_id,
                        root_path@,
                    ) + orig.skip(k + 1));
                }
            }
            proof {
                k = k + 1;
            }
        }
        proof {
            assert(orig.take(orig.len() as int) =~= orig);
            assert(orig.skip(orig.len() as int) =~= Seq::<FileRecord>::empty());
            assert(self@ =~= Self::spec_purged(orig, tenant_id, root_id, root_path@));
            lemma_purged_wf(*old(self), tenant_id, root_id, root_path@);
            assert(self.wf());
        }
        removed
    }

    /// Removes the row at `idx` outright. Reference counting and any
    /// backend deletion are the caller's business.
    pub fn hard_delete(&mut self, idx: usize)
        requires
            old(self).wf(),
            idx < old(self)@.len(),
        ensures
            final(self)@ == old(self)@.remove(idx as int),
            final(self).next_id == old(self).next_id,
            final(self).wf(),
    {
        self.records.remove(idx);
        proof {
            let pre = old(self)@;
            let post = self@;
            assert forall|i: int, j: int|
                0 <= i < post.len() && 0 <= j < post.len() && i != j
                    && (#[trigger] post[i]).names_count() && (#[trigger] post[j]).names_count()
                    && post[i].same_name_scope(&post[j]) implies post[i].name@ != post[j].name@ by {
                let pi = if i < idx { i } else { i + 1 };
                let pj = if j < idx { j } else { j + 1 };
                assert(post[i] == pre[pi]);
                assert(post[j] == pre[pj]);
            }
        }
    }
}

/// What survives a purge: a subsequence of the original rows — exactly the
/// non-members — with every pairwise invariant intact.
pub proof fn lemma_purged_props(
    s: Seq<FileRecord>,
    tenant_id: u64,
    root_id: u64,
    root_path: Seq<char>,
    next_id: u64,
)
    requires
        forall|i: int| 0 <= i < s.len() ==> (#[trigger] s[i]).row_wf(),
        forall|i: int| 0 <= i < s.len() ==> (#[trigger] s[i]).id < next_id,
        forall|i: int, j: int|
            0 <= i < s.len() && 0 <= j < s.len() && i != j ==> (#[trigger] s[i]).id != (
            #[trigger] s[j]).id,
        forall|i: int, j: int|
            0 <= i < s.len() && 0 <= j < s.len() && i != j && (#[trigger] s[i]).names_count()
                && (#[trigger] s[j]).names_count() && s[i].same_name_scope(&s[j]) ==> s[i].name@
                != s[j].name@,
    ensures
        ({
            let p = Catalog::spec_purged(s, tenant_id, root_id, root_path);
            &&& p.len() <= s.len()
            &&& (forall|i: int| 0 <= i < p.len() ==> (#[trigger] p[i]).row_wf())
            &&& (forall|i: int| 0 <= i < p.len() ==> (#[trigger] p[i]).id < next_id)
            &&& (forall|i: int, j: int|
                0 <= i < p.len() && 0 <= j < p.len() && i != j ==> (#[trigger] p[i]).id != (
                #[trigger] p[j]).id)
            &&& (forall|i: int, j: int|
                0 <= i < p.len() && 0 <= j < p.len() && i != j && (#[trigger] p[i]).names_count()
                    && (#[trigger] p[j]).names_count() && p[i].same_name_scope(&p[j])
                    ==> p[i].name@ != p[j].name@)
            &&& (forall|x: FileRecord|
                #[trigger] p.contains(x) ==> s.contains(x) && !Catalog::restore_member(
                    x,
                    tenant_id,
                    root_id,
                    root_path,
                ))
            &&& (forall|x: FileRecord|
                #[trigger] s.contains(x) && !Catalog::restore_member(
                    x,
                    tenant_id,
                    root_id,
                    root_path,
                ) ==> p.contains(x))
        }),
    decreases s.len(),
{
    if s.len() == 0 {
        let p = Catalog::spec_purged(s, tenant_id, root_id, root_path);
        assert forall|x: FileRecord| #[trigger] s.contains(x) && !Catalog::restore_member(
            x,
            tenant_id,
            root_id,
            root_path,
        ) implies p.contains(x) by {}
    } else {
        let s1 = s.drop_last();
        let last = s.last();
        lemma_purged_props(s1, tenant_id, root_id, root_path, next_id);
        let p1 = Catalog::spec_purged(s1, tenant_id, root_id, root_path);
        let p = Catalog::spec_purged(s, tenant_id, root_id, root_path);
        // Every surviving row is some original row.
        assert forall|x: FileRecord| #[trigger] p.contains(x) implies s.contains(x)
            && !Catalog::restore_member(x, tenant_id, root_id, root_path) by {
            if p1.contains(x) {
                assert(s1.contains(x));
                let w = choose|w: int| 0 <= w < s1.len() && s1[w] == x;
                assert(s[w] == x);
            } else {
                assert(x == last);
                assert(s[s.len() - 1] == x);
            }
        }
        assert forall|x: FileRecord| #[trigger] s.contains(x) && !Catalog::restore_member(
            x,
            tenant_id,
            root_id,
            root_path,
        ) implies p.contains(x) by {
            let w = choose|w: int| 0 <= w < s.len() && s[w] == x;
            if w < s.len() - 1 {
                assert(s1[w] == x);
                assert(s1.contains(x));
                assert(p1.contains(x));
                if !Catalog::restore_member(last, tenant_id, root_id, root_path) {
                    let v = choose|v: int| 0 <= v < p1.len() && p1[v] == x;
                    assert(p[v] == x);
                }
            } else {
                assert(x == last);
                assert(p[p.len() - 1] == x);
            }
        }
        // The pairwise invariants carry over: any two surviving rows were
        // two distinct original rows, as their identifiers tell apart.
        if !Catalog::restore_member(last, tenant_id, root_id, root_path) {
            assert forall|i: int, j: int|
                0 <= i < p.len() && 0 <= j < p.len() && i != j implies (#[trigger] p[i]).id != (
            #[trigger] p[j]).id by {
                if i < p.len() - 1 && j < p.len() - 1 {
                    assert(p[i] == p1[i]);
                    assert(p[j] == p1[j]);
                } else if j == p.len() - 1 {
                    assert(p[i] == p1[i]);
                    assert(p1.contains(p1[i]));
                    assert(s1.contains(p[i]));
                    let w = choose|w: int| 0 <= w < s1.len() && s1[w] == p[i];
                    assert(s[w].id != s[s.len() - 1].id);
                } else {
                    assert(p[j] == p1[j]);
                    assert(p1.contains(p1[j]));
                    assert(s1.contains(p[j]));
                    let w = choose|w: int| 0 <= w < s1.len() && s1[w] == p[j];
                    assert(s[w].id != s[s.len() - 1].id);
                }
            }
            assert forall|i: int, j: int|
                0 <= i < p.len() && 0 <= j < p.len() && i != j && (#[trigger] p[i]).names_count()
                    && (#[trigger] p[j]).names_count() && p[i].same_name_scope(
                    &p[j],
                ) implies p[i].name@ != p[j].name@ by {
                if i < p.len() - 1 && j < p.len() - 1 {
                    assert(p[i] == p1[i]);
                    assert(p[j] == p1[j]);
                } else if j == p.len() - 1 {
                    assert(p[i] == p1[i]);
                    assert(p1.contains(p1[i]));
                    assert(s1.contains(p[i]));
                    let w = choose|w: int| 0 <= w < s1.len() && s1[w] == p[i];
                    assert(s[w].id != s[s.len() - 1].id);
                    assert(p[i].same_name_scope(&s[s.len() - 1]));
                } else {
                    assert(p[j] == p1[j]);
                    assert(p1.contains(p1[j]));
                    assert(s1.contains(p[j]));
                    let w = choose|w: int| 0 <= w < s1.len() && s1[w] == p[j];
                    assert(s[w].id != s[s.len() - 1].id);
                    assert(s[s.len() - 1].same_name_scope(&s[w]));
                }
            }
        }
    }
}

/// Purging preserves the whole catalog invariant.
proof fn lemma_purged_wf(pre: Catalog, tenant_id: u64, root_id: u64, root_path: Seq<char>)
    requires
        pre.wf(),
    ensures
        ({
            let p = Catalog::spec_purged(pre@, tenant_id, root_id, root_path);
            &&& (forall|i: int| 0 <= i < p.len() ==> (#[trigger] p[i]).row_wf())
            &&& (forall|i: int| 0 <= i < p.len() ==> (#[trigger] p[i]).id < pre.next_id)
            &&& (forall|i: int, j: int|
                0 <= i < p.len() && 0 <= j < p.len() && i != j ==> (#[trigger] p[i]).id != (
                #[trigger] p[j]).id)
            &&& (forall|i: int, j: int|
                0 <= i < p.len() && 0 <= j < p.len() && i != j && (#[trigger] p[i]).names_count()
                    && (#[trigger] p[j]).names_count() && p[i].same_name_scope(&p[j])
                    ==> p[i].name@ != p[j].name@)
            &&& (forall|x: FileRecord|
                #[trigger] p.contains(x) ==> pre@.contains(x) && !Catalog::restore_member(
                    x,
                    tenant_id,
                    root_id,
                    root_path,
                ))
            &&& (forall|x: FileRecord|
                #[trigger] pre@.contains(x) && !Catalog::restore_member(
                    x,
                    tenant_id,
                    root_id,
                    root_path,
                ) ==> p.contains(x))
        }),
{
    lemma_purged_props(pre@, tenant_id, root_id, root_path, pre.next_id);
}

/// Display-name uniqueness puts at most one live, mutable, non-directory
/// row under a name in a scope.
pub proof fn lemma_scope_file_unique(
    c: Catalog,
    tenant_id: u64,
    department_id: Option<u64>,
    parent_path: Seq<char>,
    visibility: Visibility,
    name: Seq<char>,
    i: int,
    j: int,
)
    requires
        c.wf(),
        0 <= i < c@.len(),
        0 <= j < c@.len(),
        Catalog::scope_file_match(&c@[i], tenant_id, department_id, parent_path, visibility, name),
        Catalog::scope_file_match(&c@[j], tenant_id, department_id, parent_path, visibility, name),
    ensures
        i == j,
{
    if i != j {
        assert(c@[i].names_count());
        assert(c@[j].names_count());
        assert(c@[i].same_name_scope(&c@[j]));
        assert(c@[i].name@ == c@[j].name@);
    }
}

/// A path below `base` splits into `base` followed by its tail, and the
/// tail, when non-empty, opens with the separator.
pub proof fn lemma_under_path_decompose(p: Seq<char>, base: Seq<char>)
    requires
        p == base || crate::strutil::seq_starts_with(p, base + seq!['/']),
    ensures
        p == base + p.skip(base.len() as int),
        p.len() >= base.len(),
        p != base ==> p.len() > base.len() && p[base.len() as int] == '/',
{
    if p == base {
        assert(p =~= base + p.skip(base.len() as int));
    } else {
        assert(p.subrange(0, (base + seq!['/']).len() as int) == base + seq!['/']);
        assert(p[base.len() as int] == (base + seq!['/'])[base.len() as int]);
        assert forall|k: int| 0 <= k < p.len() implies (base + p.skip(base.len() as int))[k]
            == p[k] by {
            if k < base.len() {
                assert(p.subrange(0, (base + seq!['/']).len() as int)[k] == p[k]);
            }
        }
        assert(p =~= base + p.skip(base.len() as int));
    }
}

/// The rewritten tail of a relocated path still lies below the new base.
pub proof fn lemma_rewritten_under(p: Seq<char>, old_base: Seq<char>, new_base: Seq<char>)
    requires
        p == old_base || crate::strutil::seq_starts_with(p, old_base + seq!['/']),
    ensures
        (new_base + p.skip(old_base.len() as int)) == new_base || crate::strutil::seq_starts_with(
            new_base + p.skip(old_base.len() as int),
            new_base + seq!['/'],
        ),
{
    lemma_under_path_decompose(p, old_base);
    let tail = p.skip(old_base.len() as int);
    if p == old_base {
        assert(tail.len() == 0);
        assert(new_base + tail =~= new_base);
    } else {
        assert(tail[0] == p[old_base.len() as int]);
        assert((new_base + tail).subrange(0, (new_base + seq!['/']).len() as int) =~= new_base
            + seq!['/']);
    }
}

/// A transformation that keeps every row's identifier, name, scope, liveness
/// and immutability preserves both catalog invariants, provided each row
/// stays well formed.
proof fn lemma_same_shape_preserves_wf(pre: Catalog, post: Catalog)
    requires
        pre.wf(),
        post@.len() == pre@.len(),
        post.next_id == pre.next_id,
        forall|i: int| 0 <= i < post@.len() ==> (#[trigger] post@[i]).row_wf(),
        forall|i: int| 0 <= i < post@.len() ==> (#[trigger] post@[i]).id == pre@[i].id,
        forall|i: int|
            0 <= i < post@.len() ==> (#[trigger] post@[i]).names_count()
                == pre@[i].names_count(),
        forall|i: int| 0 <= i < post@.len() ==> (#[trigger] post@[i]).name@ == pre@[i].name@,
        forall|i: int|
            0 <= i < post@.len() ==> (#[trigger] post@[i]).tenant_id == pre@[i].tenant_id
                && post@[i].department_id == pre@[i].department_id && post@[i].parent_path@
                == pre@[i].parent_path@ && post@[i].visibility == pre@[i].visibility,
    ensures
        post.wf(),
{
    assert forall|i: int, j: int|
        0 <= i < post@.len() && 0 <= j < post@.len() && i != j
            && (#[trigger] post@[i]).names_count() && (#[trigger] post@[j]).names_count()
            && post@[i].same_name_scope(&post@[j]) implies post@[i].name@ != post@[j].name@ by {
        assert(pre@[i].same_name_scope(&pre@[j]));
    }
}

proof fn lemma_rename_preserves_wf(
    pre: Catalog,
    post: Catalog,
    idx: int,
    new_name: Seq<char>,
    now: u64,
)
    requires
        pre.wf(),
        0 <= idx < pre@.len(),
        pre@[idx].live(),
        new_name.len() > 0,
        post@.len() == pre@.len(),
        post.next_id == pre.next_id,
        post@[idx] == (FileRecord {
            name: post@[idx].name,
            updated_at: post@[idx].updated_at,
            ..pre@[idx]
        }),
        post@[idx].name@ == new_name,
        forall|j: int|
            0 <= j < pre@.len() && j != idx ==> (if Catalog::carried(
                #[trigger] pre@[j],
                pre@[idx].tenant_id,
                pre@[idx].id,
                pre@[idx].is_directory,
                pre@[idx].spec_path(),
            ) {
                Catalog::reparented(
                    pre@[j],
                    post@[j],
                    Catalog::spec_rewrite(
                        pre@[j].parent_path@,
                        pre@[idx].spec_path(),
                        crate::strutil::spec_path_join(pre@[idx].parent_path@, new_name),
                    ),
                )
            } else {
                post@[j] == pre@[j]
            }),
        new_name == pre@[idx].name@ || {
            let t = pre@[idx];
            let new_path = crate::strutil::spec_path_join(t.parent_path@, new_name);
            &&& (forall|j: int|
                0 <= j < pre@.len() && j != idx ==> !((#[trigger] pre@[j]).live()
                    && pre@[j].tenant_id == t.tenant_id && pre@[j].department_id
                    == t.department_id && pre@[j].visibility == t.visibility
                    && pre@[j].parent_path@ == t.parent_path@ && pre@[j].name@ == new_name))
            &&& (t.is_directory ==> forall|j: int|
                0 <= j < pre@.len() && j != idx && (#[trigger] pre@[j]).live()
                    && pre@[j].tenant_id == t.tenant_id && pre@[j].under_path(new_path)
                    ==> pre@[j].under_path(t.spec_path()))
        },
    ensures
        post.wf(),
{
    let t = pre@[idx];
    let old_path = t.spec_path();
    let new_path = crate::strutil::spec_path_join(t.parent_path@, new_name);
    assert forall|i: int| 0 <= i < post@.len() implies (#[trigger] post@[i]).row_wf() by {
        assert(pre@[i].row_wf());
    }
    assert forall|i: int| 0 <= i < post@.len() implies (#[trigger] post@[i]).id < post.next_id
        && post@[i].id == pre@[i].id by {
        assert(pre@[i].id < pre.next_id);
    }
    assert forall|i: int, j: int|
        0 <= i < post@.len() && 0 <= j < post@.len() && i != j implies (#[trigger] post@[i]).id
        != (#[trigger] post@[j]).id by {
        assert(pre@[i].id != pre@[j].id);
        assert(post@[i].id == pre@[i].id);
        assert(post@[j].id == pre@[j].id);
    }
    if new_name == t.name@ {
        // Renaming to the same name leaves every identifying field as it
        // was.
        assert forall|j: int|
            0 <= j < pre@.len() && j != idx && Catalog::carried(
                #[trigger] pre@[j],
                t.tenant_id,
                t.id,
                t.is_directory,
                old_path,
            ) implies post@[j].parent_path@ == pre@[j].parent_path@ by {
            lemma_under_path_decompose(pre@[j].parent_path@, old_path);
        }
        assert forall|i: int, j: int|
            0 <= i < post@.len() && 0 <= j < post@.len() && i != j
                && (#[trigger] post@[i]).names_count() && (#[trigger] post@[j]).names_count()
                && post@[i].same_name_scope(&post@[j]) implies post@[i].name@
            != post@[j].name@ by {
            assert(pre@[i].names_count());
            assert(pre@[j].names_count());
            assert(pre@[i].same_name_scope(&pre@[j]));
        }
    } else {
        assert forall|i: int, j: int|
            0 <= i < post@.len() && 0 <= j < post@.len() && i != j
                && (#[trigger] post@[i]).names_count() && (#[trigger] post@[j]).names_count()
                && post@[i].same_name_scope(&post@[j]) implies post@[i].name@
            != post@[j].name@ by {
            lemma_rename_no_collision(pre, post, idx, new_name, i, j);
        }
    }
}

/// No two distinct rows collide after a rename to a genuinely new name,
/// given the two refusal checks.
proof fn lemma_rename_no_collision(
    pre: Catalog,
    post: Catalog,
    idx: int,
    new_name: Seq<char>,
    i: int,
    j: int,
)
    requires
        pre.wf(),
        0 <= idx < pre@.len(),
        pre@[idx].live(),
        new_name.len() > 0,
        new_name != pre@[idx].name@,
        post@.len() == pre@.len(),
        post@[idx] == (FileRecord {
            name: post@[idx].name,
            updated_at: post@[idx].updated_at,
            ..pre@[idx]
        }),
        post@[idx].name@ == new_name,
        forall|k: int|
            0 <= k < pre@.len() && k != idx ==> (if Catalog::carried(
                #[trigger] pre@[k],
                pre@[idx].tenant_id,
                pre@[idx].id,
                pre@[idx].is_directory,
                pre@[idx].spec_path(),
            ) {
                Catalog::reparented(
                    pre@[k],
                    post@[k],
                    Catalog::spec_rewrite(
                        pre@[k].parent_path@,
                        pre@[idx].spec_path(),
                        crate::strutil::spec_path_join(pre@[idx].parent_path@, new_name),
                    ),
                )
            } else {
                post@[k] == pre@[k]
            }),
        forall|k: int|
            0 <= k < pre@.len() && k != idx ==> !((#[trigger] pre@[k]).live()
                && pre@[k].tenant_id == pre@[idx].tenant_id && pre@[k].department_id
                == pre@[idx].department_id && pre@[k].visibility == pre@[idx].visibility
                && pre@[k].parent_path@ == pre@[idx].parent_path@ && pre@[k].name@ == new_name),
        pre@[idx].is_directory ==> forall|k: int|
            0 <= k < pre@.len() && k != idx && (#[trigger] pre@[k]).live() && pre@[k].tenant_id
                == pre@[idx].tenant_id && pre@[k].under_path(
                crate::strutil::spec_path_join(pre@[idx].parent_path@, new_name),
            ) ==> pre@[k].under_path(pre@[idx].spec_path()),
        0 <= i < post@.len(),
        0 <= j < post@.len(),
        i != j,
        post@[i].names_count(),
        post@[j].names_count(),
        post@[i].same_name_scope(&post@[j]),
    ensures
        post@[i].name@ != post@[j].name@,
{
    let t = pre@[idx];
    let old_path = t.spec_path();
    let new_path = crate::strutil::spec_path_join(t.parent_path@, new_name);
    let ci = i != idx && Catalog::carried(pre@[i], t.tenant_id, t.id, t.is_directory, old_path);
    let cj = j != idx && Catalog::carried(pre@[j], t.tenant_id, t.id, t.is_directory, old_path);
    assert(new_path.len() > t.parent_path@.len());
    if post@[i].name@ == post@[j].name@ {
        if ci {
            lemma_under_path_decompose(pre@[i].parent_path@, old_path);
            lemma_rewritten_under(pre@[i].parent_path@, old_path, new_path);
            assert(post@[i].parent_path@.len() >= new_path.len());
        }
        if cj {
            lemma_under_path_decompose(pre@[j].parent_path@, old_path);
            lemma_rewritten_under(pre@[j].parent_path@, old_path, new_path);
            assert(post@[j].parent_path@.len() >= new_path.len());
        }
        if i == idx {
            if cj {
                // The renamed record's parent is strictly shorter than any
                // rebased path below the new name.
                assert(false);
            } else {
                assert(pre@[j].live() && pre@[j].tenant_id == t.tenant_id && pre@[
                    j
                ].parent_path@ == t.parent_path@ && pre@[j].name@ == new_name);
                assert(false);
            }
        } else if j == idx {
            if ci {
                assert(false);
            } else {
                assert(pre@[i].live() && pre@[i].tenant_id == t.tenant_id && pre@[
                    i
                ].parent_path@ == t.parent_path@ && pre@[i].name@ == new_name);
                assert(false);
            }
        } else if ci && cj {
            crate::strutil::lemma_append_injective(
                new_path,
                pre@[i].parent_path@.skip(old_path.len() as int),
                pre@[j].parent_path@.skip(old_path.len() as int),
            );
            assert(pre@[i].parent_path@ == pre@[j].parent_path@);
            assert(pre@[i].same_name_scope(&pre@[j]));
            assert(pre@[i].names_count());
            assert(pre@[j].names_count());
            assert(false);
        } else if ci {
            // A stranger cannot share the rebased scope: it would already
            // sit below the new path.
            assert(post@[j] == pre@[j]);
            assert(pre@[j].under_path(new_path)) by {
                lemma_rewritten_under(pre@[i].parent_path@, old_path, new_path);
            }
            assert(pre@[j].under_path(old_path));
            assert(Catalog::carried(pre@[j], t.tenant_id, t.id, t.is_directory, old_path));
            assert(false);
        } else if cj {
            assert(post@[i] == pre@[i]);
            assert(pre@[i].under_path(new_path)) by {
                lemma_rewritten_under(pre@[j].parent_path@, old_path, new_path);
            }
            assert(pre@[i].under_path(old_path));
            assert(Catalog::carried(pre@[i], t.tenant_id, t.id, t.is_directory, old_path));
            assert(false);
        } else {
            assert(pre@[i].names_count());
            assert(pre@[j].names_count());
            assert(pre@[i].same_name_scope(&pre@[j]));
            assert(false);
        }
    }
}

proof fn lemma_move_preserves_wf(
    pre: Catalog,
    post: Catalog,
    idx: int,
    new_parent: Seq<char>,
    new_department: Option<u64>,
    new_visibility: Visibility,
    mover: u64,
    now: u64,
)
    requires
        pre.wf(),
        0 <= idx < pre@.len(),
        pre@[idx].live(),
        pre@[idx].name@.len() > 0,
        post@.len() == pre@.len(),
        post.next_id == pre.next_id,
        Catalog::moved_target(
            pre@[idx],
            post@[idx],
            new_parent,
            new_department,
            new_visibility,
            mover,
            now,
        ),
        forall|j: int|
            0 <= j < pre@.len() && j != idx ==> (if Catalog::carried(
                #[trigger] pre@[j],
                pre@[idx].tenant_id,
                pre@[idx].id,
                pre@[idx].is_directory,
                pre@[idx].spec_path(),
            ) {
                Catalog::carried_moved(
                    pre@[j],
                    post@[j],
                    Catalog::spec_rewrite(
                        pre@[j].parent_path@,
                        pre@[idx].spec_path(),
                        crate::strutil::spec_path_join(new_parent, pre@[idx].name@),
                    ),
                    new_visibility,
                    mover,
                )
            } else {
                post@[j] == pre@[j]
            }),
        forall|k: int|
            0 <= k < pre@.len() && k != idx ==> !((#[trigger] pre@[k]).live()
                && pre@[k].tenant_id == pre@[idx].tenant_id && pre@[k].department_id
                == new_department && pre@[k].visibility == new_visibility && pre@[
                k
            ].parent_path@ == new_parent && pre@[k].name@ == pre@[idx].name@),
        pre@[idx].is_directory ==> forall|k: int|
            0 <= k < pre@.len() && k != idx && (#[trigger] pre@[k]).live() && pre@[k].tenant_id
                == pre@[idx].tenant_id && pre@[k].under_path(
                crate::strutil::spec_path_join(new_parent, pre@[idx].name@),
            ) ==> pre@[k].under_path(pre@[idx].spec_path()),
        pre@[idx].is_directory ==> !Catalog::move_merges(
            pre@,
            idx,
            pre@[idx].tenant_id,
            pre@[idx].id,
            pre@[idx].is_directory,
            pre@[idx].spec_path(),
        ),
    ensures
        post.wf(),
{
    let t = pre@[idx];
    assert forall|i: int| 0 <= i < post@.len() implies (#[trigger] post@[i]).row_wf() by {
        assert(pre@[i].row_wf());
    }
    assert forall|i: int| 0 <= i < post@.len() implies (#[trigger] post@[i]).id < post.next_id
        && post@[i].id == pre@[i].id by {
        assert(pre@[i].id < pre.next_id);
    }
    assert forall|i: int, j: int|
        0 <= i < post@.len() && 0 <= j < post@.len() && i != j implies (#[trigger] post@[i]).id
        != (#[trigger] post@[j]).id by {
        assert(pre@[i].id != pre@[j].id);
        assert(post@[i].id == pre@[i].id);
        assert(post@[j].id == pre@[j].id);
    }
    assert forall|i: int, j: int|
        0 <= i < post@.len() && 0 <= j < post@.len() && i != j
            && (#[trigger] post@[i]).names_count() && (#[trigger] post@[j]).names_count()
            && post@[i].same_name_scope(&post@[j]) implies post@[i].name@ != post@[j].name@ by {
        lemma_move_no_collision(
            pre,
            post,
            idx,
            new_parent,
            new_department,
            new_visibility,
            mover,
            now,
            i,
            j,
        );
    }
}

proof fn lemma_move_no_collision(
    pre: Catalog,
    post: Catalog,
    idx: int,
    new_parent: Seq<char>,
    new_department: Option<u64>,
    new_visibility: Visibility,
    mover: u64,
    now: u64,
    i: int,
    j: int,
)
    requires
        pre.wf(),
        0 <= idx < pre@.len(),
        pre@[idx].live(),
        pre@[idx].name@.len() > 0,
        post@.len() == pre@.len(),
        post.next_id == pre.next_id,
        Catalog::moved_target(
            pre@[idx],
            post@[idx],
            new_parent,
            new_department,
            new_visibility,
            mover,
            now,
        ),
        forall|k: int|
            0 <= k < pre@.len() && k != idx ==> (if Catalog::carried(
                #[trigger] pre@[k],
                pre@[idx].tenant_id,
                pre@[idx].id,
                pre@[idx].is_directory,
                pre@[idx].spec_path(),
            ) {
                Catalog::carried_moved(
                    pre@[k],
                    post@[k],
                    Catalog::spec_rewrite(
                        pre@[k].parent_path@,
                        pre@[idx].spec_path(),
                        crate::strutil::spec_path_join(new_parent, pre@[idx].name@),
                    ),
                    new_visibility,
                    mover,
                )
            } else {
                post@[k] == pre@[k]
            }),
        forall|k: int|
            0 <= k < pre@.len() && k != idx ==> !((#[trigger] pre@[k]).live()
                && pre@[k].tenant_id == pre@[idx].tenant_id && pre@[k].department_id
                == new_department && pre@[k].visibility == new_visibility && pre@[
                k
            ].parent_path@ == new_parent && pre@[k].name@ == pre@[idx].name@),
        pre@[idx].is_directory ==> forall|k: int|
            0 <= k < pre@.len() && k != idx && (#[trigger] pre@[k]).live() && pre@[k].tenant_id
                == pre@[idx].tenant_id && pre@[k].under_path(
                crate::strutil::spec_path_join(new_parent, pre@[idx].name@),
            ) ==> pre@[k].under_path(pre@[idx].spec_path()),
        pre@[idx].is_directory ==> !Catalog::move_merges(
            pre@,
            idx,
            pre@[idx].tenant_id,
            pre@[idx].id,
            pre@[idx].is_directory,
            pre@[idx].spec_path(),
        ),
        0 <= i < post@.len(),
        0 <= j < post@.len(),
        i != j,
        post@[i].names_count(),
        post@[j].names_count(),
        post@[i].same_name_scope(&post@[j]),
    ensures
        post@[i].name@ != post@[j].name@,
{
    let t = pre@[idx];
    let old_path = t.spec_path();
    let new_path = crate::strutil::spec_path_join(new_parent, t.name@);
    let ci = i != idx && Catalog::carried(pre@[i], t.tenant_id, t.id, t.is_directory, old_path);
    let cj = j != idx && Catalog::carried(pre@[j], t.tenant_id, t.id, t.is_directory, old_path);
    assert(new_path.len() > new_parent.len());
    if post@[i].name@ == post@[j].name@ {
        if ci {
            lemma_under_path_decompose(pre@[i].parent_path@, old_path);
            lemma_rewritten_under(pre@[i].parent_path@, old_path, new_path);
            assert(post@[i].parent_path@.len() >= new_path.len());
        }
        if cj {
            lemma_under_path_decompose(pre@[j].parent_path@, old_path);
            lemma_rewritten_under(pre@[j].parent_path@, old_path, new_path);
            assert(post@[j].parent_path@.len() >= new_path.len());
        }
        if i == idx {
            if cj {
                assert(false);
            } else {
                assert(pre@[j].live() && pre@[j].tenant_id == t.tenant_id && pre@[
                    j
                ].department_id == new_department && pre@[j].visibility == new_visibility
                    && pre@[j].parent_path@ == new_parent && pre@[j].name@ == t.name@);
                assert(false);
            }
        } else if j == idx {
            if ci {
                assert(false);
            } else {
                assert(pre@[i].live() && pre@[i].tenant_id == t.tenant_id && pre@[
                    i
                ].department_id == new_department && pre@[i].visibility == new_visibility
                    && pre@[i].parent_path@ == new_parent && pre@[i].name@ == t.name@);
                assert(false);
            }
        } else if ci && cj {
            crate::strutil::lemma_append_injective(
                new_path,
                pre@[i].parent_path@.skip(old_path.len() as int),
                pre@[j].parent_path@.skip(old_path.len() as int),
            );
            assert(pre@[i].parent_path@ == pre@[j].parent_path@);
            assert(Catalog::move_merges(pre@, idx, t.tenant_id, t.id, t.is_directory, old_path));
            assert(false);
        } else if ci {
            assert(post@[j] == pre@[j]);
            assert(pre@[j].under_path(new_path));
            assert(pre@[j].under_path(old_path));
            assert(Catalog::carried(pre@[j], t.tenant_id, t.id, t.is_directory, old_path));
            assert(false);
        } else if cj {
            assert(post@[i] == pre@[i]);
            assert(pre@[i].under_path(new_path));
            assert(pre@[i].under_path(old_path));
            assert(Catalog::carried(pre@[i], t.tenant_id, t.id, t.is_directory, old_path));
            assert(false);
        } else {
            assert(pre@[i].names_count());
            assert(pre@[j].names_count());
            assert(pre@[i].same_name_scope(&pre@[j]));
            assert(false);
        }
    }
}

proof fn lemma_restore_preserves_wf(
    pre: Catalog,
    post: Catalog,
    tenant_id: u64,
    root_id: u64,
    root_path: Seq<char>,
)
    requires
        pre.wf(),
        !Catalog::restore_collides(pre@, tenant_id, root_id, root_path),
        post@.len() == pre@.len(),
        post.next_id == pre.next_id,
        forall|j: int|
            0 <= j < pre@.len() ==> post@[j] == Catalog::spec_restore_one(
                #[trigger] pre@[j],
                tenant_id,
                root_id,
                root_path,
            ),
    ensures
        post.wf(),
{
    assert forall|i: int| 0 <= i < post@.len() implies (#[trigger] post@[i]).row_wf() by {
        assert(pre@[i].row_wf());
    }
    assert forall|i: int| 0 <= i < post@.len() implies (#[trigger] post@[i]).id < post.next_id by {
        assert(pre@[i].id < pre.next_id);
        assert(post@[i].id == pre@[i].id);
    }
    assert forall|i: int, j: int|
        0 <= i < post@.len() && 0 <= j < post@.len() && i != j implies (#[trigger] post@[i]).id
        != (#[trigger] post@[j]).id by {
        assert(pre@[i].id != pre@[j].id);
        assert(post@[i].id == pre@[i].id);
        assert(post@[j].id == pre@[j].id);
    }
    assert forall|i: int, j: int|
        0 <= i < post@.len() && 0 <= j < post@.len() && i != j
            && (#[trigger] post@[i]).names_count() && (#[trigger] post@[j]).names_count()
            && post@[i].same_name_scope(&post@[j]) implies post@[i].name@ != post@[j].name@ by {
        let mi = Catalog::restore_member(pre@[i], tenant_id, root_id, root_path);
        let mj = Catalog::restore_member(pre@[j], tenant_id, root_id, root_path);
        if !mi && !mj {
            assert(pre@[i].names_count());
            assert(pre@[j].names_count());
            assert(pre@[i].same_name_scope(&pre@[j]));
        } else if mi {
            // Witness to a collision the first pass would have refused.
            if pre@[i].name@ == pre@[j].name@ {
                assert(Catalog::restore_collides(pre@, tenant_id, root_id, root_path)) by {
                    assert(pre@[i].same_name_scope(&pre@[j]));
                }
            }
        } else {
            if pre@[i].name@ == pre@[j].name@ {
                assert(Catalog::restore_collides(pre@, tenant_id, root_id, root_path)) by {
                    assert(pre@[j].same_name_scope(&pre@[i]));
                    assert(pre@[j].name@ == pre@[i].name@);
                }
            }
        }
    }
}

proof fn lemma_mark_preserves_wf(
    pre: Catalog,
    post: Catalog,
    tenant_id: u64,
    root_id: u64,
    root_path: Seq<char>,
    now: u64,
)
    requires
        pre.wf(),
        post@.len() == pre@.len(),
        post.next_id == pre.next_id,
        forall|j: int|
            0 <= j < pre@.len() ==> post@[j] == Catalog::spec_mark_one(
                #[trigger] pre@[j],
                tenant_id,
                root_id,
                root_path,
                now,
            ),
    ensures
        post.wf(),
{
    assert forall|i: int| 0 <= i < post@.len() implies (#[trigger] post@[i]).row_wf() by {
        assert(pre@[i].row_wf());
    }
    assert forall|i: int| 0 <= i < post@.len() implies (#[trigger] post@[i]).id < post.next_id by {
        assert(pre@[i].id < pre.next_id);
        assert(post@[i].id == pre@[i].id);
    }
    assert forall|i: int, j: int|
        0 <= i < post@.len() && 0 <= j < post@.len() && i != j implies (#[trigger] post@[i]).id
        != (#[trigger] post@[j]).id by {
        assert(pre@[i].id != pre@[j].id);
        assert(post@[i].id == pre@[i].id);
        assert(post@[j].id == pre@[j].id);
    }
    assert forall|i: int, j: int|
        0 <= i < post@.len() && 0 <= j < post@.len() && i != j
            && (#[trigger] post@[i]).names_count() && (#[trigger] post@[j]).names_count()
            && post@[i].same_name_scope(&post@[j]) implies post@[i].name@ != post@[j].name@ by {
        assert(pre@[i].names_count());
        assert(pre@[j].names_count());
        assert(pre@[i].same_name_scope(&pre@[j]));
    }
}

} // verus!
