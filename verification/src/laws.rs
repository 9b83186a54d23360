//! The laws the core stands on, each proved from what the modules state:
//! one object per content key, unique display names, reference-counted
//! survival of content, subtree rebasing, deduplication of repeated
//! content, reads surviving soft deletes, and the two round trips on
//! delete state and lock state.

use vstd::prelude::*;
use crate::access::Actor;
use crate::access::RoleLabel;
use crate::backend::Backend;
use crate::catalog::Catalog;
use crate::cas::blake3_hex;
use crate::ops::{spec_upload_ok, UploadOutcome, UploadParams};
use crate::records::FileRecord;
use crate::store::{Store, TenantConfig};
use crate::strutil::{seq_starts_with, spec_path_join};

verus! {

/// For every content key, the backend holds at most one object: two
/// slots carrying one key are one slot.
pub proof fn lemma_backend_object_unique(b: Backend, key: Seq<char>, i: int, j: int)
    requires
        b.wf(),
        0 <= i < b@.len(),
        0 <= j < b@.len(),
        b@[i] == key,
        b@[j] == key,
    ensures
        i == j,
{
    if i != j {
        assert(b@[i] != b@[j]);
    }
}

/// In every scope, display names among the live, mutable, non-directory
/// records are unique: two rows wearing one name there are one row.
/// Superseded versions under mandatory versioning are immutable and keep
/// their name by design.
pub proof fn lemma_display_names_unique(c: Catalog, i: int, j: int)
    requires
        c.wf(),
        0 <= i < c@.len(),
        0 <= j < c@.len(),
        c@[i].names_count(),
        c@[j].names_count(),
        c@[i].same_name_scope(&c@[j]),
        c@[i].name@ == c@[j].name@,
    ensures
        i == j,
{
    if i != j {
        assert(c@[i].name@ != c@[j].name@);
    }
}

/// After a permanent delete of one file record, its backing object
/// survives exactly when some live record in the scope still shares its
/// content hash. The premises are what the permanent-delete handler
/// ensures for a record that is the sole member of its purge.
pub proof fn lemma_permanent_delete_reference_counted(
    pre: Store,
    post: Store,
    tenant_id: u64,
    file_id: u64,
    i: int,
)
    requires
        pre.wf(),
        0 <= i < pre.catalog@.len(),
        pre.catalog@[i].id == file_id,
        pre.catalog@[i].tenant_id == tenant_id,
        pre.catalog@[i].is_deleted,
        !pre.catalog@[i].is_directory,
        // The record is the purge's sole member.
        forall|j: int|
            0 <= j < pre.catalog@.len() && j != i ==> !Catalog::restore_member(
                #[trigger] pre.catalog@[j],
                tenant_id,
                file_id,
                pre.catalog@[i].spec_path(),
            ),
        // What the permanent-delete handler ensures of the backend.
        forall|kk: Seq<char>|
            #[trigger] post.backend.spec_contains(kk) ==> pre.backend.spec_contains(kk),
        forall|j: int|
            0 <= j < pre.catalog@.len() && Catalog::restore_member(
                #[trigger] pre.catalog@[j],
                tenant_id,
                file_id,
                pre.catalog@[i].spec_path(),
            ) && !pre.catalog@[j].is_directory && crate::ops::spec_no_live_sharer(
                pre.catalog@,
                j,
            ) ==> !post.backend.spec_contains(pre.catalog@[j].storage_key@),
        forall|kk: Seq<char>|
            pre.backend.spec_contains(kk) && (forall|j: int|
                0 <= j < pre.catalog@.len() ==> !(Catalog::restore_member(
                    #[trigger] pre.catalog@[j],
                    tenant_id,
                    file_id,
                    pre.catalog@[i].spec_path(),
                ) && !pre.catalog@[j].is_directory && pre.catalog@[j].storage_key@ == kk
                    && crate::ops::spec_no_live_sharer(pre.catalog@, j)))
                ==> #[trigger] post.backend.spec_contains(kk),
    ensures
        // A live record sharing the hash keeps the object alive.
        !crate::ops::spec_no_live_sharer(pre.catalog@, i) ==> post.backend.spec_contains(
            pre.catalog@[i].storage_key@,
        ) == pre.backend.spec_contains(pre.catalog@[i].storage_key@),
        // With no live sharer left, the object is gone.
        crate::ops::spec_no_live_sharer(pre.catalog@, i) ==> !post.backend.spec_contains(
            pre.catalog@[i].storage_key@,
        ),
{
    let key = pre.catalog@[i].storage_key@;
    assert(Catalog::restore_member(
        pre.catalog@[i],
        tenant_id,
        file_id,
        pre.catalog@[i].spec_path(),
    ));
    if !crate::ops::spec_no_live_sharer(pre.catalog@, i) {
        if pre.backend.spec_contains(key) {
            assert forall|j: int|
                0 <= j < pre.catalog@.len() implies !(Catalog::restore_member(
                #[trigger] pre.catalog@[j],
                tenant_id,
                file_id,
                pre.catalog@[i].spec_path(),
            ) && !pre.catalog@[j].is_directory && pre.catalog@[j].storage_key@ == key
                && crate::ops::spec_no_live_sharer(pre.catalog@, j)) by {
                if j != i {
                } else {
                }
            }
            assert(post.backend.spec_contains(key));
        } else {
            if post.backend.spec_contains(key) {
                assert(pre.backend.spec_contains(key));
            }
        }
    }
}

/// After a directory rename, every carried descendant's parent path
/// begins with the directory's new effective path.
pub proof fn lemma_rename_rebases_descendants(
    pre: Seq<FileRecord>,
    post: Seq<FileRecord>,
    i: int,
    base: Seq<char>,
    now: u64,
    j: int,
)
    requires
        0 <= i < pre.len(),
        0 <= j < pre.len(),
        j != i,
        crate::ops::spec_rename_applied(pre, post, i, base, now),
        Catalog::carried(
            pre[j],
            pre[i].tenant_id,
            pre[i].id,
            pre[i].is_directory,
            pre[i].spec_path(),
        ),
    ensures
        seq_starts_with(post[j].parent_path@, spec_path_join(pre[i].parent_path@, base)),
{
    let old_path = pre[i].spec_path();
    let new_path = spec_path_join(pre[i].parent_path@, base);
    crate::catalog::lemma_under_path_decompose(pre[j].parent_path@, old_path);
    crate::catalog::lemma_rewritten_under(pre[j].parent_path@, old_path, new_path);
    assert(post[j].parent_path@ == new_path + pre[j].parent_path@.skip(old_path.len() as int));
    let tail = pre[j].parent_path@.skip(old_path.len() as int);
    if post[j].parent_path@ == new_path {
        assert(post[j].parent_path@.subrange(0, new_path.len() as int) =~= new_path);
    } else {
        assert(seq_starts_with(post[j].parent_path@, new_path + seq!['/']));
        assert(post[j].parent_path@.subrange(0, new_path.len() as int) =~= new_path) by {
            assert forall|k: int| 0 <= k < new_path.len() implies post[j].parent_path@[k]
                == new_path[k] by {
                assert(post[j].parent_path@.subrange(
                    0,
                    (new_path + seq!['/']).len() as int,
                ) == new_path + seq!['/']);
                assert(post[j].parent_path@.subrange(
                    0,
                    (new_path + seq!['/']).len() as int,
                )[k] == post[j].parent_path@[k]);
            }
        }
    }
}

/// After a directory move, the same: every carried descendant sits below
/// the directory's new effective path.
pub proof fn lemma_move_rebases_descendants(
    pre: Seq<FileRecord>,
    post: Seq<FileRecord>,
    i: int,
    new_parent: Seq<char>,
    new_department: Option<u64>,
    new_visibility: crate::records::Visibility,
    mover: u64,
    now: u64,
    j: int,
)
    requires
        0 <= i < pre.len(),
        0 <= j < pre.len(),
        j != i,
        crate::ops::spec_move_applied(
            pre,
            post,
            i,
            new_parent,
            new_department,
            new_visibility,
            mover,
            now,
        ),
        Catalog::carried(
            pre[j],
            pre[i].tenant_id,
            pre[i].id,
            pre[i].is_directory,
            pre[i].spec_path(),
        ),
    ensures
        seq_starts_with(post[j].parent_path@, spec_path_join(new_parent, pre[i].name@)),
{
    let old_path = pre[i].spec_path();
    let new_path = spec_path_join(new_parent, pre[i].name@);
    crate::catalog::lemma_under_path_decompose(pre[j].parent_path@, old_path);
    crate::catalog::lemma_rewritten_under(pre[j].parent_path@, old_path, new_path);
    assert(post[j].parent_path@ == new_path + pre[j].parent_path@.skip(old_path.len() as int));
    if post[j].parent_path@ == new_path {
        assert(post[j].parent_path@.subrange(0, new_path.len() as int) =~= new_path);
    } else {
        assert(seq_starts_with(post[j].parent_path@, new_path + seq!['/']));
        assert(post[j].parent_path@.subrange(0, new_path.len() as int) =~= new_path) by {
            assert forall|k: int| 0 <= k < new_path.len() implies post[j].parent_path@[k]
                == new_path[k] by {
                assert(post[j].parent_path@.subrange(
                    0,
                    (new_path + seq!['/']).len() as int,
                ) == new_path + seq!['/']);
                assert(post[j].parent_path@.subrange(
                    0,
                    (new_path + seq!['/']).len() as int,
                )[k] == post[j].parent_path@[k]);
            }
        }
    }
}

/// A second upload of byte-identical content in the same scope writes
/// nothing to the backend, reports the deduplication, and returns the
/// first upload's content hash: repeated content costs one object.
pub proof fn lemma_repeated_upload_deduplicates(
    s0: Store,
    s1: Store,
    s2: Store,
    cfg1: &TenantConfig,
    cfg2: &TenantConfig,
    actor1: &Actor,
    actor2: &Actor,
    tenant_id: u64,
    params1: &UploadParams,
    params2: &UploadParams,
    name1: Seq<char>,
    name2: Seq<char>,
    ctype1: Seq<char>,
    ctype2: Seq<char>,
    data: Seq<u8>,
    now1: u64,
    now2: u64,
    out1: UploadOutcome,
    out2: UploadOutcome,
)
    requires
        spec_upload_ok(s0, s1, cfg1, actor1, tenant_id, params1, name1, ctype1, data, now1, out1),
        spec_upload_ok(s1, s2, cfg2, actor2, tenant_id, params2, name2, ctype2, data, now2, out2),
        actor2.department_id == actor1.department_id,
    ensures
        out2.deduplicated,
        out2.content_hash@ == out1.content_hash@,
        s2.backend@ == s1.backend@,
{
    let hash = blake3_hex(data);
    let newr = s1.catalog@.last();
    assert(Catalog::hash_match(&newr, tenant_id, actor2.department_id, hash));
    assert(exists|j: int|
        0 <= j < s1.catalog@.len() && Catalog::hash_match(
            &(#[trigger] s1.catalog@[j]),
            tenant_id,
            actor2.department_id,
            hash,
        )) by {
        assert(Catalog::hash_match(
            &s1.catalog@[s1.catalog@.len() - 1],
            tenant_id,
            actor2.department_id,
            hash,
        ));
    }
}

/// A read that resolved its plan before a concurrent soft delete still
/// finds its bytes: a soft delete never touches the backend, so every
/// object present before it is present after it.
pub proof fn lemma_read_survives_soft_delete(pre: Store, post: Store, key: Seq<char>)
    requires
        post.backend@ == pre.backend@,
        pre.backend.spec_contains(key),
    ensures
        post.backend.spec_contains(key),
{
}

/// Soft delete then restore is the identity on a record's state: a live,
/// well-formed record swept into a subtree delete and then restored is
/// exactly itself, timestamps included, because a live record carries no
/// deletion stamp to begin with.
pub proof fn lemma_delete_then_restore_round_trip(
    r: FileRecord,
    tenant_id: u64,
    root_id: u64,
    root_path: Seq<char>,
    now: u64,
)
    requires
        r.live(),
        r.row_wf(),
    ensures
        Catalog::spec_restore_one(
            Catalog::spec_mark_one(r, tenant_id, root_id, root_path, now),
            tenant_id,
            root_id,
            root_path,
        ) == r,
{
}

/// Lock then unlock is the identity on lock state: clearing a lock that
/// was just placed on an unlocked, well-formed record gives back exactly
/// that record, because an unlocked record carries no lock fields.
pub proof fn lemma_lock_then_unlock_round_trip(
    r: FileRecord,
    locker: u64,
    now: u64,
    password_hash: Option<String>,
    requires_role: Option<RoleLabel>,
)
    requires
        !r.is_locked,
        r.row_wf(),
    ensures
        (FileRecord {
            is_locked: false,
            locked_by: None,
            locked_at: None,
            lock_password_hash: None,
            lock_requires_role: None,
            ..(FileRecord {
                is_locked: true,
                locked_by: Some(locker),
                locked_at: Some(now),
                lock_password_hash: password_hash,
                lock_requires_role: requires_role,
                ..r
            })
        }) == r,
{
}

} // verus!
