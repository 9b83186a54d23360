//! The request orchestrator: the handlers that thread one request through
//! the access engine, the catalog, the content-addressed store and the
//! backend.

use vstd::prelude::*;
use argon2::{Argon2, PasswordHasher, PasswordVerifier};
use crate::access::{decide, spec_decide, Action, Actor, Resource, RoleLabel};
use crate::cas;
use crate::cas::blake3_hex;
use crate::catalog::Catalog;
use crate::compliance::ComplianceRestrictions;
use crate::errors::CoreError;
use crate::records::{opt_u64_eq, opt_u64_is, FileRecord, Visibility};
use crate::store::{Store, TenantConfig};
use crate::strutil::{
    lower_chars, spec_dec, spec_lower, str_eq, str_starts_with, string_of, u64_dec_chars,
};
use vstd::string::StrSliceExecFns;

verus! {

/// The caller addresses this tenant legitimately: it is their own, or they
/// hold the platform super-admin role.
pub open spec fn spec_tenant_ok(actor: &Actor, tenant_id: u64) -> bool {
    actor.tenant_id == tenant_id || actor.role == RoleLabel::SuperAdmin
}

pub fn tenant_ok(actor: &Actor, tenant_id: u64) -> (r: bool)
    ensures
        r == spec_tenant_ok(actor, tenant_id),
{
    actor.tenant_id == tenant_id || matches!(actor.role, RoleLabel::SuperAdmin)
}

/// The position of the last dot in a name, or a negative value when there
/// is none.
pub open spec fn spec_last_dot(s: Seq<char>) -> int
    decreases s.len(),
{
    if s.len() == 0 {
        -1
    } else if s.last() == '.' {
        s.len() - 1
    } else {
        spec_last_dot(s.drop_last())
    }
}

/// The stem and the dotted tail a name splits into for auto-renaming:
/// everything before the last dot, and the last dot with what follows. A
/// name without a dot is all stem.
pub open spec fn spec_name_stem(s: Seq<char>) -> Seq<char> {
    if spec_last_dot(s) >= 0 {
        s.take(spec_last_dot(s))
    } else {
        s
    }
}

pub open spec fn spec_name_tail(s: Seq<char>) -> Seq<char> {
    if spec_last_dot(s) >= 0 {
        s.skip(spec_last_dot(s))
    } else {
        Seq::empty()
    }
}

/// The extension the blocked-list is held against: what follows the last
/// dot, provided the dot is neither the first character nor the last.
pub open spec fn spec_extension(s: Seq<char>) -> Option<Seq<char>> {
    let d = spec_last_dot(s);
    if 1 <= d && d < s.len() - 1 {
        Some(s.skip(d + 1))
    } else {
        None
    }
}

/// The name trips the tenant's blocked-extension list, compared without
/// regard to ASCII case.
pub open spec fn spec_ext_blocked(name: Seq<char>, blocked: Seq<String>) -> bool {
    match spec_extension(name) {
        Option::Some(ext) => exists|b: int|
            0 <= b < blocked.len() && spec_lower((#[trigger] blocked[b])@) == spec_lower(ext),
        Option::None => false,
    }
}

/// The candidate a duplicate name is bent into: the stem, a space, the
/// counter in parentheses, then the dotted tail.
pub open spec fn spec_numbered(name: Seq<char>, n: nat) -> Seq<char> {
    spec_name_stem(name) + " ("@ + spec_dec(n) + ")"@ + spec_name_tail(name)
}

/// The fallback candidate when a thousand numbered names are all taken:
/// the stem, an underscore, the fresh record identifier, the dotted tail.
pub open spec fn spec_fallback_name(name: Seq<char>, id: u64) -> Seq<char> {
    spec_name_stem(name) + "_"@ + spec_dec(id as nat) + spec_name_tail(name)
}

/// No live record occupies `name` in the scope.
pub open spec fn spec_name_free(
    s: Seq<FileRecord>,
    tenant_id: u64,
    department_id: Option<u64>,
    parent_path: Seq<char>,
    visibility: Visibility,
    name: Seq<char>,
) -> bool {
    forall|j: int|
        0 <= j < s.len() ==> !Catalog::scope_match(
            &(#[trigger] s[j]),
            tenant_id,
            department_id,
            parent_path,
            visibility,
            name,
        )
}

/// Finds the last dot of `name`, if any.
fn find_last_dot(name: &Vec<char>) -> (r: Option<usize>)
    ensures
        match r {
            Option::Some(d) => spec_last_dot(name@) == d && d < name@.len(),
            Option::None => spec_last_dot(name@) < 0,
        },
{
    let mut i: usize = name.len();
    proof {
        assert(name@.take(name@.len() as int) =~= name@);
    }
    while i > 0
        invariant
            i <= name@.len(),
            spec_last_dot(name@) == spec_last_dot(name@.take(i as int)),
        decreases i,
    {
        proof {
            assert(name@.take(i as int).drop_last() =~= name@.take(i - 1 as int));
            assert(name@.take(i as int).last() == name@[i - 1 as int]);
        }
        if name[i - 1] == '.' {
            return Some(i - 1);
        }
        i = i - 1;
    }
    proof {
        assert(name@.take(0) =~= Seq::<char>::empty());
    }
    None
}

/// Renders a numbered candidate for a taken name.
fn numbered_name(stem: &Vec<char>, tail: &Vec<char>, n: u64) -> (r: Vec<char>)
    requires
        n >= 1,
    ensures
        r@ == stem@ + " ("@ + spec_dec(n as nat) + ")"@ + tail@,
{
    proof {
        reveal_strlit(" (");
        reveal_strlit(")");
    }
    let mut v: Vec<char> = Vec::new();
    let mut i: usize = 0;
    while i < stem.len()
        invariant
            i <= stem@.len(),
            v@ == stem@.subrange(0, i as int),
        decreases stem@.len() - i,
    {
        v.push(stem[i]);
        assert(v@ =~= stem@.subrange(0, i + 1 as int));
        i = i + 1;
    }
    proof {
        assert(v@ =~= stem@);
    }
    v.push(' ');
    v.push('(');
    let digits = u64_dec_chars(n);
    let mut j: usize = 0;
    while j < digits.len()
        invariant
            j <= digits@.len(),
            v@ == stem@ + seq![' ', '('] + digits@.subrange(0, j as int),
        decreases digits@.len() - j,
    {
        v.push(digits[j]);
        assert(v@ =~= stem@ + seq![' ', '('] + digits@.subrange(0, j + 1 as int));
        j = j + 1;
    }
    v.push(')');
    let mut k: usize = 0;
    while k < tail.len()
        invariant
            k <= tail@.len(),
            v@ == stem@ + seq![' ', '('] + digits@ + seq![')'] + tail@.subrange(0, k as int),
        decreases tail@.len() - k,
    {
        v.push(tail[k]);
        assert(v@ =~= stem@ + seq![' ', '('] + digits@ + seq![')'] + tail@.subrange(
            0,
            k + 1 as int,
        ));
        k = k + 1;
    }
    proof {
        assert(" ("@ =~= seq![' ', '(']);
        assert(")"@ =~= seq![')']);
        assert(v@ =~= stem@ + " ("@ + spec_dec(n as nat) + ")"@ + tail@);
    }
    v
}

/// Renders the fallback candidate.
fn fallback_name(stem: &Vec<char>, tail: &Vec<char>, id: u64) -> (r: Vec<char>)
    ensures
        r@ == stem@ + "_"@ + spec_dec(id as nat) + tail@,
{
    proof {
        reveal_strlit("_");
    }
    let mut v: Vec<char> = Vec::new();
    let mut i: usize = 0;
    while i < stem.len()
        invariant
            i <= stem@.len(),
            v@ == stem@.subrange(0, i as int),
        decreases stem@.len() - i,
    {
        v.push(stem[i]);
        assert(v@ =~= stem@.subrange(0, i + 1 as int));
        i = i + 1;
    }
    proof {
        assert(v@ =~= stem@);
    }
    v.push('_');
    let digits = u64_dec_chars(id);
    let mut j: usize = 0;
    while j < digits.len()
        invariant
            j <= digits@.len(),
            v@ == stem@ + seq!['_'] + digits@.subrange(0, j as int),
        decreases digits@.len() - j,
    {
        v.push(digits[j]);
        assert(v@ =~= stem@ + seq!['_'] + digits@.subrange(0, j + 1 as int));
        j = j + 1;
    }
    let mut k: usize = 0;
    while k < tail.len()
        invariant
            k <= tail@.len(),
            v@ == stem@ + seq!['_'] + digits@ + tail@.subrange(0, k as int),
        decreases tail@.len() - k,
    {
        v.push(tail[k]);
        assert(v@ =~= stem@ + seq!['_'] + digits@ + tail@.subrange(0, k + 1 as int));
        k = k + 1;
    }
    proof {
        assert("_"@ =~= seq!['_']);
        assert(v@ =~= stem@ + "_"@ + spec_dec(id as nat) + tail@);
    }
    v
}

/// Whether `name` trips the tenant's blocked-extension list.
pub fn extension_blocked(name: &Vec<char>, blocked: &Vec<String>) -> (r: bool)
    ensures
        r == spec_ext_blocked(name@, blocked@),
{
    let d = match find_last_dot(name) {
        Option::Some(d) => d,
        Option::None => {
            return false;
        },
    };
    proof {
        assert(d < name@.len());
    }
    if d < 1 {
        return false;
    }
    if d >= name.len() - 1 {
        return false;
    }
    // The extension, lowered for a case-blind comparison.
    let mut ext: Vec<char> = Vec::new();
    let mut i: usize = d + 1;
    while i < name.len()
        invariant
            d + 1 <= i <= name@.len(),
            ext@ == name@.subrange(d + 1, i as int),
        decreases name@.len() - i,
    {
        ext.push(name[i]);
        assert(ext@ =~= name@.subrange(d + 1, i + 1 as int));
        i = i + 1;
    }
    proof {
        assert(ext@ =~= name@.skip(d + 1));
    }
    let ext_low = lower_chars(&ext);
    let mut b: usize = 0;
    while b < blocked.len()
        invariant
            b <= blocked@.len(),
            ext_low@ == spec_lower(name@.skip(spec_last_dot(name@) + 1)),
            1 <= spec_last_dot(name@) < name@.len() - 1,
            forall|x: int|
                0 <= x < b ==> spec_lower((#[trigger] blocked@[x])@) != spec_lower(
                    name@.skip(spec_last_dot(name@) + 1),
                ),
        decreases blocked@.len() - b,
    {
        let entry = crate::strutil::chars_of(blocked[b].as_str());
        let entry_low = lower_chars(&entry);
        let lowered = string_of(&entry_low);
        let target = string_of(&ext_low);
        if str_eq(lowered.as_str(), target.as_str()) {
            return true;
        }
        b = b + 1;
    }
    false
}

/// Picks the first free numbered candidate for a taken name, probing
/// counters from one up to a small ceiling, then one opaque fallback
/// carrying the fresh record identifier.
fn choose_free_name(
    catalog: &Catalog,
    tenant_id: u64,
    department_id: &Option<u64>,
    parent_path: &str,
    visibility: Visibility,
    name_chars: &Vec<char>,
    name: &str,
    fresh_id: u64,
) -> (r: Result<String, CoreError>)
    requires
        name_chars@ == name@,
    ensures
        match r {
            Result::Ok(s) => {
                &&& spec_name_free(
                    catalog@,
                    tenant_id,
                    *department_id,
                    parent_path@,
                    visibility,
                    s@,
                )
                &&& ((exists|n: nat|
                    1 <= n <= 999 && s@ == spec_numbered(name@, n) && (forall|m: nat|
                        1 <= m < n ==> !spec_name_free(
                            catalog@,
                            tenant_id,
                            *department_id,
                            parent_path@,
                            visibility,
                            #[trigger] spec_numbered(name@, m),
                        ))) || (s@ == spec_fallback_name(name@, fresh_id) && (forall|n: nat|
                    1 <= n <= 999 ==> !spec_name_free(
                        catalog@,
                        tenant_id,
                        *department_id,
                        parent_path@,
                        visibility,
                        #[trigger] spec_numbered(name@, n),
                    ))))
            },
            Result::Err(e) => {
                &&& e == CoreError::Duplicate
                &&& (forall|n: nat|
                    1 <= n <= 999 ==> !spec_name_free(
                        catalog@,
                        tenant_id,
                        *department_id,
                        parent_path@,
                        visibility,
                        #[trigger] spec_numbered(name@, n),
                    ))
                &&& !spec_name_free(
                    catalog@,
                    tenant_id,
                    *department_id,
                    parent_path@,
                    visibility,
                    spec_fallback_name(name@, fresh_id),
                )
            },
        },
{
    let (stem, tail) = split_name(name_chars);
    let mut n: u64 = 1;
    while n <= 999
        invariant
            1 <= n <= 1000,
            stem@ == spec_name_stem(name@),
            tail@ == spec_name_tail(name@),
            forall|m: nat|
                1 <= m < n ==> !spec_name_free(
                    catalog@,
                    tenant_id,
                    *department_id,
                    parent_path@,
                    visibility,
                    #[trigger] spec_numbered(name@, m),
                ),
        decreases 1000 - n,
    {
        let cand = numbered_name(&stem, &tail, n);
        let cand_s = string_of(&cand);
        proof {
            assert(cand_s@ == spec_numbered(name@, n as nat));
        }
        match catalog.find_live_by_scope(
            tenant_id,
            department_id,
            parent_path,
            visibility,
            cand_s.as_str(),
        ) {
            Option::Some(_) => {},
            Option::None => {
                return Ok(cand_s);
            },
        }
        n = n + 1;
    }
    let fb = fallback_name(&stem, &tail, fresh_id);
    let fb_s = string_of(&fb);
    proof {
        assert(fb_s@ == spec_fallback_name(name@, fresh_id));
    }
    match catalog.find_live_by_scope(
        tenant_id,
        department_id,
        parent_path,
        visibility,
        fb_s.as_str(),
    ) {
        Option::Some(_) => Err(CoreError::Duplicate),
        Option::None => Ok(fb_s),
    }
}

/// Splits a name into its stem and its dotted tail.
fn split_name(name: &Vec<char>) -> (r: (Vec<char>, Vec<char>))
    ensures
        r.0@ == spec_name_stem(name@),
        r.1@ == spec_name_tail(name@),
{
    let d_opt = find_last_dot(name);
    let mut stem: Vec<char> = Vec::new();
    let mut tail: Vec<char> = Vec::new();
    let cut: usize = match d_opt {
        Option::Some(d) => d,
        Option::None => name.len(),
    };
    let mut i: usize = 0;
    while i < cut
        invariant
            cut <= name@.len(),
            i <= cut,
            stem@ == name@.subrange(0, i as int),
        decreases cut - i,
    {
        stem.push(name[i]);
        assert(stem@ =~= name@.subrange(0, i + 1 as int));
        i = i + 1;
    }
    let mut j: usize = cut;
    while j < name.len()
        invariant
            cut <= j <= name@.len(),
            tail@ == name@.subrange(cut as int, j as int),
        decreases name@.len() - j,
    {
        tail.push(name[j]);
        assert(tail@ =~= name@.subrange(cut as int, j + 1 as int));
        j = j + 1;
    }
    proof {
        match d_opt {
            Option::Some(d) => {
                assert(stem@ =~= name@.take(d as int));
                assert(tail@ =~= name@.skip(d as int));
            },
            Option::None => {
                assert(stem@ =~= name@);
                assert(tail@ =~= Seq::<char>::empty());
            },
        }
    }
    (stem, tail)
}

/// Mandatory versioning would have to count past the version field's
/// range: a live predecessor already sits at the maximum.
pub open spec fn spec_version_overflow(
    s: Seq<FileRecord>,
    cfg: &TenantConfig,
    actor: &Actor,
    tenant_id: u64,
    params: &UploadParams,
    name: Seq<char>,
) -> bool {
    ComplianceRestrictions::spec_for_mode(cfg.compliance_mode).file_versioning_required
        && exists|vi: int|
        0 <= vi < s.len() && Catalog::scope_file_match(
            &(#[trigger] s[vi]),
            tenant_id,
            actor.department_id,
            spec_opt_path(params.parent_path),
            spec_opt_vis(params.visibility),
            name,
        ) && s[vi].version == u32::MAX
}

/// Everything a successful upload guarantees about the new store state and
/// the outcome.
pub open spec fn spec_upload_ok(
    pre: Store,
    post: Store,
    cfg: &TenantConfig,
    actor: &Actor,
    tenant_id: u64,
    params: &UploadParams,
    name: Seq<char>,
    ctype: Seq<char>,
    data: Seq<u8>,
    now: u64,
    out: UploadOutcome,
) -> bool {
    let hash = blake3_hex(data);
    let dept = actor.department_id;
    let pp = spec_opt_path(params.parent_path);
    let vis = spec_opt_vis(params.visibility);
    let versioning = ComplianceRestrictions::spec_for_mode(
        cfg.compliance_mode,
    ).file_versioning_required;
    let newr = post.catalog@.last();
    &&& spec_tenant_ok(actor, tenant_id)
    &&& !spec_ext_blocked(name, cfg.blocked_extensions@)
    &&& (match cfg.max_upload_size_bytes {
        Option::Some(m) => data.len() <= m,
        Option::None => true,
    })
    &&& (match cfg.storage_quota_bytes {
        Option::Some(q) => Catalog::spec_storage_used(pre.catalog@, tenant_id) + data.len() <= q,
        Option::None => true,
    })
    // The fresh catalog row.
    &&& post.catalog@.len() == pre.catalog@.len() + 1
    &&& post.catalog.next_id == pre.catalog.next_id + 1
    &&& out.file_id == pre.catalog.next_id
    &&& newr.id == out.file_id
    &&& newr.tenant_id == tenant_id
    &&& newr.department_id == dept
    &&& newr.parent_path@ == pp
    &&& newr.name == out.file_name
    &&& newr.size_bytes == data.len()
    &&& newr.content_type@ == ctype
    &&& !newr.is_directory
    &&& newr.owner_id == Some(actor.user_id)
    &&& newr.visibility == vis
    &&& newr.version == out.version
    &&& !newr.is_immutable
    &&& newr.live()
    &&& !newr.is_locked
    &&& newr.content_hash@ == hash
    &&& newr.storage_key == out.storage_key
    &&& newr.created_at == now
    &&& newr.updated_at == now
    // The digest pins the content.
    &&& out.content_hash@ == hash
    &&& out.was_renamed == (out.file_name@ != name)
    // Versioning: the predecessor turns immutable and the version counts
    // up; otherwise the catalog's old rows stand untouched.
    &&& (if versioning {
        ((exists|vi: int|
            0 <= vi < pre.catalog@.len() && Catalog::scope_file_match(
                &(#[trigger] pre.catalog@[vi]),
                tenant_id,
                dept,
                pp,
                vis,
                name,
            ) && out.version == pre.catalog@[vi].version + 1 && newr.version_parent_id == Some(
                pre.catalog@[vi].id,
            ) && post.catalog@[vi] == (FileRecord { is_immutable: true, ..pre.catalog@[vi] })
                && (forall|j: int|
                0 <= j < pre.catalog@.len() && j != vi ==> post.catalog@[j] == pre.catalog@[j]))
            || (out.version == 1 && newr.version_parent_id is None && (forall|j: int|
            0 <= j < pre.catalog@.len() ==> post.catalog@[j] == pre.catalog@[j]) && (forall|
            vi: int,
        |
            0 <= vi < pre.catalog@.len() ==> !Catalog::scope_file_match(
                &(#[trigger] pre.catalog@[vi]),
                tenant_id,
                dept,
                pp,
                vis,
                name,
            )))) && out.file_name@ == name
    } else {
        &&& out.version == 1
        &&& newr.version_parent_id is None
        &&& (forall|j: int|
            0 <= j < pre.catalog@.len() ==> post.catalog@[j] == pre.catalog@[j])
        &&& spec_name_free(pre.catalog@, tenant_id, dept, pp, vis, out.file_name@)
        &&& (spec_name_free(pre.catalog@, tenant_id, dept, pp, vis, name) ==> out.file_name@
            == name)
        &&& (!spec_name_free(pre.catalog@, tenant_id, dept, pp, vis, name) ==> ((exists|n: nat|
            1 <= n <= 999 && out.file_name@ == spec_numbered(name, n) && (forall|m: nat|
                1 <= m < n ==> !spec_name_free(
                    pre.catalog@,
                    tenant_id,
                    dept,
                    pp,
                    vis,
                    #[trigger] spec_numbered(name, m),
                ))) || out.file_name@ == spec_fallback_name(name, pre.catalog.next_id)))
    })
    // Deduplication and the backend.
    &&& out.deduplicated == ((exists|j: int|
        0 <= j < pre.catalog@.len() && Catalog::hash_match(
            &(#[trigger] pre.catalog@[j]),
            tenant_id,
            dept,
            hash,
        )) || pre.backend.spec_contains(cas::spec_content_key(tenant_id, dept, hash)))
    &&& (if (exists|j: int|
        0 <= j < pre.catalog@.len() && Catalog::hash_match(
            &(#[trigger] pre.catalog@[j]),
            tenant_id,
            dept,
            hash,
        )) {
        (exists|j: int|
            0 <= j < pre.catalog@.len() && Catalog::hash_match(
                &(#[trigger] pre.catalog@[j]),
                tenant_id,
                dept,
                hash,
            ) && pre.catalog@[j].storage_key@ == out.storage_key@) && post.backend@
            == pre.backend@
    } else {
        out.storage_key@ == cas::spec_content_key(tenant_id, dept, hash)
            && post.backend.spec_contains(out.storage_key@) && (forall|k: Seq<char>|
            #[trigger] post.backend.spec_contains(k) == (pre.backend.spec_contains(k) || k
                == out.storage_key@))
    })
    &&& (out.deduplicated ==> post.backend@ == pre.backend@)
    &&& (!out.deduplicated ==> post.backend@ == pre.backend@.push(out.storage_key@)
        && !pre.backend.spec_contains(out.storage_key@))
}

/// Request parameters of an upload: where the file goes and who may see
/// it. Absent values mean the root and department visibility.
pub struct UploadParams {
    pub parent_path: Option<String>,
    pub visibility: Option<Visibility>,
}

pub open spec fn spec_opt_path(o: Option<String>) -> Seq<char> {
    match o {
        Option::Some(s) => s@,
        Option::None => Seq::empty(),
    }
}

pub open spec fn spec_opt_vis(o: Option<Visibility>) -> Visibility {
    match o {
        Option::Some(v) => v,
        Option::None => Visibility::Department,
    }
}

/// What a completed upload reports: the fresh record, the possibly bent
/// name, and whether the bytes were already present.
#[derive(Debug)]
pub struct UploadOutcome {
    pub file_id: u64,
    pub file_name: String,
    pub was_renamed: bool,
    pub deduplicated: bool,
    pub content_hash: String,
    pub storage_key: String,
    pub version: u32,
}

/// The upload handler.
///
/// Verifies tenant isolation, holds the name against the blocked-extension
/// list, settles the display name — a new immutable version under
/// mandatory versioning, an auto-rename otherwise — ingests the bytes
/// through the content-addressed store, and writes the catalog row. The
/// caller wraps the call in a transfer-scheduler permit; downstream
/// side work never fails the request and stays outside this function.
#[verifier::loop_isolation(false)]
#[verifier::rlimit(60)]
pub fn upload_file(
    store: &mut Store,
    cfg: &TenantConfig,
    actor: &Actor,
    tenant_id: u64,
    params: UploadParams,
    file_name: String,
    content_type: String,
    data: &Vec<u8>,
    now: u64,
) -> (r: Result<UploadOutcome, CoreError>)
    requires
        old(store).wf(),
    ensures
        final(store).wf(),
        r is Err ==> final(store).catalog@ == old(store).catalog@ && final(store).backend@ == old(
            store,
        ).backend@ && final(store).catalog.next_id == old(store).catalog.next_id,
        (r == Err::<UploadOutcome, CoreError>(CoreError::Forbidden)) == !spec_tenant_ok(
            actor,
            tenant_id,
        ),
        (r == Err::<UploadOutcome, CoreError>(CoreError::InvalidName)) == (spec_tenant_ok(
            actor,
            tenant_id,
        ) && file_name@.len() == 0),
        (r == Err::<UploadOutcome, CoreError>(CoreError::BlockedExtension)) == (spec_tenant_ok(
            actor,
            tenant_id,
        ) && file_name@.len() > 0 && spec_ext_blocked(file_name@, cfg.blocked_extensions@)),
        (r == Err::<UploadOutcome, CoreError>(CoreError::TooLarge)) == (spec_tenant_ok(
            actor,
            tenant_id,
        ) && file_name@.len() > 0 && !spec_ext_blocked(file_name@, cfg.blocked_extensions@) && old(
            store,
        ).catalog.next_id < u64::MAX && (match cfg.max_upload_size_bytes {
            Option::Some(m) => data@.len() > m,
            Option::None => false,
        })),
        (r == Err::<UploadOutcome, CoreError>(CoreError::QuotaExceeded)) == (spec_tenant_ok(
            actor,
            tenant_id,
        ) && file_name@.len() > 0 && !spec_ext_blocked(file_name@, cfg.blocked_extensions@) && old(
            store,
        ).catalog.next_id < u64::MAX && (match cfg.max_upload_size_bytes {
            Option::Some(m) => data@.len() <= m,
            Option::None => true,
        }) && (match cfg.storage_quota_bytes {
            Option::Some(q) => Catalog::spec_storage_used(old(store).catalog@, tenant_id)
                + data@.len() > q,
            Option::None => false,
        })),
        (r == Err::<UploadOutcome, CoreError>(CoreError::Internal)) == (spec_tenant_ok(
            actor,
            tenant_id,
        ) && file_name@.len() > 0 && !spec_ext_blocked(file_name@, cfg.blocked_extensions@) && (old(
            store,
        ).catalog.next_id == u64::MAX || ((match cfg.max_upload_size_bytes {
            Option::Some(m) => data@.len() <= m,
            Option::None => true,
        }) && (match cfg.storage_quota_bytes {
            Option::Some(q) => Catalog::spec_storage_used(old(store).catalog@, tenant_id)
                + data@.len() <= q,
            Option::None => true,
        }) && spec_version_overflow(
            old(store).catalog@,
            cfg,
            actor,
            tenant_id,
            &params,
            file_name@,
        )))),
        (r == Err::<UploadOutcome, CoreError>(CoreError::Duplicate)) == (spec_tenant_ok(
            actor,
            tenant_id,
        ) && file_name@.len() > 0 && !spec_ext_blocked(file_name@, cfg.blocked_extensions@) && old(
            store,
        ).catalog.next_id < u64::MAX && (match cfg.max_upload_size_bytes {
            Option::Some(m) => data@.len() <= m,
            Option::None => true,
        }) && (match cfg.storage_quota_bytes {
            Option::Some(q) => Catalog::spec_storage_used(old(store).catalog@, tenant_id)
                + data@.len() <= q,
            Option::None => true,
        }) && !ComplianceRestrictions::spec_for_mode(
            cfg.compliance_mode,
        ).file_versioning_required && !spec_name_free(
            old(store).catalog@,
            tenant_id,
            actor.department_id,
            spec_opt_path(params.parent_path),
            spec_opt_vis(params.visibility),
            file_name@,
        ) && (forall|n: nat|
            1 <= n <= 999 ==> !spec_name_free(
                old(store).catalog@,
                tenant_id,
                actor.department_id,
                spec_opt_path(params.parent_path),
                spec_opt_vis(params.visibility),
                #[trigger] spec_numbered(file_name@, n),
            )) && !spec_name_free(
            old(store).catalog@,
            tenant_id,
            actor.department_id,
            spec_opt_path(params.parent_path),
            spec_opt_vis(params.visibility),
            spec_fallback_name(file_name@, old(store).catalog.next_id),
        )),
        r is Err ==> r == Err::<UploadOutcome, CoreError>(CoreError::Forbidden) || r == Err::<
            UploadOutcome,
            CoreError,
        >(CoreError::BlockedExtension) || r == Err::<UploadOutcome, CoreError>(
            CoreError::TooLarge,
        ) || r == Err::<UploadOutcome, CoreError>(CoreError::QuotaExceeded) || r == Err::<
            UploadOutcome,
            CoreError,
        >(CoreError::Duplicate) || r == Err::<UploadOutcome, CoreError>(CoreError::InvalidName)
            || r == Err::<UploadOutcome, CoreError>(CoreError::Internal),
        match r {
            Result::Ok(out) => spec_upload_ok(
                *old(store),
                *final(store),
                cfg,
                actor,
                tenant_id,
                &params,
                file_name@,
                content_type@,
                data@,
                now,
                out,
            ),
            Result::Err(_) => true,
        },
{
    let parent_path: String = match params.parent_path {
        Option::Some(ref p) => p.clone(),
        Option::None => String::new(),
    };
    let visibility: Visibility = match params.visibility {
        Option::Some(v) => v,
        Option::None => Visibility::Department,
    };
    if !tenant_ok(actor, tenant_id) {
        return Err(CoreError::Forbidden);
    }
    let name_chars = crate::strutil::chars_of(file_name.as_str());
    if name_chars.len() == 0 {
        return Err(CoreError::InvalidName);
    }
    if extension_blocked(&name_chars, &cfg.blocked_extensions) {
        return Err(CoreError::BlockedExtension);
    }
    let restrictions = ComplianceRestrictions::for_mode(cfg.compliance_mode);
    let dept = actor.department_id;

    // Identifier headroom is checked before any state changes.
    if store.catalog.next_id == u64::MAX {
        return Err(CoreError::Internal);
    }

    // The transfer limits are held against the size before anything else
    // runs; a run-away upload is cut short here.
    let size: u64 = data.len() as u64;
    match cfg.max_upload_size_bytes {
        Option::Some(m) => {
            if size > m {
                return Err(CoreError::TooLarge);
            }
        },
        Option::None => {},
    }
    let used = store.catalog.storage_used(tenant_id);
    match cfg.storage_quota_bytes {
        Option::Some(q) => {
            let q128: u128 = q as u128;
            if used > q128 || size as u128 > q128 - used {
                return Err(CoreError::QuotaExceeded);
            }
        },
        Option::None => {},
    }

    // Settle the display name and the version chain.
    let mut final_name: String = file_name.clone();
    let mut version: u32 = 1;
    let mut version_parent: Option<u64> = None;
    let mut flip_idx: Option<usize> = None;
    if restrictions.file_versioning_required {
        match store.catalog.find_live_file_by_scope(
            tenant_id,
            &dept,
            parent_path.as_str(),
            visibility,
            file_name.as_str(),
        ) {
            Option::Some(vi) => {
                let pv = store.catalog.records[vi].version;
                if pv == u32::MAX {
                    return Err(CoreError::Internal);
                }
                version = pv + 1;
                version_parent = Some(store.catalog.records[vi].id);
                flip_idx = Some(vi);
            },
            Option::None => {},
        }
    } else {
        let existing = store.catalog.find_live_by_scope(
            tenant_id,
            &dept,
            parent_path.as_str(),
            visibility,
            file_name.as_str(),
        );
        if existing.is_some() {
            match choose_free_name(
                &store.catalog,
                tenant_id,
                &dept,
                parent_path.as_str(),
                visibility,
                &name_chars,
                file_name.as_str(),
                store.catalog.next_id,
            ) {
                Result::Ok(n) => {
                    final_name = n;
                },
                Result::Err(e) => {
                    return Err(e);
                },
            }
        }
    }

    // Ingest the bytes: limits, digest, dedup, backend commit.
    let ingested = match cas::ingest(
        &store.catalog,
        &mut store.backend,
        tenant_id,
        &dept,
        data,
        &cfg.max_upload_size_bytes,
        &cfg.storage_quota_bytes,
        used,
    ) {
        Result::Ok(o) => o,
        Result::Err(e) => {
            return Err(e);
        },
    };

    // Under mandatory versioning the superseded row turns immutable.
    match flip_idx {
        Option::Some(vi) => {
            store.catalog.set_immutable(vi);
        },
        Option::None => {},
    }

    let rec = FileRecord {
        id: 0,
        tenant_id,
        department_id: dept,
        parent_path,
        name: final_name.clone(),
        size_bytes: ingested.size,
        content_type,
        is_directory: false,
        owner_id: Some(actor.user_id),
        visibility,
        version,
        version_parent_id: version_parent,
        is_immutable: false,
        content_hash: ingested.content_hash.clone(),
        storage_key: ingested.storage_key.clone(),
        is_deleted: false,
        deleted_at: None,
        is_locked: false,
        locked_by: None,
        locked_at: None,
        lock_password_hash: None,
        lock_requires_role: None,
        is_company_folder: false,
        group_id: None,
        created_at: now,
        updated_at: now,
    };
    proof {
        let pp = spec_opt_path(params.parent_path);
        assert(rec.parent_path@ == pp);
        assert(rec.names_count());
        assert forall|j: int|
            0 <= j < store.catalog@.len() implies !((#[trigger] store.catalog@[j]).names_count()
                && store.catalog@[j].same_name_scope(&rec) && store.catalog@[j].name@
                == rec.name@) by {
            if store.catalog@[j].names_count() && store.catalog@[j].same_name_scope(&rec)
                && store.catalog@[j].name@ == rec.name@ {
                match flip_idx {
                    Option::Some(vi) => {
                        if j != vi {
                            assert(store.catalog@[j] == old(store).catalog@[j]);
                            assert(Catalog::scope_file_match(
                                &old(store).catalog@[j],
                                tenant_id,
                                dept,
                                pp,
                                visibility,
                                final_name@,
                            ));
                            assert(final_name@ == file_name@);
                            crate::catalog::lemma_scope_file_unique(
                                old(store).catalog,
                                tenant_id,
                                dept,
                                pp,
                                visibility,
                                file_name@,
                                j,
                                vi as int,
                            );
                        }
                    },
                    Option::None => {
                        assert(store.catalog@[j] == old(store).catalog@[j]);
                        assert(Catalog::scope_file_match(
                            &old(store).catalog@[j],
                            tenant_id,
                            dept,
                            pp,
                            visibility,
                            final_name@,
                        ));
                        assert(Catalog::scope_match(
                            &old(store).catalog@[j],
                            tenant_id,
                            dept,
                            pp,
                            visibility,
                            final_name@,
                        ));
                        assert(false);
                    },
                }
            }
        }
    }
    let was_renamed = !str_eq(final_name.as_str(), file_name.as_str());
    let ghost flipped_cat = store.catalog@;
    let id = store.catalog.insert_file(rec);
    proof {
        let pre = *old(store);
        let hash = blake3_hex(data@);
        let pp = spec_opt_path(params.parent_path);
        let vis = spec_opt_vis(params.visibility);
        let versioning = ComplianceRestrictions::spec_for_mode(
            cfg.compliance_mode,
        ).file_versioning_required;
        let newr = store.catalog@.last();
        assert(store.catalog@ == flipped_cat.push(FileRecord { id, ..rec }));
        assert(newr == (FileRecord { id, ..rec }));
        assert(vis == visibility);
        assert(newr.parent_path@ == pp);
        assert(newr.name == final_name);
        assert(newr.content_hash@ == hash);
        assert(forall|j: int| 0 <= j < flipped_cat.len() ==> store.catalog@[j] == flipped_cat[j]);
        if versioning {
            match flip_idx {
                Option::Some(vi) => {
                    assert(Catalog::scope_file_match(
                        &pre.catalog@[vi as int],
                        tenant_id,
                        dept,
                        pp,
                        vis,
                        file_name@,
                    ));
                    assert(version == pre.catalog@[vi as int].version + 1);
                    assert(flipped_cat[vi as int] == (FileRecord {
                        is_immutable: true,
                        ..pre.catalog@[vi as int]
                    }));
                    assert(forall|j: int|
                        0 <= j < pre.catalog@.len() && j != vi ==> flipped_cat[j]
                            == pre.catalog@[j]);
                },
                Option::None => {
                    assert(forall|j: int|
                        0 <= j < pre.catalog@.len() ==> flipped_cat[j] == pre.catalog@[j]);
                },
            }
        } else {
            assert(forall|j: int|
                0 <= j < pre.catalog@.len() ==> flipped_cat[j] == pre.catalog@[j]);
            assert(spec_name_free(pre.catalog@, tenant_id, dept, pp, vis, final_name@));
        }
    }
    Ok(UploadOutcome {
        file_id: id,
        file_name: final_name,
        was_renamed,
        deduplicated: ingested.deduplicated,
        content_hash: ingested.content_hash,
        storage_key: ingested.storage_key,
        version,
    })
}

/// A live record with this identifier exists in the tenant.
pub open spec fn spec_has_live(s: Seq<FileRecord>, tenant_id: u64, id: u64) -> bool {
    exists|i: int|
        0 <= i < s.len() && (#[trigger] s[i]).id == id && s[i].tenant_id == tenant_id
            && s[i].live()
}

/// A soft-deleted record with this identifier exists in the tenant.
pub open spec fn spec_has_deleted(s: Seq<FileRecord>, tenant_id: u64, id: u64) -> bool {
    exists|i: int|
        0 <= i < s.len() && (#[trigger] s[i]).id == id && s[i].tenant_id == tenant_id
            && s[i].is_deleted
}

/// A live directory with this identifier exists in the tenant.
pub open spec fn spec_has_live_dir(s: Seq<FileRecord>, tenant_id: u64, id: u64) -> bool {
    exists|i: int|
        0 <= i < s.len() && (#[trigger] s[i]).id == id && s[i].tenant_id == tenant_id
            && s[i].live() && s[i].is_directory
}

/// The engine's projection of a catalog row.
pub open spec fn spec_resource_of(r: FileRecord) -> Resource {
    Resource {
        tenant_id: r.tenant_id,
        visibility: r.visibility,
        owner_id: r.owner_id,
        department_id: r.department_id,
        is_locked: r.is_locked,
        locked_by: r.locked_by,
        lock_requires_role: r.lock_requires_role,
        is_immutable: r.is_immutable,
    }
}

pub fn resource_of(r: &FileRecord) -> (res: Resource)
    ensures
        res == spec_resource_of(*r),
{
    Resource {
        tenant_id: r.tenant_id,
        visibility: r.visibility,
        owner_id: r.owner_id,
        department_id: r.department_id,
        is_locked: r.is_locked,
        locked_by: r.locked_by,
        lock_requires_role: r.lock_requires_role,
        is_immutable: r.is_immutable,
    }
}

/// Whether the actor may perform `action` on the live record `file_id` of
/// the tenant; absent records report as such.
pub fn can_access_file(
    catalog: &Catalog,
    file_id: u64,
    tenant_id: u64,
    actor: &Actor,
    action: Action,
    restrictions: &ComplianceRestrictions,
    public_share: bool,
) -> (r: Result<bool, CoreError>)
    ensures
        match r {
            Result::Ok(allow) => exists|i: int|
                0 <= i < catalog@.len() && (#[trigger] catalog@[i]).id == file_id
                    && catalog@[i].tenant_id == tenant_id && catalog@[i].live() && allow
                    == spec_decide(
                    actor,
                    &spec_resource_of(catalog@[i]),
                    action,
                    restrictions,
                    public_share,
                ),
            Result::Err(e) => e == CoreError::NotFound && (forall|i: int|
                0 <= i < catalog@.len() ==> !((#[trigger] catalog@[i]).id == file_id
                    && catalog@[i].tenant_id == tenant_id && catalog@[i].live())),
        },
{
    match catalog.find_live_index(tenant_id, file_id) {
        Option::Some(i) => {
            let res = resource_of(&catalog.records[i]);
            let allow = decide(actor, &res, action, restrictions, public_share);
            proof {
                assert((#[trigger] catalog@[i as int]).id == file_id);
            }
            Ok(allow)
        },
        Option::None => Err(CoreError::NotFound),
    }
}

/// Whether a PHC hash string verifies a password. It is a function of the
/// two strings alone; no contract of this crate says when it holds, except
/// that a fresh hash verifies the password it was derived from.
pub uninterp spec fn argon2_matches(hash: Seq<char>, password: Seq<char>) -> bool;

/// Relies on `Argon2::verify_password`: verification is deterministic in
/// the hash string and the password.
#[verifier::external_body]
fn verify_lock_password(hash: &str, password: &str) -> (r: bool)
    ensures
        r == argon2_matches(hash@, password@),
{
    PasswordVerifier::<str>::verify_password(
        &Argon2::default(),
        password.as_bytes(),
        hash,
    ).is_ok()
}

/// Relies on `Argon2::hash_password`: the salted hash it returns verifies
/// the password it was derived from.
#[verifier::external_body]
fn hash_lock_password(password: &str) -> (r: Result<String, CoreError>)
    ensures
        r matches Ok(h) ==> argon2_matches(h@, password@),
        r matches Err(e) ==> e == CoreError::Internal,
{
    match Argon2::default().hash_password(password.as_bytes()) {
        Ok(h) => Ok(h.to_string()),
        Err(_) => Err(CoreError::Internal),
    }
}

/// What a lock request carries: an optional unlock password and an
/// optional role the lock then demands.
pub struct LockFileInput {
    pub password: Option<String>,
    pub required_role: Option<RoleLabel>,
}

/// What an unlock request carries.
pub struct UnlockFileInput {
    pub password: Option<String>,
}

/// The actor may place locks: manager tier or above, or a custom role
/// carrying the lock permission token.
pub open spec fn spec_may_lock(actor: &Actor) -> bool {
    actor.role.spec_rank() >= 2 || actor.can_lock_files
}

/// The unlock role gate: the owner, the locker and the platform
/// super-admin always pass; otherwise an explicit required role is matched
/// by rank or by the unlock permission token, and a lock without a
/// required role opens for admin tier and above.
pub open spec fn spec_may_unlock(actor: &Actor, rec: FileRecord) -> bool {
    ||| rec.owner_id == Some(actor.user_id)
    ||| rec.locked_by == Some(actor.user_id)
    ||| actor.role == RoleLabel::SuperAdmin
    ||| (match rec.lock_requires_role {
        Option::Some(req) => actor.role.spec_rank() >= req.spec_rank()
            || actor.can_unlock_files,
        Option::None => actor.role.spec_rank() >= 3,
    })
}

/// Locks a live record: records the locker, the stamp, the optional
/// password hash and the optional required role. Locking a locked record
/// changes nothing and reports the lock.
pub fn lock_file(
    store: &mut Store,
    actor: &Actor,
    tenant_id: u64,
    file_id: u64,
    input: &LockFileInput,
    restrictions: &ComplianceRestrictions,
    now: u64,
) -> (r: Result<(), CoreError>)
    requires
        old(store).wf(),
    ensures
        final(store).wf(),
        final(store).backend@ == old(store).backend@,
        r is Err ==> final(store).catalog@ == old(store).catalog@ && final(store).catalog.next_id == old(store).catalog.next_id,
        (r == Err::<(), CoreError>(CoreError::Forbidden)) == (!spec_tenant_ok(actor, tenant_id)
            || !spec_may_lock(actor) || (exists|i: int|
            0 <= i < old(store).catalog@.len() && (#[trigger] old(store).catalog@[i]).id
                == file_id && old(store).catalog@[i].tenant_id == tenant_id && old(
                store,
            ).catalog@[i].live() && !spec_decide(
                actor,
                &spec_resource_of(old(store).catalog@[i]),
                Action::Write,
                restrictions,
                false,
            ))),
        (r == Err::<(), CoreError>(CoreError::NotFound)) == (spec_tenant_ok(actor, tenant_id)
            && spec_may_lock(actor) && !spec_has_live(old(store).catalog@, tenant_id, file_id)),
        (r == Err::<(), CoreError>(CoreError::Locked)) == (spec_tenant_ok(actor, tenant_id)
            && spec_may_lock(actor) && (exists|i: int|
            0 <= i < old(store).catalog@.len() && (#[trigger] old(store).catalog@[i]).id
                == file_id && old(store).catalog@[i].tenant_id == tenant_id && old(
                store,
            ).catalog@[i].live() && spec_decide(
                actor,
                &spec_resource_of(old(store).catalog@[i]),
                Action::Write,
                restrictions,
                false,
            ) && old(store).catalog@[i].is_locked)),
        // Only the outside hashing call can fail once every gate passes,
        // and it is only reached for a non-empty password.
        r == Err::<(), CoreError>(CoreError::Internal) ==> (match input.password {
            Option::Some(p) => p@.len() > 0,
            Option::None => false,
        }),
        (match input.password {
            Option::Some(p) => p@.len() == 0,
            Option::None => true,
        }) ==> r != Err::<(), CoreError>(CoreError::Internal),
        match r {
            Result::Ok(()) => exists|i: int|
                #![trigger old(store).catalog@[i]]
                {
                    let pre = old(store).catalog@;
                    &&& 0 <= i < pre.len()
                    &&& pre[i].id == file_id
                    &&& pre[i].tenant_id == tenant_id
                    &&& pre[i].live()
                    &&& !pre[i].is_locked
                    &&& spec_tenant_ok(actor, tenant_id)
                    &&& spec_may_lock(actor)
                    &&& spec_decide(
                        actor,
                        &spec_resource_of(pre[i]),
                        Action::Write,
                        restrictions,
                        false,
                    )
                    &&& final(store).catalog@.len() == pre.len()
                    &&& (forall|j: int| 0 <= j < pre.len() && j != i ==> final(store).catalog@[j]
                        == pre[j])
                    &&& {
                        let post = final(store).catalog@[i];
                        &&& post.is_locked
                        &&& post.locked_by == Some(actor.user_id)
                        &&& post.locked_at == Some(now)
                        &&& post.lock_requires_role == input.required_role
                        &&& (match input.password {
                            Option::Some(ref p) => p@.len() == 0 ==> post.lock_password_hash
                                is None,
                            Option::None => post.lock_password_hash is None,
                        })
                        &&& (match (input.password, post.lock_password_hash) {
                            (Option::Some(p), Option::Some(h)) => argon2_matches(h@, p@),
                            (Option::Some(p), Option::None) => p@.len() == 0,
                            (Option::None, Option::None) => true,
                            (Option::None, Option::Some(_)) => false,
                        })
                        &&& post == (FileRecord {
                            is_locked: true,
                            locked_by: post.locked_by,
                            locked_at: post.locked_at,
                            lock_password_hash: post.lock_password_hash,
                            lock_requires_role: post.lock_requires_role,
                            ..pre[i]
                        })
                    }
                },
            Result::Err(e) => e == CoreError::Forbidden || e == CoreError::NotFound || e
                == CoreError::Locked || e == CoreError::Internal,
        },
{
    if !tenant_ok(actor, tenant_id) {
        return Err(CoreError::Forbidden);
    }
    let may_lock = actor.role.rank() >= 2 || actor.can_lock_files;
    if !may_lock {
        return Err(CoreError::Forbidden);
    }
    let idx = match store.catalog.find_live_index(tenant_id, file_id) {
        Option::Some(i) => i,
        Option::None => {
            return Err(CoreError::NotFound);
        },
    };
    let res = resource_of(&store.catalog.records[idx]);
    if !decide(actor, &res, Action::Write, restrictions, false) {
        return Err(CoreError::Forbidden);
    }
    if store.catalog.records[idx].is_locked {
        return Err(CoreError::Locked);
    }
    let password_hash: Option<String> = match input.password {
        Option::Some(ref p) => {
            if p.as_str().unicode_len() > 0 {
                match hash_lock_password(p.as_str()) {
                    Result::Ok(h) => Some(h),
                    Result::Err(e) => {
                        return Err(e);
                    },
                }
            } else {
                None
            }
        },
        Option::None => None,
    };
    store.catalog.set_lock(idx, actor.user_id, now, password_hash, input.required_role);
    proof {
        assert((#[trigger] old(store).catalog@[idx as int]).id == file_id);
    }
    Ok(())
}

/// Unlocks a record for a caller who passes the role gate and, when the
/// lock carries a password, presents one that verifies. Unlocking an
/// unlocked record is a no-op.
pub fn unlock_file(
    store: &mut Store,
    actor: &Actor,
    tenant_id: u64,
    file_id: u64,
    input: &UnlockFileInput,
    restrictions: &ComplianceRestrictions,
) -> (r: Result<(), CoreError>)
    requires
        old(store).wf(),
    ensures
        final(store).wf(),
        final(store).backend@ == old(store).backend@,
        r is Err ==> final(store).catalog@ == old(store).catalog@,
        final(store).catalog.next_id == old(store).catalog.next_id,
        (r == Err::<(), CoreError>(CoreError::Forbidden)) == (!spec_tenant_ok(actor, tenant_id)
            || (exists|i: int|
            0 <= i < old(store).catalog@.len() && (#[trigger] old(store).catalog@[i]).id
                == file_id && old(store).catalog@[i].tenant_id == tenant_id && old(
                store,
            ).catalog@[i].live() && old(store).catalog@[i].is_locked && !spec_may_unlock(
                actor,
                old(store).catalog@[i],
            ))),
        (r == Err::<(), CoreError>(CoreError::NotFound)) == (spec_tenant_ok(actor, tenant_id)
            && !spec_has_live(old(store).catalog@, tenant_id, file_id)),
        (r == Err::<(), CoreError>(CoreError::WrongPassword)) == (spec_tenant_ok(
            actor,
            tenant_id,
        ) && (exists|i: int|
            0 <= i < old(store).catalog@.len() && (#[trigger] old(store).catalog@[i]).id
                == file_id && old(store).catalog@[i].tenant_id == tenant_id && old(
                store,
            ).catalog@[i].live() && old(store).catalog@[i].is_locked && spec_may_unlock(
                actor,
                old(store).catalog@[i],
            ) && (match (old(store).catalog@[i].lock_password_hash, input.password) {
                (Option::Some(h), Option::Some(p)) => !argon2_matches(h@, p@),
                (Option::Some(_), Option::None) => true,
                _ => false,
            }))),
        match r {
            Result::Ok(()) => exists|i: int|
                #![trigger old(store).catalog@[i]]
                {
                    let pre = old(store).catalog@;
                    &&& 0 <= i < pre.len()
                    &&& pre[i].id == file_id
                    &&& pre[i].tenant_id == tenant_id
                    &&& pre[i].live()
                    &&& spec_tenant_ok(actor, tenant_id)
                    &&& (pre[i].is_locked ==> spec_may_unlock(actor, pre[i]))
                    &&& (match pre[i].lock_password_hash {
                        Option::Some(h) => (match input.password {
                            Option::Some(p) => argon2_matches(h@, p@),
                            Option::None => false,
                        }),
                        Option::None => true,
                    })
                    &&& final(store).catalog@.len() == pre.len()
                    &&& (forall|j: int| 0 <= j < pre.len() && j != i ==> final(store).catalog@[j]
                        == pre[j])
                    &&& final(store).catalog@[i] == (FileRecord {
                        is_locked: false,
                        locked_by: None,
                        locked_at: None,
                        lock_password_hash: None,
                        lock_requires_role: None,
                        ..pre[i]
                    })
                },
            Result::Err(e) => e == CoreError::Forbidden || e == CoreError::NotFound || e
                == CoreError::WrongPassword,
        },
{
    if !tenant_ok(actor, tenant_id) {
        return Err(CoreError::Forbidden);
    }
    let idx = match store.catalog.find_live_index(tenant_id, file_id) {
        Option::Some(i) => i,
        Option::None => {
            return Err(CoreError::NotFound);
        },
    };
    proof {
        assert((#[trigger] old(store).catalog@[idx as int]).id == file_id);
    }
    if !store.catalog.records[idx].is_locked {
        // I6: an unlocked record carries no lock fields, so clearing them
        // again changes nothing.
        let ghost pre = store.catalog@;
        store.catalog.clear_lock(idx);
        proof {
            assert(final(store).catalog@[idx as int] == pre[idx as int]);
            assert(final(store).catalog@ =~= pre);
        }
        return Ok(());
    }
    let rec = &store.catalog.records[idx];
    let may_unlock = opt_u64_is(&rec.owner_id, actor.user_id) || opt_u64_is(
        &rec.locked_by,
        actor.user_id,
    ) || matches!(actor.role, RoleLabel::SuperAdmin) || (match rec.lock_requires_role {
        Option::Some(req) => actor.role.rank() >= req.rank() || actor.can_unlock_files,
        Option::None => actor.role.rank() >= 3,
    });
    if !may_unlock {
        return Err(CoreError::Forbidden);
    }
    match &store.catalog.records[idx].lock_password_hash {
        Option::Some(h) => {
            match input.password {
                Option::Some(ref p) => {
                    if !verify_lock_password(h.as_str(), p.as_str()) {
                        return Err(CoreError::WrongPassword);
                    }
                },
                Option::None => {
                    return Err(CoreError::WrongPassword);
                },
            }
        },
        Option::None => {},
    }
    store.catalog.clear_lock(idx);
    Ok(())
}

/// Soft-deletes a record and, for a directory, every record of the tenant
/// below it. The backend is never touched: the bytes outlive the row until
/// a permanent delete decides otherwise.
#[verifier::spinoff_prover]
#[verifier::rlimit(100)]
pub fn delete_file(
    store: &mut Store,
    actor: &Actor,
    tenant_id: u64,
    file_id: u64,
    restrictions: &ComplianceRestrictions,
    now: u64,
) -> (r: Result<(), CoreError>)
    requires
        old(store).wf(),
    ensures
        final(store).wf(),
        final(store).backend@ == old(store).backend@,
        final(store).catalog.next_id == old(store).catalog.next_id,
        r is Err ==> final(store).catalog@ == old(store).catalog@,
        (r == Err::<(), CoreError>(CoreError::NotFound)) == (spec_tenant_ok(actor, tenant_id)
            && !spec_has_live(old(store).catalog@, tenant_id, file_id)),
        (r == Err::<(), CoreError>(CoreError::Locked)) == (spec_tenant_ok(actor, tenant_id)
            && (exists|i: int|
            0 <= i < old(store).catalog@.len() && (#[trigger] old(store).catalog@[i]).id
                == file_id && old(store).catalog@[i].tenant_id == tenant_id && old(store).catalog@[i].live()
                && old(store).catalog@[i].is_locked)),
        (r == Err::<(), CoreError>(CoreError::Immutable)) == (spec_tenant_ok(actor, tenant_id)
            && restrictions.file_versioning_required && (exists|i: int|
            0 <= i < old(store).catalog@.len() && (#[trigger] old(store).catalog@[i]).id
                == file_id && old(store).catalog@[i].tenant_id == tenant_id && old(store).catalog@[i].live()
                && !old(store).catalog@[i].is_locked && old(store).catalog@[i].is_immutable)),
        (r == Err::<(), CoreError>(CoreError::Forbidden)) == (!spec_tenant_ok(actor, tenant_id)
            || (exists|i: int|
            0 <= i < old(store).catalog@.len() && (#[trigger] old(store).catalog@[i]).id
                == file_id && old(store).catalog@[i].tenant_id == tenant_id && old(store).catalog@[i].live()
                && !old(store).catalog@[i].is_locked && !(old(store).catalog@[i].is_immutable
                && restrictions.file_versioning_required) && !spec_decide(
                actor,
                &spec_resource_of(old(store).catalog@[i]),
                Action::Delete,
                restrictions,
                false,
            ))),
        match r {
            Result::Ok(()) => {
                &&& (exists|i: int|
                    0 <= i < old(store).catalog@.len() && (#[trigger] old(
                        store,
                    ).catalog@[i]).id == file_id && old(store).catalog@[i].tenant_id == tenant_id
                        && old(store).catalog@[i].live())
                &&& final(store).catalog@.len() == old(store).catalog@.len()
                &&& (forall|i: int|
                    (0 <= i < old(store).catalog@.len() && (#[trigger] old(
                        store,
                    ).catalog@[i]).id == file_id && old(store).catalog@[i].tenant_id == tenant_id
                        && old(store).catalog@[i].live()) ==> ({
                        &&& !old(store).catalog@[i].is_locked
                        &&& !(old(store).catalog@[i].is_immutable
                            && restrictions.file_versioning_required)
                        &&& spec_decide(
                            actor,
                            &spec_resource_of(old(store).catalog@[i]),
                            Action::Delete,
                            restrictions,
                            false,
                        )
                        &&& (forall|j: int|
                            0 <= j < old(store).catalog@.len() ==> #[trigger] final(store).catalog@[j] == Catalog::spec_mark_one(
                                old(store).catalog@[j],
                                tenant_id,
                                file_id,
                                old(store).catalog@[i].spec_path(),
                                now,
                            ))
                        &&& final(store).catalog@[i].is_deleted
                    }))
            },
            Result::Err(e) => e == CoreError::Forbidden || e == CoreError::NotFound || e
                == CoreError::Locked || e == CoreError::Immutable,
        },
{
    if !tenant_ok(actor, tenant_id) {
        return Err(CoreError::Forbidden);
    }
    let idx = match store.catalog.find_live_index(tenant_id, file_id) {
        Option::Some(i) => i,
        Option::None => {
            return Err(CoreError::NotFound);
        },
    };
    proof {
        assert((#[trigger] old(store).catalog@[idx as int]).id == file_id);
    }
    if store.catalog.records[idx].is_locked {
        return Err(CoreError::Locked);
    }
    if store.catalog.records[idx].is_immutable && restrictions.file_versioning_required {
        return Err(CoreError::Immutable);
    }
    let res = resource_of(&store.catalog.records[idx]);
    if !decide(actor, &res, Action::Delete, restrictions, false) {
        return Err(CoreError::Forbidden);
    }
    let root_path = store.catalog.records[idx].path();
    store.catalog.mark_deleted_descendants(tenant_id, file_id, root_path.as_str(), now);
    proof {
        let pre = old(store).catalog@;
        assert forall|j: int| 0 <= j < pre.len() implies #[trigger] store.catalog@[j]
            == Catalog::spec_mark_one(
            pre[j],
            tenant_id,
            file_id,
            pre[idx as int].spec_path(),
            now,
        ) by {
            assert(store.catalog@[j] == Catalog::spec_mark_one(
                pre[j],
                tenant_id,
                file_id,
                root_path@,
                now,
            ));
        }
        assert(Catalog::tree_member(pre[idx as int], tenant_id, file_id, pre[idx as int].spec_path()));
        assert(store.catalog@[idx as int].is_deleted);
        assert forall|i: int|
            0 <= i < pre.len() && (#[trigger] pre[i]).id == file_id && pre[i].tenant_id
                == tenant_id && pre[i].live() implies i == idx by {
            assert(pre[i].id != pre[idx as int].id || i == idx);
        }
    }
    Ok(())
}

/// Restores a soft-deleted record and every soft-deleted record of the
/// tenant below it; restoring a child never resurrects its ancestor. When
/// a restored name would collide with a live one, nothing changes.
pub fn restore_file(store: &mut Store, actor: &Actor, tenant_id: u64, file_id: u64) -> (r:
    Result<(), CoreError>)
    requires
        old(store).wf(),
    ensures
        final(store).wf(),
        final(store).backend@ == old(store).backend@,
        final(store).catalog.next_id == old(store).catalog.next_id,
        r is Err ==> final(store).catalog@ == old(store).catalog@,
        (r == Err::<(), CoreError>(CoreError::Forbidden)) == !spec_tenant_ok(actor, tenant_id),
        (r == Err::<(), CoreError>(CoreError::NotFound)) == (spec_tenant_ok(actor, tenant_id)
            && !spec_has_deleted(old(store).catalog@, tenant_id, file_id)),
        (r == Err::<(), CoreError>(CoreError::Duplicate)) == (spec_tenant_ok(actor, tenant_id)
            && (exists|i: int|
            0 <= i < old(store).catalog@.len() && (#[trigger] old(store).catalog@[i]).id
                == file_id && old(store).catalog@[i].tenant_id == tenant_id && old(store).catalog@[i].is_deleted
                && Catalog::restore_collides(
                old(store).catalog@,
                tenant_id,
                file_id,
                old(store).catalog@[i].spec_path(),
            ))),
        match r {
            Result::Ok(()) => {
                &&& (exists|i: int|
                    0 <= i < old(store).catalog@.len() && (#[trigger] old(
                        store,
                    ).catalog@[i]).id == file_id && old(store).catalog@[i].tenant_id == tenant_id
                        && old(store).catalog@[i].is_deleted)
                &&& final(store).catalog@.len() == old(store).catalog@.len()
                &&& (forall|i: int|
                    (0 <= i < old(store).catalog@.len() && (#[trigger] old(
                        store,
                    ).catalog@[i]).id == file_id && old(store).catalog@[i].tenant_id == tenant_id
                        && old(store).catalog@[i].is_deleted) ==> ({
                        &&& (forall|j: int|
                            0 <= j < old(store).catalog@.len() ==> #[trigger] final(store).catalog@[j] == Catalog::spec_restore_one(
                                old(store).catalog@[j],
                                tenant_id,
                                file_id,
                                old(store).catalog@[i].spec_path(),
                            ))
                        &&& final(store).catalog@[i].live()
                    }))
            },
            Result::Err(e) => e == CoreError::Forbidden || e == CoreError::NotFound || e
                == CoreError::Duplicate,
        },
{
    if !tenant_ok(actor, tenant_id) {
        return Err(CoreError::Forbidden);
    }
    let idx = match store.catalog.find_deleted_index(tenant_id, file_id) {
        Option::Some(i) => i,
        Option::None => {
            return Err(CoreError::NotFound);
        },
    };
    proof {
        assert((#[trigger] old(store).catalog@[idx as int]).id == file_id);
    }
    let root_path = store.catalog.records[idx].path();
    match store.catalog.restore_descendants(tenant_id, file_id, root_path.as_str()) {
        Result::Ok(()) => {
            proof {
                let pre = old(store).catalog@;
                assert forall|j: int| 0 <= j < pre.len() implies #[trigger] store.catalog@[j]
                    == Catalog::spec_restore_one(
                    pre[j],
                    tenant_id,
                    file_id,
                    pre[idx as int].spec_path(),
                ) by {
                    assert(store.catalog@[j] == Catalog::spec_restore_one(
                        pre[j],
                        tenant_id,
                        file_id,
                        root_path@,
                    ));
                }
                assert(Catalog::restore_member(
                    pre[idx as int],
                    tenant_id,
                    file_id,
                    pre[idx as int].spec_path(),
                ));
                assert(store.catalog@[idx as int].live());
                assert forall|i: int|
                    0 <= i < pre.len() && (#[trigger] pre[i]).id == file_id && pre[i].tenant_id
                        == tenant_id && pre[i].is_deleted implies i == idx by {
                    assert(pre[i].id != pre[idx as int].id || i == idx);
                }
            }
            Ok(())
        },
        Result::Err(e) => Err(e),
    }
}

/// Creates a directory row. Directories carry no bytes: no hash, no
/// storage key, no size of their own.
pub fn create_folder(
    store: &mut Store,
    actor: &Actor,
    tenant_id: u64,
    folder_name: String,
    parent_path: String,
    visibility: Visibility,
    now: u64,
) -> (r: Result<u64, CoreError>)
    requires
        old(store).wf(),
    ensures
        final(store).wf(),
        final(store).backend@ == old(store).backend@,
        r is Err ==> final(store).catalog@ == old(store).catalog@ && final(store).catalog.next_id == old(store).catalog.next_id,
        (r == Err::<u64, CoreError>(CoreError::Forbidden)) == !spec_tenant_ok(actor, tenant_id),
        (r == Err::<u64, CoreError>(CoreError::InvalidName)) == (spec_tenant_ok(actor, tenant_id)
            && folder_name@.len() == 0),
        (r == Err::<u64, CoreError>(CoreError::Internal)) == (spec_tenant_ok(actor, tenant_id)
            && folder_name@.len() > 0 && old(store).catalog.next_id == u64::MAX),
        match r {
            Result::Ok(id) => {
                let pre = old(store).catalog@;
                let newr = final(store).catalog@.last();
                &&& id == old(store).catalog.next_id
                &&& final(store).catalog@.len() == pre.len() + 1
                &&& (forall|j: int| 0 <= j < pre.len() ==> final(store).catalog@[j] == pre[j])
                &&& newr.id == id
                &&& newr.tenant_id == tenant_id
                &&& newr.department_id == actor.department_id
                &&& newr.parent_path == parent_path
                &&& newr.name == folder_name
                &&& newr.is_directory
                &&& newr.size_bytes == 0
                &&& newr.content_hash@.len() == 0
                &&& newr.storage_key@.len() == 0
                &&& newr.owner_id == Some(actor.user_id)
                &&& newr.visibility == visibility
                &&& newr.live()
                &&& !newr.is_locked
                &&& newr.created_at == now
            },
            Result::Err(e) => e == CoreError::Forbidden || e == CoreError::InvalidName || e
                == CoreError::Internal,
        },
{
    if !tenant_ok(actor, tenant_id) {
        return Err(CoreError::Forbidden);
    }
    if folder_name.as_str().unicode_len() == 0 {
        return Err(CoreError::InvalidName);
    }
    if store.catalog.next_id == u64::MAX {
        return Err(CoreError::Internal);
    }
    let rec = FileRecord {
        id: 0,
        tenant_id,
        department_id: actor.department_id,
        parent_path,
        name: folder_name,
        size_bytes: 0,
        content_type: String::new(),
        is_directory: true,
        owner_id: Some(actor.user_id),
        visibility,
        version: 1,
        version_parent_id: None,
        is_immutable: false,
        content_hash: String::new(),
        storage_key: String::new(),
        is_deleted: false,
        deleted_at: None,
        is_locked: false,
        locked_by: None,
        locked_at: None,
        lock_password_hash: None,
        lock_requires_role: None,
        is_company_folder: false,
        group_id: None,
        created_at: now,
        updated_at: now,
    };
    let id = store.catalog.insert_file(rec);
    Ok(id)
}


/// The position of the last slash in a requested name, or a negative
/// value when there is none.
pub open spec fn spec_last_slash(s: Seq<char>) -> int
    decreases s.len(),
{
    if s.len() == 0 {
        -1
    } else if s.last() == '/' {
        s.len() - 1
    } else {
        spec_last_slash(s.drop_last())
    }
}

/// The base name of a requested new name: what follows the last slash.
/// A rename accepts no path components.
pub open spec fn spec_base_name(s: Seq<char>) -> Seq<char> {
    if spec_last_slash(s) >= 0 {
        s.skip(spec_last_slash(s) + 1)
    } else {
        s
    }
}

/// A base name the catalog accepts: non-empty, not a dot name, and free of
/// the NUL character.
pub open spec fn spec_valid_base(b: Seq<char>) -> bool {
    b.len() > 0 && b != "."@ && b != ".."@ && !b.contains('\u{0}')
}

fn base_name_of(name: &Vec<char>) -> (r: Vec<char>)
    ensures
        r@ == spec_base_name(name@),
{
    let mut cut: usize = 0;
    let mut i: usize = 0;
    proof {
        assert(name@.take(0) =~= Seq::<char>::empty());
    }
    while i < name.len()
        invariant
            i <= name@.len(),
            cut <= i,
            spec_last_slash(name@.take(i as int)) >= 0 ==> cut == spec_last_slash(
                name@.take(i as int),
            ) + 1,
            spec_last_slash(name@.take(i as int)) < 0 ==> cut == 0,
        decreases name@.len() - i,
    {
        proof {
            assert(name@.take(i + 1 as int).drop_last() =~= name@.take(i as int));
            assert(name@.take(i + 1 as int).last() == name@[i as int]);
        }
        if name[i] == '/' {
            cut = i + 1;
        }
        i = i + 1;
    }
    proof {
        assert(name@.take(name@.len() as int) =~= name@);
    }
    let mut r: Vec<char> = Vec::new();
    let mut j: usize = cut;
    while j < name.len()
        invariant
            cut <= j <= name@.len(),
            r@ == name@.subrange(cut as int, j as int),
        decreases name@.len() - j,
    {
        r.push(name[j]);
        assert(r@ =~= name@.subrange(cut as int, j + 1 as int));
        j = j + 1;
    }
    proof {
        if spec_last_slash(name@) >= 0 {
            assert(r@ =~= name@.skip(spec_last_slash(name@) + 1));
        } else {
            assert(r@ =~= name@);
        }
    }
    r
}

pub fn contains_char(v: &Vec<char>, c: char) -> (r: bool)
    ensures
        r == v@.contains(c),
{
    let mut i: usize = 0;
    while i < v.len()
        invariant
            i <= v@.len(),
            forall|j: int| 0 <= j < i ==> v@[j] != c,
        decreases v@.len() - i,
    {
        if v[i] == c {
            proof {
                assert(v@[i as int] == c);
            }
            return true;
        }
        i = i + 1;
    }
    proof {
        if v@.contains(c) {
            let w = choose|w: int| 0 <= w < v@.len() && v@[w] == c;
            assert(v@[w] != c);
        }
    }
    false
}

/// The catalog after a rename of row `i` to `base`: the row carries the
/// new name and the stamp, a renamed directory rebases everything below
/// it, and nothing else moves.
pub open spec fn spec_rename_applied(
    pre: Seq<FileRecord>,
    post: Seq<FileRecord>,
    i: int,
    base: Seq<char>,
    now: u64,
) -> bool {
    let t = pre[i];
    let old_path = t.spec_path();
    let new_path = crate::strutil::spec_path_join(t.parent_path@, base);
    &&& post.len() == pre.len()
    &&& post[i].name@ == base
    &&& post[i].updated_at == now
    &&& post[i] == (FileRecord { name: post[i].name, updated_at: post[i].updated_at, ..t })
    &&& (forall|j: int|
        0 <= j < pre.len() && j != i ==> (if Catalog::carried(
            #[trigger] pre[j],
            t.tenant_id,
            t.id,
            t.is_directory,
            old_path,
        ) {
            Catalog::reparented(
                pre[j],
                post[j],
                Catalog::spec_rewrite(pre[j].parent_path@, old_path, new_path),
            )
        } else {
            post[j] == pre[j]
        }))
}

/// The rename handler: extracts the base name, refuses locked and
/// immutable records, holds the name against its scope, and rebases a
/// renamed directory's subtree. The backend is never touched: the storage
/// key is derived from the content hash and survives any rename.
pub fn rename_file(
    store: &mut Store,
    actor: &Actor,
    tenant_id: u64,
    file_id: u64,
    new_name: &str,
    restrictions: &ComplianceRestrictions,
    now: u64,
) -> (r: Result<(), CoreError>)
    requires
        old(store).wf(),
    ensures
        final(store).wf(),
        final(store).backend@ == old(store).backend@,
        final(store).catalog.next_id == old(store).catalog.next_id,
        r is Err ==> final(store).catalog@ == old(store).catalog@,
        (r == Err::<(), CoreError>(CoreError::Forbidden)) == (!spec_tenant_ok(actor, tenant_id)
            || (exists|i: int|
            0 <= i < old(store).catalog@.len() && (#[trigger] old(store).catalog@[i]).id
                == file_id && old(store).catalog@[i].tenant_id == tenant_id && old(store).catalog@[i].live()
                && !spec_decide(
                actor,
                &spec_resource_of(old(store).catalog@[i]),
                Action::Write,
                restrictions,
                false,
            ))),
        (r == Err::<(), CoreError>(CoreError::NotFound)) == (spec_tenant_ok(actor, tenant_id)
            && !spec_has_live(old(store).catalog@, tenant_id, file_id)),
        (r == Err::<(), CoreError>(CoreError::Locked)) == (spec_tenant_ok(actor, tenant_id)
            && (exists|i: int|
            0 <= i < old(store).catalog@.len() && (#[trigger] old(store).catalog@[i]).id
                == file_id && old(store).catalog@[i].tenant_id == tenant_id && old(store).catalog@[i].live()
                && spec_decide(
                actor,
                &spec_resource_of(old(store).catalog@[i]),
                Action::Write,
                restrictions,
                false,
            ) && old(store).catalog@[i].is_locked)),
        (r == Err::<(), CoreError>(CoreError::Immutable)) == (spec_tenant_ok(actor, tenant_id)
            && (exists|i: int|
            0 <= i < old(store).catalog@.len() && (#[trigger] old(store).catalog@[i]).id
                == file_id && old(store).catalog@[i].tenant_id == tenant_id && old(store).catalog@[i].live()
                && spec_decide(
                actor,
                &spec_resource_of(old(store).catalog@[i]),
                Action::Write,
                restrictions,
                false,
            ) && !old(store).catalog@[i].is_locked
                && old(store).catalog@[i].is_immutable)),
        (r == Err::<(), CoreError>(CoreError::InvalidName)) == (spec_tenant_ok(actor, tenant_id)
            && !spec_valid_base(spec_base_name(new_name@)) && (exists|i: int|
            0 <= i < old(store).catalog@.len() && (#[trigger] old(store).catalog@[i]).id
                == file_id && old(store).catalog@[i].tenant_id == tenant_id && old(store).catalog@[i].live()
                && spec_decide(
                actor,
                &spec_resource_of(old(store).catalog@[i]),
                Action::Write,
                restrictions,
                false,
            ) && !old(store).catalog@[i].is_locked
                && !old(store).catalog@[i].is_immutable)),
        (r == Err::<(), CoreError>(CoreError::Duplicate)) == (spec_tenant_ok(actor, tenant_id)
            && spec_valid_base(spec_base_name(new_name@)) && (exists|i: int|
            0 <= i < old(store).catalog@.len() && (#[trigger] old(store).catalog@[i]).id
                == file_id && old(store).catalog@[i].tenant_id == tenant_id && old(store).catalog@[i].live()
                && spec_decide(
                actor,
                &spec_resource_of(old(store).catalog@[i]),
                Action::Write,
                restrictions,
                false,
            ) && !old(store).catalog@[i].is_locked
                && !old(store).catalog@[i].is_immutable
                && spec_base_name(new_name@) != old(store).catalog@[i].name@
                && Catalog::spec_rename_blocked(
                old(store).catalog@,
                i,
                spec_base_name(new_name@),
            ))),
        match r {
            Result::Ok(()) => {
                &&& (exists|i: int|
                    0 <= i < old(store).catalog@.len() && (#[trigger] old(
                        store,
                    ).catalog@[i]).id == file_id && old(store).catalog@[i].tenant_id == tenant_id
                        && old(store).catalog@[i].live())
                &&& (forall|i: int|
                    (0 <= i < old(store).catalog@.len() && (#[trigger] old(
                        store,
                    ).catalog@[i]).id == file_id && old(store).catalog@[i].tenant_id == tenant_id
                        && old(store).catalog@[i].live()) ==> ({
                        &&& !old(store).catalog@[i].is_locked
                        &&& !old(store).catalog@[i].is_immutable
                        &&& spec_decide(
                            actor,
                            &spec_resource_of(old(store).catalog@[i]),
                            Action::Write,
                            restrictions,
                            false,
                        )
                        &&& spec_rename_applied(
                            old(store).catalog@,
                            final(store).catalog@,
                            i,
                            spec_base_name(new_name@),
                            now,
                        )
                    }))
            },
            Result::Err(e) => e == CoreError::Forbidden || e == CoreError::NotFound || e
                == CoreError::Locked || e == CoreError::Immutable || e == CoreError::Duplicate
                || e == CoreError::InvalidName,
        },
{
    if !tenant_ok(actor, tenant_id) {
        return Err(CoreError::Forbidden);
    }
    let idx = match store.catalog.find_live_index(tenant_id, file_id) {
        Option::Some(i) => i,
        Option::None => {
            return Err(CoreError::NotFound);
        },
    };
    proof {
        assert((#[trigger] old(store).catalog@[idx as int]).id == file_id);
        assert forall|i: int|
            0 <= i < old(store).catalog@.len() && (#[trigger] old(store).catalog@[i]).id
                == file_id && old(store).catalog@[i].tenant_id == tenant_id && old(
                store,
            ).catalog@[i].live() implies i == idx by {
            assert(old(store).catalog@[i].id != old(store).catalog@[idx as int].id || i == idx);
        }
    }
    let res = resource_of(&store.catalog.records[idx]);
    if !decide(actor, &res, Action::Write, restrictions, false) {
        return Err(CoreError::Forbidden);
    }
    if store.catalog.records[idx].is_locked {
        return Err(CoreError::Locked);
    }
    if store.catalog.records[idx].is_immutable {
        return Err(CoreError::Immutable);
    }
    let name_chars = crate::strutil::chars_of(new_name);
    let base = base_name_of(&name_chars);
    proof {
        reveal_strlit(".");
        reveal_strlit("..");
    }
    if base.len() == 0 || contains_char(&base, '\u{0}') {
        return Err(CoreError::InvalidName);
    }
    let base_s = string_of(&base);
    if str_eq(base_s.as_str(), ".") || str_eq(base_s.as_str(), "..") {
        return Err(CoreError::InvalidName);
    }
    match store.catalog.rename(idx, base_s, now) {
        Result::Ok(()) => Ok(()),
        Result::Err(e) => Err(e),
    }
}

/// The catalog after a move of row `i`: the row sits under the new parent
/// with the target department and visibility, a moved directory carries
/// its subtree, and everything moved to private belongs to the mover.
pub open spec fn spec_move_applied(
    pre: Seq<FileRecord>,
    post: Seq<FileRecord>,
    i: int,
    new_parent: Seq<char>,
    new_department: Option<u64>,
    new_visibility: Visibility,
    mover: u64,
    now: u64,
) -> bool {
    let t = pre[i];
    let old_path = t.spec_path();
    let new_path = crate::strutil::spec_path_join(new_parent, t.name@);
    &&& post.len() == pre.len()
    &&& Catalog::moved_target(
        t,
        post[i],
        new_parent,
        new_department,
        new_visibility,
        mover,
        now,
    )
    &&& (forall|j: int|
        0 <= j < pre.len() && j != i ==> (if Catalog::carried(
            #[trigger] pre[j],
            t.tenant_id,
            t.id,
            t.is_directory,
            old_path,
        ) {
            Catalog::carried_moved(
                pre[j],
                post[j],
                Catalog::spec_rewrite(pre[j].parent_path@, old_path, new_path),
                new_visibility,
                mover,
            )
        } else {
            post[j] == pre[j]
        }))
}

/// What a move request names: the target folder (none for the root), the
/// target department, and the target visibility.
pub struct MoveFileInput {
    pub target_parent_id: Option<u64>,
    pub target_department_id: Option<u64>,
    pub target_visibility: Option<Visibility>,
}

/// The move handler: a metadata-only relocation to another folder,
/// department or visibility. Locked records stay put; only admin tier
/// moves across departments the mover does not belong to; a record moved
/// to private becomes the mover's own.
#[verifier::rlimit(100)]
#[verifier::spinoff_prover]
pub fn move_file(
    store: &mut Store,
    actor: &Actor,
    tenant_id: u64,
    file_id: u64,
    input: &MoveFileInput,
    restrictions: &ComplianceRestrictions,
    now: u64,
) -> (r: Result<(), CoreError>)
    requires
        old(store).wf(),
    ensures
        final(store).wf(),
        final(store).backend@ == old(store).backend@,
        final(store).catalog.next_id == old(store).catalog.next_id,
        r is Err ==> final(store).catalog@ == old(store).catalog@,
        (r == Err::<(), CoreError>(CoreError::Forbidden)) == (!spec_tenant_ok(actor, tenant_id)
            || (exists|i: int|
            0 <= i < old(store).catalog@.len() && (#[trigger] old(store).catalog@[i]).id
                == file_id && old(store).catalog@[i].tenant_id == tenant_id && old(store).catalog@[i].live()
                && !spec_decide(
                actor,
                &spec_resource_of(old(store).catalog@[i]),
                Action::Write,
                restrictions,
                false,
            )) || (exists|i: int|
            0 <= i < old(store).catalog@.len() && (#[trigger] old(store).catalog@[i]).id
                == file_id && old(store).catalog@[i].tenant_id == tenant_id && old(store).catalog@[i].live()
                && spec_decide(
                actor,
                &spec_resource_of(old(store).catalog@[i]),
                Action::Write,
                restrictions,
                false,
            ) && !old(store).catalog@[i].is_locked
                && spec_move_cross_refused(input, old(store).catalog@[i], actor))),
        (r == Err::<(), CoreError>(CoreError::NotFound)) == (spec_tenant_ok(actor, tenant_id)
            && (!spec_has_live(old(store).catalog@, tenant_id, file_id) || (exists|i: int|
            0 <= i < old(store).catalog@.len() && (#[trigger] old(store).catalog@[i]).id
                == file_id && old(store).catalog@[i].tenant_id == tenant_id && old(store).catalog@[i].live()
                && spec_decide(
                actor,
                &spec_resource_of(old(store).catalog@[i]),
                Action::Write,
                restrictions,
                false,
            ) && !old(store).catalog@[i].is_locked
                && !spec_move_cross_refused(input, old(store).catalog@[i], actor)
                && (match input.target_parent_id {
                Option::Some(pid) => !spec_has_live_dir(old(store).catalog@, tenant_id, pid),
                Option::None => false,
            })))),
        (r == Err::<(), CoreError>(CoreError::Locked)) == (spec_tenant_ok(actor, tenant_id)
            && (exists|i: int|
            0 <= i < old(store).catalog@.len() && (#[trigger] old(store).catalog@[i]).id
                == file_id && old(store).catalog@[i].tenant_id == tenant_id && old(store).catalog@[i].live()
                && spec_decide(
                actor,
                &spec_resource_of(old(store).catalog@[i]),
                Action::Write,
                restrictions,
                false,
            ) && old(store).catalog@[i].is_locked)),
        (r == Err::<(), CoreError>(CoreError::Duplicate)) == (spec_tenant_ok(actor, tenant_id)
            && (exists|i: int|
            0 <= i < old(store).catalog@.len() && (#[trigger] old(store).catalog@[i]).id
                == file_id && old(store).catalog@[i].tenant_id == tenant_id && old(store).catalog@[i].live()
                && spec_decide(
                actor,
                &spec_resource_of(old(store).catalog@[i]),
                Action::Write,
                restrictions,
                false,
            ) && !old(store).catalog@[i].is_locked
                && !spec_move_cross_refused(input, old(store).catalog@[i], actor)
                && (match input.target_parent_id {
                Option::None => Catalog::spec_move_blocked(
                    old(store).catalog@,
                    i,
                    Seq::empty(),
                    spec_move_dept(input, old(store).catalog@[i]),
                    spec_move_vis(input, old(store).catalog@[i]),
                ),
                Option::Some(pid) => exists|p: int|
                    0 <= p < old(store).catalog@.len() && (#[trigger] old(store).catalog@[p]).id
                        == pid && old(store).catalog@[p].tenant_id == tenant_id
                        && old(store).catalog@[p].live() && old(store).catalog@[p].is_directory
                        && Catalog::spec_move_blocked(
                        old(store).catalog@,
                        i,
                        old(store).catalog@[p].spec_path(),
                        spec_move_dept(input, old(store).catalog@[i]),
                        spec_move_vis(input, old(store).catalog@[i]),
                    ),
            }))),
        match r {
            Result::Ok(()) => {
                &&& (exists|i: int|
                    0 <= i < old(store).catalog@.len() && (#[trigger] old(
                        store,
                    ).catalog@[i]).id == file_id && old(store).catalog@[i].tenant_id == tenant_id
                        && old(store).catalog@[i].live())
                &&& (forall|i: int|
                    (0 <= i < old(store).catalog@.len() && (#[trigger] old(
                        store,
                    ).catalog@[i]).id == file_id && old(store).catalog@[i].tenant_id == tenant_id
                        && old(store).catalog@[i].live()) ==> ({
                        &&& !old(store).catalog@[i].is_locked
                        &&& !spec_move_cross_refused(input, old(store).catalog@[i], actor)
                        &&& spec_decide(
                            actor,
                            &spec_resource_of(old(store).catalog@[i]),
                            Action::Write,
                            restrictions,
                            false,
                        )
                        &&& (match input.target_parent_id {
                            Option::None => spec_move_applied(
                                old(store).catalog@,
                                final(store).catalog@,
                                i,
                                Seq::empty(),
                                spec_move_dept(input, old(store).catalog@[i]),
                                spec_move_vis(input, old(store).catalog@[i]),
                                actor.user_id,
                                now,
                            ),
                            Option::Some(pid) => (exists|p: int|
                                0 <= p < old(store).catalog@.len() && (#[trigger] old(
                                    store,
                                ).catalog@[p]).id == pid && old(store).catalog@[p].tenant_id
                                    == tenant_id && old(store).catalog@[p].live() && old(
                                    store,
                                ).catalog@[p].is_directory) && (forall|p: int|
                                (0 <= p < old(store).catalog@.len() && (#[trigger] old(
                                    store,
                                ).catalog@[p]).id == pid && old(store).catalog@[p].tenant_id
                                    == tenant_id && old(store).catalog@[p].live() && old(
                                    store,
                                ).catalog@[p].is_directory) ==> spec_move_applied(
                                    old(store).catalog@,
                                    final(store).catalog@,
                                    i,
                                    old(store).catalog@[p].spec_path(),
                                    spec_move_dept(input, old(store).catalog@[i]),
                                    spec_move_vis(input, old(store).catalog@[i]),
                                    actor.user_id,
                                    now,
                                )),
                        })
                    }))
            },
            Result::Err(e) => e == CoreError::Forbidden || e == CoreError::NotFound || e
                == CoreError::Locked || e == CoreError::Duplicate,
        },
{
    if !tenant_ok(actor, tenant_id) {
        return Err(CoreError::Forbidden);
    }
    let idx = match store.catalog.find_live_index(tenant_id, file_id) {
        Option::Some(i) => i,
        Option::None => {
            return Err(CoreError::NotFound);
        },
    };
    proof {
        assert((#[trigger] old(store).catalog@[idx as int]).id == file_id);
        assert forall|i: int|
            0 <= i < old(store).catalog@.len() && (#[trigger] old(store).catalog@[i]).id
                == file_id && old(store).catalog@[i].tenant_id == tenant_id && old(
                store,
            ).catalog@[i].live() implies i == idx by {
            assert(old(store).catalog@[i].id != old(store).catalog@[idx as int].id || i == idx);
        }
    }
    let res = resource_of(&store.catalog.records[idx]);
    if !decide(actor, &res, Action::Write, restrictions, false) {
        return Err(CoreError::Forbidden);
    }
    if store.catalog.records[idx].is_locked {
        return Err(CoreError::Locked);
    }
    proof {
        assert(old(store).catalog@[idx as int].name@.len() > 0);
    }
    let current_dept = store.catalog.records[idx].department_id;
    let target_dept: Option<u64> = match input.target_department_id {
        Option::Some(d) => Some(d),
        Option::None => current_dept,
    };
    // Only admin tier moves a record into a department the mover does not
    // belong to.
    if !opt_u64_eq(&target_dept, &current_dept) && !actor.is_admin() {
        if !opt_u64_eq(&actor.department_id, &target_dept) {
            return Err(CoreError::Forbidden);
        }
    }
    let target_vis: Visibility = match input.target_visibility {
        Option::Some(v) => v,
        Option::None => store.catalog.records[idx].visibility,
    };
    let new_parent: String = match input.target_parent_id {
        Option::Some(pid) => {
            let p = match store.catalog.find_live_index(tenant_id, pid) {
                Option::Some(p) => p,
                Option::None => {
                    return Err(CoreError::NotFound);
                },
            };
            if !store.catalog.records[p].is_directory {
                return Err(CoreError::NotFound);
            }
            proof {
                assert((#[trigger] old(store).catalog@[p as int]).id == pid);
                assert forall|q: int|
                    0 <= q < old(store).catalog@.len() && (#[trigger] old(
                        store,
                    ).catalog@[q]).id == pid && old(store).catalog@[q].tenant_id == tenant_id
                        && old(store).catalog@[q].live() && old(
                        store,
                    ).catalog@[q].is_directory implies q == p by {
                    assert(old(store).catalog@[q].id != old(store).catalog@[p as int].id || q
                        == p);
                }
            }
            store.catalog.records[p].path()
        },
        Option::None => String::new(),
    };
    match store.catalog.move_record(idx, new_parent, target_dept, target_vis, actor.user_id, now)
        {
        Result::Ok(()) => Ok(()),
        Result::Err(e) => Err(e),
    }
}

/// A cross-department move the caller may not make: the resolved target
/// department differs from the record's own, the caller is below admin
/// tier, and the target is not the caller's department.
pub open spec fn spec_move_cross_refused(
    input: &MoveFileInput,
    rec: FileRecord,
    actor: &Actor,
) -> bool {
    &&& spec_move_dept(input, rec) != rec.department_id
    &&& !actor.spec_is_admin()
    &&& actor.department_id != spec_move_dept(input, rec)
}

/// The department a move resolves to: the requested one, or the record's
/// own when the request names none.
pub open spec fn spec_move_dept(input: &MoveFileInput, rec: FileRecord) -> Option<u64> {
    match input.target_department_id {
        Option::Some(d) => Some(d),
        Option::None => rec.department_id,
    }
}

/// The visibility a move resolves to.
pub open spec fn spec_move_vis(input: &MoveFileInput, rec: FileRecord) -> Visibility {
    match input.target_visibility {
        Option::Some(v) => v,
        Option::None => rec.visibility,
    }
}


/// What a permanent delete reports: catalog rows removed, and backend
/// objects that actually went away.
#[derive(Debug)]
pub struct PurgeOutcome {
    pub files_deleted: u64,
    pub storage_objects_deleted: u64,
}

/// No live row keeps the content of row `j` alive in its scope: nothing
/// live, non-directory, in the same tenant and department carries the same
/// hash under another identifier.
pub open spec fn spec_no_live_sharer(s: Seq<FileRecord>, j: int) -> bool {
    forall|y: int|
        0 <= y < s.len() ==> !Catalog::ref_match(
            &(#[trigger] s[y]),
            s[j].tenant_id,
            s[j].department_id,
            s[j].content_hash@,
            s[j].id,
        )
}

/// How many backing objects a purge removes, over the first `upto` rows:
/// the members that are files and whose content no live record shares.
pub open spec fn spec_objects_removed(
    s: Seq<FileRecord>,
    tenant_id: u64,
    root_id: u64,
    root_path: Seq<char>,
    upto: int,
) -> int
    decreases upto,
{
    if upto <= 0 {
        0
    } else {
        spec_objects_removed(s, tenant_id, root_id, root_path, upto - 1) + (
        if Catalog::restore_member(s[upto - 1], tenant_id, root_id, root_path) && !s[upto
            - 1].is_directory && spec_no_live_sharer(s, upto - 1) {
            1int
        } else {
            0int
        })
    }
}

/// The permanent-delete handler: hard-deletes a soft-deleted record and,
/// for a directory, every soft-deleted record below it, and removes each
/// backing object whose content no live record in the scope references
/// any more. A backend object with a live reference left always survives.
pub fn permanent_delete(store: &mut Store, actor: &Actor, tenant_id: u64, file_id: u64) -> (r:
    Result<PurgeOutcome, CoreError>)
    requires
        old(store).wf(),
    ensures
        final(store).wf(),
        r is Err ==> final(store).catalog@ == old(store).catalog@ && final(store).backend@
            == old(store).backend@,
        final(store).catalog.next_id == old(store).catalog.next_id,
        (r == Err::<PurgeOutcome, CoreError>(CoreError::Forbidden)) == !spec_tenant_ok(
            actor,
            tenant_id,
        ),
        (r == Err::<PurgeOutcome, CoreError>(CoreError::NotFound)) == (spec_tenant_ok(
            actor,
            tenant_id,
        ) && !spec_has_deleted(old(store).catalog@, tenant_id, file_id)),
        r is Err ==> r == Err::<PurgeOutcome, CoreError>(CoreError::Forbidden) || r == Err::<
            PurgeOutcome,
            CoreError,
        >(CoreError::NotFound),
        match r {
            Result::Ok(out) => {
                &&& (exists|i: int|
                    0 <= i < old(store).catalog@.len() && (#[trigger] old(
                        store,
                    ).catalog@[i]).id == file_id && old(store).catalog@[i].tenant_id == tenant_id
                        && old(store).catalog@[i].is_deleted)
                &&& (forall|kk: Seq<char>|
                    #[trigger] final(store).backend.spec_contains(kk) ==> old(
                        store,
                    ).backend.spec_contains(kk))
                &&& (forall|i: int|
                    (0 <= i < old(store).catalog@.len() && (#[trigger] old(
                        store,
                    ).catalog@[i]).id == file_id && old(store).catalog@[i].tenant_id == tenant_id
                        && old(store).catalog@[i].is_deleted) ==> ({
                        &&& final(store).catalog@ == Catalog::spec_purged(
                            old(store).catalog@,
                            tenant_id,
                            file_id,
                            old(store).catalog@[i].spec_path(),
                        )
                        &&& out.files_deleted == old(store).catalog@.len() - final(store).catalog@.len()
                        &&& out.storage_objects_deleted == spec_objects_removed(
                            old(store).catalog@,
                            tenant_id,
                            file_id,
                            old(store).catalog@[i].spec_path(),
                            old(store).catalog@.len() as int,
                        )
                        &&& (forall|j: int|
                            0 <= j < old(store).catalog@.len() && Catalog::restore_member(
                                #[trigger] old(store).catalog@[j],
                                tenant_id,
                                file_id,
                                old(store).catalog@[i].spec_path(),
                            ) && !old(store).catalog@[j].is_directory && spec_no_live_sharer(
                                old(store).catalog@,
                                j,
                            ) ==> !final(store).backend.spec_contains(
                                old(store).catalog@[j].storage_key@,
                            ))
                        &&& (forall|kk: Seq<char>|
                            old(store).backend.spec_contains(kk) && (forall|j: int|
                                0 <= j < old(store).catalog@.len() ==> !(Catalog::restore_member(
                                    #[trigger] old(store).catalog@[j],
                                    tenant_id,
                                    file_id,
                                    old(store).catalog@[i].spec_path(),
                                ) && !old(store).catalog@[j].is_directory && old(
                                    store,
                                ).catalog@[j].storage_key@ == kk && spec_no_live_sharer(
                                    old(store).catalog@,
                                    j,
                                ))) ==> #[trigger] final(store).backend.spec_contains(kk))
                    }))
            },
            Result::Err(_) => true,
        },
{
    if !tenant_ok(actor, tenant_id) {
        return Err(CoreError::Forbidden);
    }
    let idx = match store.catalog.find_deleted_index(tenant_id, file_id) {
        Option::Some(i) => i,
        Option::None => {
            return Err(CoreError::NotFound);
        },
    };
    proof {
        assert((#[trigger] old(store).catalog@[idx as int]).id == file_id);
        assert forall|i: int|
            0 <= i < old(store).catalog@.len() && (#[trigger] old(store).catalog@[i]).id
                == file_id && old(store).catalog@[i].tenant_id == tenant_id && old(
                store,
            ).catalog@[i].is_deleted implies i == idx by {
            assert(old(store).catalog@[i].id != old(store).catalog@[idx as int].id || i == idx);
        }
    }
    let root_path = store.catalog.records[idx].path();
    proof {
        reveal_strlit("/");
    }
    let mut prefix = root_path.clone();
    prefix.append("/");
    proof {
        assert(prefix@ =~= root_path@ + seq!['/']);
    }
    // First pass: the backing object of every member whose content no live
    // record shares goes away. Live rows never change here, so each
    // reference count is independent of the order.
    let ghost cat = store.catalog@;
    let n = store.catalog.records.len();
    let mut objs: u64 = 0;
    let mut j: usize = 0;
    while j < n
        invariant
            old(store).wf(),
            n == cat.len(),
            j <= n,
            objs <= j,
            objs == spec_objects_removed(cat, tenant_id, file_id, root_path@, j as int),
            cat == old(store).catalog@,
            store.catalog == old(store).catalog,
            store.backend.wf(),
            prefix@ == root_path@ + seq!['/'],
            root_path@ == cat[idx as int].spec_path(),
            idx < cat.len(),
            forall|kk: Seq<char>|
                #[trigger] store.backend.spec_contains(kk) ==> old(
                    store,
                ).backend.spec_contains(kk),
            forall|x: int|
                0 <= x < j && Catalog::restore_member(
                    #[trigger] cat[x],
                    tenant_id,
                    file_id,
                    root_path@,
                ) && !cat[x].is_directory && spec_no_live_sharer(cat, x)
                    ==> !store.backend.spec_contains(cat[x].storage_key@),
            forall|kk: Seq<char>|
                old(store).backend.spec_contains(kk) && (forall|x: int|
                    0 <= x < j ==> !(Catalog::restore_member(
                        #[trigger] cat[x],
                        tenant_id,
                        file_id,
                        root_path@,
                    ) && !cat[x].is_directory && cat[x].storage_key@ == kk
                        && spec_no_live_sharer(cat, x))) ==> #[trigger] store.backend.spec_contains(
                    kk,
                ),
        decreases n - j,
    {
        let rec = &store.catalog.records[j];
        let member = rec.id == file_id || (rec.tenant_id == tenant_id && rec.is_deleted && (
        str_eq(rec.parent_path.as_str(), root_path.as_str()) || str_starts_with(
            rec.parent_path.as_str(),
            prefix.as_str(),
        )));
        if member && !rec.is_directory {
            let rc = store.catalog.ref_count_live_by_hash(
                rec.tenant_id,
                &rec.department_id,
                rec.content_hash.as_str(),
                rec.id,
            );
            if rc == 0 {
                let key = store.catalog.records[j].storage_key.clone();
                store.backend.delete(key.as_str());
                objs = objs + 1;
            }
        }
        j = j + 1;
    }
    // Second pass: the rows themselves.
    proof {
        assert forall|i: int|
            0 <= i < store.catalog@.len() && (#[trigger] store.catalog@[i]).id
                == file_id implies store.catalog@[i].is_deleted by {
            assert(store.catalog@[i].id != store.catalog@[idx as int].id || i == idx);
        }
    }
    let removed = store.catalog.purge_tree(tenant_id, file_id, root_path.as_str());
    Ok(PurgeOutcome { files_deleted: removed, storage_objects_deleted: objs })
}


/// Request parameters of a download.
pub struct DownloadParams {
    pub preview: Option<bool>,
}

/// The live target exists but the access engine denies the read.
pub open spec fn spec_download_denied(
    s: Seq<FileRecord>,
    actor: &Actor,
    tenant_id: u64,
    file_id: u64,
    restrictions: &ComplianceRestrictions,
) -> bool {
    exists|i: int|
        0 <= i < s.len() && (#[trigger] s[i]).id == file_id && s[i].tenant_id == tenant_id
            && s[i].live() && !spec_decide(
            actor,
            &spec_resource_of(s[i]),
            Action::Read,
            restrictions,
            false,
        )
}

/// The target is a readable directory whose pack would pass the ceiling.
pub open spec fn spec_download_oversized(
    s: Seq<FileRecord>,
    actor: &Actor,
    tenant_id: u64,
    file_id: u64,
    restrictions: &ComplianceRestrictions,
    max_pack_bytes: u64,
) -> bool {
    exists|i: int|
        0 <= i < s.len() && (#[trigger] s[i]).id == file_id && s[i].tenant_id == tenant_id
            && s[i].live() && spec_decide(
            actor,
            &spec_resource_of(s[i]),
            Action::Read,
            restrictions,
            false,
        ) && s[i].is_directory && crate::pack::spec_pack_total(
            s,
            tenant_id,
            s[i].spec_path(),
        ) > max_pack_bytes
}

/// The plan a download resolves to, for the record the identifier names:
/// an archive plan for a directory, a redirect where presigned locations
/// are on, a proxied stream otherwise.
pub open spec fn spec_download_plan_ok(
    s: Seq<FileRecord>,
    actor: &Actor,
    tenant_id: u64,
    file_id: u64,
    restrictions: &ComplianceRestrictions,
    presign_enabled: bool,
    presign_supported: bool,
    max_pack_bytes: u64,
    plan: DownloadPlan,
) -> bool {
    &&& spec_has_live(s, tenant_id, file_id)
    &&& (forall|i: int|
        (0 <= i < s.len() && (#[trigger] s[i]).id == file_id && s[i].tenant_id == tenant_id
            && s[i].live()) ==> ({
            &&& spec_decide(actor, &spec_resource_of(s[i]), Action::Read, restrictions, false)
            &&& (if s[i].is_directory {
                match plan {
                    DownloadPlan::Pack(p) => {
                        &&& p.total_bytes == crate::pack::spec_pack_total(
                            s,
                            tenant_id,
                            s[i].spec_path(),
                        )
                        &&& p.total_bytes <= max_pack_bytes
                        &&& p.entries@.map_values(
                            |e: crate::pack::PackEntry| crate::pack::spec_entry_view(e),
                        ) == crate::pack::spec_pack_entries(
                            s,
                            tenant_id,
                            s[i].name@,
                            s[i].spec_path(),
                        )
                    },
                    _ => false,
                }
            } else if presign_enabled && presign_supported {
                match plan {
                    DownloadPlan::Redirect { storage_key } => storage_key == s[i].storage_key,
                    _ => false,
                }
            } else {
                match plan {
                    DownloadPlan::Stream { storage_key, size_bytes, file_name } => {
                        &&& storage_key == s[i].storage_key
                        &&& size_bytes == s[i].size_bytes
                        &&& file_name == s[i].name
                    },
                    _ => false,
                }
            })
        }))
}

/// How a download is served: a redirect to a presigned location, a
/// proxied stream, or, for a directory, an archive plan.
#[derive(Debug)]
pub enum DownloadPlan {
    Redirect { storage_key: String },
    Stream { storage_key: String, size_bytes: u64, file_name: String },
    Pack(crate::pack::PackPlan),
}

/// The download handler: decides access, then picks the redirect path
/// when presigned locations are available and enabled, the streaming path
/// otherwise, and the archive path for a directory. It reads, never
/// writes.
pub fn download_file(
    store: &Store,
    actor: &Actor,
    tenant_id: u64,
    file_id: u64,
    params: &DownloadParams,
    restrictions: &ComplianceRestrictions,
    presign_enabled: bool,
    presign_supported: bool,
    max_pack_bytes: u64,
) -> (r: Result<DownloadPlan, CoreError>)
    requires
        store.wf(),
    ensures
        match r {
            Result::Ok(plan) => spec_download_plan_ok(
                store.catalog@,
                actor,
                tenant_id,
                file_id,
                restrictions,
                presign_enabled,
                presign_supported,
                max_pack_bytes,
                plan,
            ),
            Result::Err(e) => e == CoreError::Forbidden || e == CoreError::NotFound || e
                == CoreError::TooLarge,
        },
        (r matches Err(e) && e == CoreError::NotFound) == !spec_has_live(
            store.catalog@,
            tenant_id,
            file_id,
        ),
        (r matches Err(e) && e == CoreError::Forbidden) == spec_download_denied(
            store.catalog@,
            actor,
            tenant_id,
            file_id,
            restrictions,
        ),
        (r matches Err(e) && e == CoreError::TooLarge) == spec_download_oversized(
            store.catalog@,
            actor,
            tenant_id,
            file_id,
            restrictions,
            max_pack_bytes,
        ),
{
    let idx = match store.catalog.find_live_index(tenant_id, file_id) {
        Option::Some(i) => i,
        Option::None => {
            return Err(CoreError::NotFound);
        },
    };
    proof {
        assert((#[trigger] store.catalog@[idx as int]).id == file_id);
        assert forall|i: int|
            0 <= i < store.catalog@.len() && (#[trigger] store.catalog@[i]).id == file_id
                && store.catalog@[i].tenant_id == tenant_id && store.catalog@[
                i
            ].live() implies i == idx by {
            assert(store.catalog@[i].id != store.catalog@[idx as int].id || i == idx);
        }
    }
    let res = resource_of(&store.catalog.records[idx]);
    if !decide(actor, &res, Action::Read, restrictions, false) {
        return Err(CoreError::Forbidden);
    }
    let rec = &store.catalog.records[idx];
    if rec.is_directory {
        match crate::pack::pack_plan(
            &store.catalog,
            tenant_id,
            rec.name.as_str(),
            rec.parent_path.as_str(),
            max_pack_bytes,
        ) {
            Result::Ok(plan) => Ok(DownloadPlan::Pack(plan)),
            Result::Err(e) => Err(e),
        }
    } else if presign_enabled && presign_supported {
        Ok(DownloadPlan::Redirect { storage_key: rec.storage_key.clone() })
    } else {
        Ok(
            DownloadPlan::Stream {
                storage_key: rec.storage_key.clone(),
                size_bytes: rec.size_bytes,
                file_name: rec.name.clone(),
            },
        )
    }
}

/// Request parameters of a listing: the folder, an optional department
/// filter for admin tier, the view mode, and, for admin tier, whose
/// private files to show.
pub struct ListFilesParams {
    pub path: Option<String>,
    pub department_id: Option<u64>,
    pub visibility: Option<Visibility>,
    pub owner_id: Option<u64>,
}

/// Whose private files a listing shows: admin tier may name a user,
/// everyone else sees their own.
pub open spec fn spec_list_target_owner(actor: &Actor, params: &ListFilesParams) -> u64 {
    if actor.spec_is_admin() {
        match params.owner_id {
            Option::Some(o) => o,
            Option::None => actor.user_id,
        }
    } else {
        actor.user_id
    }
}

/// A row the listing shows: live, in the requested folder of the tenant,
/// and visible to the caller under the requested view mode.
pub open spec fn spec_list_match(
    r: FileRecord,
    actor: &Actor,
    tenant_id: u64,
    params: &ListFilesParams,
) -> bool {
    &&& r.tenant_id == tenant_id
    &&& r.live()
    &&& r.parent_path@ == spec_opt_path(params.path)
    &&& (match spec_opt_vis(params.visibility) {
        Visibility::Private => r.visibility == Visibility::Private && r.owner_id == Some(
            spec_list_target_owner(actor, params),
        ),
        Visibility::Department => r.visibility == Visibility::Department && (
        if actor.spec_is_admin() {
            match params.department_id {
                Option::Some(d) => r.department_id == Some(d),
                Option::None => true,
            }
        } else {
            r.department_id is None || actor.spec_in_department(r.department_id)
        }),
    })
}

/// The listing handler: the indices, in catalog order, of every record
/// the caller may see in the requested folder and view.
pub fn list_files(
    catalog: &Catalog,
    actor: &Actor,
    tenant_id: u64,
    params: &ListFilesParams,
) -> (r: Result<Vec<usize>, CoreError>)
    ensures
        (r == Err::<Vec<usize>, CoreError>(CoreError::Forbidden)) == !spec_tenant_ok(
            actor,
            tenant_id,
        ),
        r is Err ==> r == Err::<Vec<usize>, CoreError>(CoreError::Forbidden),
        match r {
            Result::Ok(v) => {
                &&& (forall|k: int|
                    0 <= k < v@.len() ==> (#[trigger] v@[k]) < catalog@.len()
                        && spec_list_match(catalog@[v@[k] as int], actor, tenant_id, params))
                &&& (forall|j: usize|
                    j < catalog@.len() && spec_list_match(
                        #[trigger] catalog@[j as int],
                        actor,
                        tenant_id,
                        params,
                    ) ==> v@.contains(j))
            },
            Result::Err(_) => true,
        },
        // Indices come back in catalog order, each at most once.
        match r {
            Result::Ok(v) => forall|k1: int, k2: int|
                0 <= k1 < k2 < v@.len() ==> (#[trigger] v@[k1]) < (#[trigger] v@[k2]),
            Result::Err(_) => true,
        },
{
    if !tenant_ok(actor, tenant_id) {
        return Err(CoreError::Forbidden);
    }
    let path: String = match params.path {
        Option::Some(ref p) => p.clone(),
        Option::None => String::new(),
    };
    let view_mode: Visibility = match params.visibility {
        Option::Some(v) => v,
        Option::None => Visibility::Department,
    };
    let target_owner: u64 = if actor.is_admin() {
        match params.owner_id {
            Option::Some(o) => o,
            Option::None => actor.user_id,
        }
    } else {
        actor.user_id
    };
    let is_admin = actor.is_admin();
    let mut v: Vec<usize> = Vec::new();
    let mut i: usize = 0;
    while i < catalog.records.len()
        invariant
            i <= catalog@.len(),
            path@ == spec_opt_path(params.path),
            view_mode == spec_opt_vis(params.visibility),
            target_owner == spec_list_target_owner(actor, params),
            is_admin == actor.spec_is_admin(),
            forall|k1: int, k2: int|
                0 <= k1 < k2 < v@.len() ==> (#[trigger] v@[k1]) < (#[trigger] v@[k2]),
            forall|k: int|
                0 <= k < v@.len() ==> (#[trigger] v@[k]) < i && spec_list_match(
                    catalog@[v@[k] as int],
                    actor,
                    tenant_id,
                    params,
                ),
            forall|j: usize|
                j < i && spec_list_match(
                    #[trigger] catalog@[j as int],
                    actor,
                    tenant_id,
                    params,
                ) ==> v@.contains(j),
        decreases catalog@.len() - i,
    {
        let rec = &catalog.records[i];
        let vis_ok: bool = match view_mode {
            Visibility::Private => matches!(rec.visibility, Visibility::Private) && opt_u64_is(
                &rec.owner_id,
                target_owner,
            ),
            Visibility::Department => matches!(rec.visibility, Visibility::Department) && (
            if is_admin {
                match params.department_id {
                    Option::Some(d) => opt_u64_is(&rec.department_id, d),
                    Option::None => true,
                }
            } else {
                matches!(rec.department_id, Option::None) || actor.in_department(
                    &rec.department_id,
                )
            }),
        };
        if rec.tenant_id == tenant_id && !rec.is_deleted && str_eq(
            rec.parent_path.as_str(),
            path.as_str(),
        ) && vis_ok {
            let ghost prev = v@;
            v.push(i);
            proof {
                assert forall|j: usize|
                    j < i + 1 && spec_list_match(
                        #[trigger] catalog@[j as int],
                        actor,
                        tenant_id,
                        params,
                    ) implies v@.contains(j) by {
                    if j < i {
                        assert(prev.contains(j));
                        let w = choose|w: int| 0 <= w < prev.len() && prev[w] == j;
                        assert(v@[w] == j);
                    } else {
                        assert(v@[prev.len() as int] == j);
                    }
                }
            }
        } else {
            proof {
                assert(!spec_list_match(catalog@[i as int], actor, tenant_id, params));
            }
        }
        i = i + 1;
    }
    Ok(v)
}

/// Request parameters of a trash listing.
pub struct ListTrashParams {
    pub owner_id: Option<u64>,
    pub department_id: Option<u64>,
}

/// A row the trash listing shows. Admin tier sees the tenant's whole
/// trash, narrowed by owner or by department when asked; everyone else
/// sees their own.
pub open spec fn spec_trash_match(
    r: FileRecord,
    actor: &Actor,
    tenant_id: u64,
    params: &ListTrashParams,
) -> bool {
    &&& r.tenant_id == tenant_id
    &&& r.is_deleted
    &&& (if actor.spec_is_admin() {
        match params.owner_id {
            Option::Some(o) => r.owner_id == Some(o),
            Option::None => (match params.department_id {
                Option::Some(d) => r.department_id == Some(d),
                Option::None => true,
            }),
        }
    } else {
        r.owner_id == Some(actor.user_id)
    })
}

/// The trash listing handler.
pub fn list_trash(
    catalog: &Catalog,
    actor: &Actor,
    tenant_id: u64,
    params: &ListTrashParams,
) -> (r: Result<Vec<usize>, CoreError>)
    ensures
        (r == Err::<Vec<usize>, CoreError>(CoreError::Forbidden)) == !spec_tenant_ok(
            actor,
            tenant_id,
        ),
        r is Err ==> r == Err::<Vec<usize>, CoreError>(CoreError::Forbidden),
        match r {
            Result::Ok(v) => {
                &&& (forall|k: int|
                    0 <= k < v@.len() ==> (#[trigger] v@[k]) < catalog@.len()
                        && spec_trash_match(catalog@[v@[k] as int], actor, tenant_id, params))
                &&& (forall|j: usize|
                    j < catalog@.len() && spec_trash_match(
                        #[trigger] catalog@[j as int],
                        actor,
                        tenant_id,
                        params,
                    ) ==> v@.contains(j))
            },
            Result::Err(_) => true,
        },
        // Indices come back in catalog order, each at most once.
        match r {
            Result::Ok(v) => forall|k1: int, k2: int|
                0 <= k1 < k2 < v@.len() ==> (#[trigger] v@[k1]) < (#[trigger] v@[k2]),
            Result::Err(_) => true,
        },
{
    if !tenant_ok(actor, tenant_id) {
        return Err(CoreError::Forbidden);
    }
    let is_admin = actor.is_admin();
    let mut v: Vec<usize> = Vec::new();
    let mut i: usize = 0;
    while i < catalog.records.len()
        invariant
            i <= catalog@.len(),
            is_admin == actor.spec_is_admin(),
            forall|k1: int, k2: int|
                0 <= k1 < k2 < v@.len() ==> (#[trigger] v@[k1]) < (#[trigger] v@[k2]),
            forall|k: int|
                0 <= k < v@.len() ==> (#[trigger] v@[k]) < i && spec_trash_match(
                    catalog@[v@[k] as int],
                    actor,
                    tenant_id,
                    params,
                ),
            forall|j: usize|
                j < i && spec_trash_match(
                    #[trigger] catalog@[j as int],
                    actor,
                    tenant_id,
                    params,
                ) ==> v@.contains(j),
        decreases catalog@.len() - i,
    {
        let rec = &catalog.records[i];
        let who_ok: bool = if is_admin {
            match params.owner_id {
                Option::Some(o) => opt_u64_is(&rec.owner_id, o),
                Option::None => match params.department_id {
                    Option::Some(d) => opt_u64_is(&rec.department_id, d),
                    Option::None => true,
                },
            }
        } else {
            opt_u64_is(&rec.owner_id, actor.user_id)
        };
        if rec.tenant_id == tenant_id && rec.is_deleted && who_ok {
            let ghost prev = v@;
            v.push(i);
            proof {
                assert forall|j: usize|
                    j < i + 1 && spec_trash_match(
                        #[trigger] catalog@[j as int],
                        actor,
                        tenant_id,
                        params,
                    ) implies v@.contains(j) by {
                    if j < i {
                        assert(prev.contains(j));
                        let w = choose|w: int| 0 <= w < prev.len() && prev[w] == j;
                        assert(v@[w] == j);
                    } else {
                        assert(v@[prev.len() as int] == j);
                    }
                }
            }
        } else {
            proof {
                assert(!spec_trash_match(catalog@[i as int], actor, tenant_id, params));
            }
        }
        i = i + 1;
    }
    Ok(v)
}

/// Total bytes of the live files with the given visibility below a
/// folder, in the prefix `s`: the derived size a listing shows for a
/// directory.
pub open spec fn spec_folder_size(
    s: Seq<FileRecord>,
    tenant_id: u64,
    folder_path: Seq<char>,
    visibility: Visibility,
) -> int
    decreases s.len(),
{
    if s.len() == 0 {
        0
    } else {
        spec_folder_size(s.drop_last(), tenant_id, folder_path, visibility) + (if s.last().tenant_id
            == tenant_id && s.last().live() && !s.last().is_directory && s.last().visibility
            == visibility && s.last().under_path(folder_path) {
            s.last().size_bytes as int
        } else {
            0
        })
    }
}

/// The derived size of a directory: directories own no bytes themselves,
/// so their shown size is the sum over their live descendants.
pub fn folder_size(
    catalog: &Catalog,
    tenant_id: u64,
    folder_path: &str,
    visibility: Visibility,
) -> (r: u128)
    ensures
        r == spec_folder_size(catalog@, tenant_id, folder_path@, visibility),
{
    proof {
        reveal_strlit("/");
    }
    let mut prefix = folder_path.to_owned();
    prefix.append("/");
    proof {
        assert(prefix@ =~= folder_path@ + seq!['/']);
    }
    let mut total: u128 = 0;
    let mut i: usize = 0;
    while i < catalog.records.len()
        invariant
            i <= catalog@.len(),
            prefix@ == folder_path@ + seq!['/'],
            total == spec_folder_size(
                catalog@.subrange(0, i as int),
                tenant_id,
                folder_path@,
                visibility,
            ),
            total <= i as u128 * (u64::MAX as u128),
        decreases catalog@.len() - i,
    {
        proof {
            assert(catalog@.subrange(0, i + 1 as int).drop_last() =~= catalog@.subrange(
                0,
                i as int,
            ));
            assert(catalog@.subrange(0, i + 1 as int).last() == catalog@[i as int]);
        }
        let rec = &catalog.records[i];
        if rec.tenant_id == tenant_id && !rec.is_deleted && !rec.is_directory && rec.visibility
            == visibility && (str_eq(rec.parent_path.as_str(), folder_path) || str_starts_with(
            rec.parent_path.as_str(),
            prefix.as_str(),
        )) {
            total = total + rec.size_bytes as u128;
        }
        i = i + 1;
    }
    proof {
        assert(catalog@.subrange(0, catalog@.len() as int) =~= catalog@);
    }
    total
}

/// Request parameters carried by the activity listing of one record.
pub struct FileActivityParams {
    pub limit: Option<i64>,
}

/// Request parameters of a bulk export: the identifiers to export.
pub struct ExportParams {
    pub file_ids: Option<String>,
}


/// Request parameters of a global search.
pub struct SearchParams {
    pub q: String,
    pub limit: Option<i64>,
}

/// A row the search finds: live in the tenant, its name carrying the
/// query without regard to ASCII case, and visible to the caller —
/// private rows only to their owner, department rows company-wide or in
/// a department the caller reaches, with admin tier seeing everything.
pub open spec fn spec_search_match(
    r: FileRecord,
    actor: &Actor,
    tenant_id: u64,
    q: Seq<char>,
) -> bool {
    &&& r.tenant_id == tenant_id
    &&& r.live()
    &&& crate::strutil::seq_contains_sub(
        crate::strutil::spec_lower(r.name@),
        crate::strutil::spec_lower(q),
    )
    &&& (match r.visibility {
        Visibility::Private => r.owner_id == Some(actor.user_id),
        Visibility::Department => actor.spec_is_admin() || r.department_id is None
            || actor.spec_in_department(r.department_id),
    })
}

/// The search handler: the indices, in catalog order, of every record
/// whose name carries the query and which the caller may see, cut off at
/// the requested limit.
pub fn global_search(
    catalog: &Catalog,
    actor: &Actor,
    tenant_id: u64,
    params: &SearchParams,
) -> (r: Result<Vec<usize>, CoreError>)
    ensures
        (r == Err::<Vec<usize>, CoreError>(CoreError::Forbidden)) == !spec_tenant_ok(
            actor,
            tenant_id,
        ),
        r is Err ==> r == Err::<Vec<usize>, CoreError>(CoreError::Forbidden),
        match r {
            Result::Ok(v) => {
                &&& (forall|k: int|
                    0 <= k < v@.len() ==> (#[trigger] v@[k]) < catalog@.len()
                        && spec_search_match(catalog@[v@[k] as int], actor, tenant_id, params.q@))
                &&& (match params.limit {
                    Option::Some(l) => l >= 0 ==> v@.len() <= l,
                    Option::None => true,
                })
                &&& ((match params.limit {
                    Option::Some(l) => v@.len() < l,
                    Option::None => true,
                }) ==> (forall|j: usize|
                    j < catalog@.len() && spec_search_match(
                        #[trigger] catalog@[j as int],
                        actor,
                        tenant_id,
                        params.q@,
                    ) ==> v@.contains(j)))
            },
            Result::Err(_) => true,
        },
        // Indices come back in catalog order, each at most once.
        match r {
            Result::Ok(v) => forall|k1: int, k2: int|
                0 <= k1 < k2 < v@.len() ==> (#[trigger] v@[k1]) < (#[trigger] v@[k2]),
            Result::Err(_) => true,
        },
{
    if !tenant_ok(actor, tenant_id) {
        return Err(CoreError::Forbidden);
    }
    let cap: Option<usize> = match params.limit {
        Option::Some(l) => {
            if l < 0 {
                Some(0)
            } else if (l as u64) > (usize::MAX as u64) {
                None
            } else {
                Some(l as usize)
            }
        },
        Option::None => None,
    };
    let needle = lower_chars(&crate::strutil::chars_of(params.q.as_str()));
    let is_admin = actor.is_admin();
    let n_rows = catalog.records.len();
    let mut v: Vec<usize> = Vec::new();
    let mut i: usize = 0;
    while i < n_rows
        invariant
            n_rows == catalog@.len(),
            i <= catalog@.len(),
            v@.len() <= i,
            needle@ == spec_lower(params.q@),
            is_admin == actor.spec_is_admin(),
            (match cap {
                Option::Some(c) => v@.len() <= c && (match params.limit {
                    Option::Some(l) => l >= 0 ==> c <= l,
                    Option::None => false,
                }),
                Option::None => true,
            }),
            forall|k1: int, k2: int|
                0 <= k1 < k2 < v@.len() ==> (#[trigger] v@[k1]) < (#[trigger] v@[k2]),
            forall|k: int|
                0 <= k < v@.len() ==> (#[trigger] v@[k]) < i && spec_search_match(
                    catalog@[v@[k] as int],
                    actor,
                    tenant_id,
                    params.q@,
                ),
            (match cap {
                Option::Some(c) => v@.len() < c,
                Option::None => true,
            }) ==> (forall|j: usize|
                j < i && spec_search_match(
                    #[trigger] catalog@[j as int],
                    actor,
                    tenant_id,
                    params.q@,
                ) ==> v@.contains(j)),
        decreases catalog@.len() - i,
    {
        let room = match cap {
            Option::Some(c) => v.len() < c,
            Option::None => true,
        };
        let rec = &catalog.records[i];
        let vis_ok: bool = match rec.visibility {
            Visibility::Private => opt_u64_is(&rec.owner_id, actor.user_id),
            Visibility::Department => is_admin || matches!(rec.department_id, Option::None)
                || actor.in_department(&rec.department_id),
        };
        if room && rec.tenant_id == tenant_id && !rec.is_deleted && vis_ok {
            let name_low = lower_chars(&crate::strutil::chars_of(rec.name.as_str()));
            if crate::strutil::chars_contain_sub(&name_low, &needle) {
                let ghost prev = v@;
                v.push(i);
                proof {
                    assert forall|j: usize|
                        j < i + 1 && spec_search_match(
                            #[trigger] catalog@[j as int],
                            actor,
                            tenant_id,
                            params.q@,
                        ) implies v@.contains(j) by {
                        if j < i {
                            assert(prev.contains(j));
                            let w = choose|w: int| 0 <= w < prev.len() && prev[w] == j;
                            assert(v@[w] == j);
                        } else {
                            assert(v@[prev.len() as int] == j);
                        }
                    }
                }
            } else {
                proof {
                    assert(!spec_search_match(catalog@[i as int], actor, tenant_id, params.q@));
                }
            }
        } else {
            proof {
                if room {
                    assert(!spec_search_match(catalog@[i as int], actor, tenant_id, params.q@));
                }
            }
        }
        i = i + 1;
    }
    Ok(v)
}


/// Flips a directory's company-folder flag and reports the new value.
/// Only a directory can be a company folder.
pub fn toggle_company_folder(store: &mut Store, actor: &Actor, tenant_id: u64, file_id: u64) -> (
    r: Result<bool, CoreError>)
    requires
        old(store).wf(),
    ensures
        final(store).wf(),
        final(store).backend@ == old(store).backend@,
        final(store).catalog.next_id == old(store).catalog.next_id,
        r is Err ==> final(store).catalog@ == old(store).catalog@,
        (r == Err::<bool, CoreError>(CoreError::Forbidden)) == !spec_tenant_ok(actor, tenant_id),
        (r == Err::<bool, CoreError>(CoreError::NotFound)) == (spec_tenant_ok(actor, tenant_id)
            && !spec_has_live(old(store).catalog@, tenant_id, file_id)),
        (r == Err::<bool, CoreError>(CoreError::InvalidName)) == (spec_tenant_ok(
            actor,
            tenant_id,
        ) && (exists|i: int|
            0 <= i < old(store).catalog@.len() && (#[trigger] old(store).catalog@[i]).id
                == file_id && old(store).catalog@[i].tenant_id == tenant_id && old(
                store,
            ).catalog@[i].live() && !old(store).catalog@[i].is_directory)),
        match r {
            Result::Ok(flag) => {
                &&& final(store).catalog@.len() == old(store).catalog@.len()
                &&& (forall|i: int|
                    (0 <= i < old(store).catalog@.len() && (#[trigger] old(
                        store,
                    ).catalog@[i]).id == file_id && old(store).catalog@[i].tenant_id == tenant_id
                        && old(store).catalog@[i].live()) ==> ({
                        &&& old(store).catalog@[i].is_directory
                        &&& flag == !old(store).catalog@[i].is_company_folder
                        &&& final(store).catalog@[i] == (FileRecord {
                            is_company_folder: flag,
                            updated_at: final(store).catalog@[i].updated_at,
                            ..old(store).catalog@[i]
                        })
                        &&& (forall|j: int|
                            0 <= j < old(store).catalog@.len() && j != i ==> final(store).catalog@[j] == old(store).catalog@[j])
                    }))
            },
            Result::Err(e) => e == CoreError::Forbidden || e == CoreError::NotFound || e
                == CoreError::InvalidName,
        },
{
    if !tenant_ok(actor, tenant_id) {
        return Err(CoreError::Forbidden);
    }
    let idx = match store.catalog.find_live_index(tenant_id, file_id) {
        Option::Some(i) => i,
        Option::None => {
            return Err(CoreError::NotFound);
        },
    };
    proof {
        assert((#[trigger] old(store).catalog@[idx as int]).id == file_id);
        assert forall|i: int|
            0 <= i < old(store).catalog@.len() && (#[trigger] old(store).catalog@[i]).id
                == file_id && old(store).catalog@[i].tenant_id == tenant_id && old(
                store,
            ).catalog@[i].live() implies i == idx by {
            assert(old(store).catalog@[i].id != old(store).catalog@[idx as int].id || i == idx);
        }
    }
    if !store.catalog.records[idx].is_directory {
        return Err(CoreError::InvalidName);
    }
    let flag = !store.catalog.records[idx].is_company_folder;
    let ghost pre = store.catalog@;
    let mut rec = store.catalog.records.remove(idx);
    rec.is_company_folder = flag;
    store.catalog.records.insert(idx, rec);
    proof {
        assert(store.catalog@ =~= pre.update(idx as int, store.catalog@[idx as int]));
        assert forall|i: int|
            0 <= i < store.catalog@.len() implies (#[trigger] store.catalog@[i]).row_wf() by {
            assert(pre[i].row_wf());
        }
        assert forall|i: int, j: int|
            0 <= i < store.catalog@.len() && 0 <= j < store.catalog@.len() && i != j && (
            #[trigger] store.catalog@[i]).names_count() && (
            #[trigger] store.catalog@[j]).names_count() && store.catalog@[i].same_name_scope(
                &store.catalog@[j],
            ) implies store.catalog@[i].name@ != store.catalog@[j].name@ by {
            assert(pre[i].names_count());
            assert(pre[j].names_count());
            assert(pre[i].same_name_scope(&pre[j]));
        }
    }
    Ok(flag)
}


/// A download admitted through the transfer scheduler: the resolved plan
/// with the permit that covers its bytes, or the queue ticket the caller
/// suspends on until the class frees a slot.
pub enum ScheduledDownload {
    Ready { plan: DownloadPlan, permit: Option<crate::sched::TransferPermit> },
    Suspended { ticket: u64, size_class: crate::sched::SizeClass },
}

/// The download entry point with admission control: the proxied stream is
/// the one path whose bytes traverse this process, so it alone takes a
/// permit, sized to the file. Under saturation the caller is queued, in
/// arrival order, never refused; a redirect or an archive plan takes no
/// slot. The caller releases the permit when the response completes, and
/// cancels its ticket if it gives up while suspended.
#[verifier::rlimit(60)]
#[verifier::spinoff_prover]
pub fn download_file_scheduled(
    store: &Store,
    sched: &mut crate::sched::TransferScheduler,
    actor: &Actor,
    tenant_id: u64,
    file_id: u64,
    params: &DownloadParams,
    restrictions: &ComplianceRestrictions,
    presign_enabled: bool,
    presign_supported: bool,
    max_pack_bytes: u64,
) -> (r: Result<ScheduledDownload, CoreError>)
    requires
        store.wf(),
        old(sched).wf(),
    ensures
        final(sched).wf(),
        (r matches Err(e) && e == CoreError::NotFound) == !spec_has_live(
            store.catalog@,
            tenant_id,
            file_id,
        ),
        (r matches Err(e) && e == CoreError::Forbidden) == spec_download_denied(
            store.catalog@,
            actor,
            tenant_id,
            file_id,
            restrictions,
        ),
        (r matches Err(e) && e == CoreError::TooLarge) == spec_download_oversized(
            store.catalog@,
            actor,
            tenant_id,
            file_id,
            restrictions,
            max_pack_bytes,
        ),
        r matches Err(e) ==> (e == CoreError::Forbidden || e == CoreError::NotFound || e
            == CoreError::TooLarge || e == CoreError::Internal),
        r matches Err(e) ==> *final(sched) == *old(sched),
        r == Err::<ScheduledDownload, CoreError>(CoreError::Internal) ==> old(sched).next_ticket
            == u64::MAX,
        match r {
            Result::Ok(adm) => match adm {
                ScheduledDownload::Ready { plan, permit } => {
                    &&& spec_download_plan_ok(
                        store.catalog@,
                        actor,
                        tenant_id,
                        file_id,
                        restrictions,
                        presign_enabled,
                        presign_supported,
                        max_pack_bytes,
                        plan,
                    )
                    &&& (match plan {
                        DownloadPlan::Stream { size_bytes, .. } => {
                            let class = crate::sched::SizeClass::spec_of_size(size_bytes);
                            &&& (match permit {
                                Option::Some(p) => p.size_class == class,
                                Option::None => false,
                            })
                            &&& old(sched).spec_in_use(class) < old(sched).spec_cap(class)
                            &&& final(sched).spec_in_use(class) == old(sched).spec_in_use(class)
                                + 1
                            &&& final(sched).spec_waiters(class) == old(sched).spec_waiters(
                                class,
                            )
                            &&& (forall|c: crate::sched::SizeClass|
                                c != class ==> #[trigger] final(sched).spec_in_use(c) == old(
                                    sched,
                                ).spec_in_use(c) && final(sched).spec_waiters(c) == old(
                                    sched,
                                ).spec_waiters(c))
                        },
                        _ => permit is None && *final(sched) == *old(sched),
                    })
                },
                ScheduledDownload::Suspended { ticket, size_class } => {
                    // Saturation suspends: the waiter queues in arrival
                    // order, no slot is taken, and nothing is refused.
                    &&& (exists|i: int|
                        0 <= i < store.catalog@.len() && (#[trigger] store.catalog@[i]).id
                            == file_id && store.catalog@[i].tenant_id == tenant_id
                            && store.catalog@[i].live() && !store.catalog@[i].is_directory
                            && size_class == crate::sched::SizeClass::spec_of_size(
                            store.catalog@[i].size_bytes,
                        ))
                    &&& old(sched).spec_in_use(size_class) == old(sched).spec_cap(size_class)
                    &&& ticket == old(sched).next_ticket
                    &&& final(sched).spec_waiters(size_class) == old(sched).spec_waiters(
                        size_class,
                    ).push(ticket)
                    &&& final(sched).spec_in_use(size_class) == old(sched).spec_in_use(
                        size_class,
                    )
                    &&& (forall|c: crate::sched::SizeClass|
                        c != size_class ==> #[trigger] final(sched).spec_in_use(c) == old(
                            sched,
                        ).spec_in_use(c) && final(sched).spec_waiters(c) == old(
                            sched,
                        ).spec_waiters(c))
                },
            },
            Result::Err(_) => true,
        },
{
    let plan = match download_file(
        store,
        actor,
        tenant_id,
        file_id,
        params,
        restrictions,
        presign_enabled,
        presign_supported,
        max_pack_bytes,
    ) {
        Result::Ok(plan) => plan,
        Result::Err(e) => {
            return Err(e);
        },
    };
    let stream_size: Option<u64> = match &plan {
        DownloadPlan::Stream { size_bytes, .. } => Some(*size_bytes),
        _ => None,
    };
    match stream_size {
        Option::Some(sz) => {
            let class = crate::sched::SizeClass::of_size(sz);
            match sched.acquire(class) {
                Result::Ok(crate::sched::Admission::Granted(p)) => Ok(
                    ScheduledDownload::Ready { plan, permit: Some(p) },
                ),
                Result::Ok(crate::sched::Admission::Queued(t)) => {
                    proof {
                        let i = choose|i: int|
                            0 <= i < store.catalog@.len() && (#[trigger] store.catalog@[i]).id
                                == file_id && store.catalog@[i].tenant_id == tenant_id
                                && store.catalog@[i].live();
                        assert(!store.catalog@[i].is_directory);
                        assert(sz == store.catalog@[i].size_bytes);
                    }
                    Ok(ScheduledDownload::Suspended { ticket: t, size_class: class })
                },
                Result::Err(()) => Err(CoreError::Internal),
            }
        },
        Option::None => Ok(ScheduledDownload::Ready { plan, permit: None }),
    }
}


} // verus!
