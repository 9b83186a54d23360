//! The share gateway: token-addressable read access to files and folders,
//! with a policy that can re-ask the access engine on redemption.

use vstd::prelude::*;
use crate::access::{decide, spec_decide, Action, Actor};
use crate::compliance::ComplianceRestrictions;
use crate::errors::CoreError;
use crate::ops::{resource_of, spec_resource_of, spec_tenant_ok, tenant_ok, DownloadPlan};
use crate::store::Store;
use crate::strutil::str_eq;

verus! {

/// How a non-public share is gated on redemption: against the full access
/// engine, or for any credentialed member of the tenant.
#[derive(Clone, Copy, PartialEq, Eq, Structural, Debug)]
pub enum SharePolicy {
    Permissioned,
    TenantWide,
}

/// One share row: a token addressing a record, its creator, its audience
/// and its lifetime.
pub struct ShareRecord {
    pub id: u64,
    pub file_id: u64,
    pub tenant_id: u64,
    pub token: String,
    pub created_by: u64,
    pub is_public: bool,
    pub expires_at: Option<u64>,
    pub download_count: u64,
    pub is_directory: bool,
    pub policy: SharePolicy,
}

/// The table of share rows.
pub struct ShareTable {
    pub shares: Vec<ShareRecord>,
    pub next_id: u64,
}

impl ShareTable {
    pub open spec fn view(&self) -> Seq<ShareRecord> {
        self.shares@
    }

    pub open spec fn wf(&self) -> bool {
        &&& forall|i: int| 0 <= i < self@.len() ==> (#[trigger] self@[i]).id < self.next_id
        &&& forall|i: int, j: int|
            0 <= i < self@.len() && 0 <= j < self@.len() && i != j ==> (#[trigger] self@[i]).id
                != (#[trigger] self@[j]).id
    }

    /// Row `i` is the first share carrying `token`.
    pub open spec fn spec_first_token(s: Seq<ShareRecord>, token: Seq<char>, i: int) -> bool {
        &&& 0 <= i < s.len()
        &&& s[i].token@ == token
        &&& forall|j: int| 0 <= j < i ==> (#[trigger] s[j]).token@ != token
    }

    pub fn new() -> (t: ShareTable)
        ensures
            t.wf(),
            t@.len() == 0,
            t.next_id == 1,
    {
        ShareTable { shares: Vec::new(), next_id: 1 }
    }

    /// The index of the first share carrying `token`.
    pub fn find_token(&self, token: &str) -> (r: Option<usize>)
        ensures
            match r {
                Option::Some(i) => Self::spec_first_token(self@, token@, i as int),
                Option::None => forall|i: int|
                    0 <= i < self@.len() ==> (#[trigger] self@[i]).token@ != token@,
            },
    {
        let mut i: usize = 0;
        while i < self.shares.len()
            invariant
                i <= self@.len(),
                forall|j: int| 0 <= j < i ==> (#[trigger] self@[j]).token@ != token@,
            decreases self@.len() - i,
        {
            if str_eq(self.shares[i].token.as_str(), token) {
                return Some(i);
            }
            i = i + 1;
        }
        None
    }
}

/// A fresh share token of sixteen symbols.
///
/// Relies on `nanoid::format` with the URL-safe alphabet: the result holds
/// exactly the requested number of symbols, drawn at random.
#[verifier::external_body]
fn new_share_token() -> (r: String)
    ensures
        r@.len() == 16,
{
    nanoid::format(nanoid::rngs::default, &nanoid::alphabet::SAFE, 16)
}

/// What a share request names.
pub struct CreateShareInput {
    pub is_public: Option<bool>,
    pub expires_in_days: Option<u64>,
    pub share_policy: Option<SharePolicy>,
}

/// What a created share reports.
#[derive(Debug)]
pub struct ShareOutcome {
    pub id: u64,
    pub token: String,
    pub is_public: bool,
    pub is_directory: bool,
    pub expires_at: Option<u64>,
}

/// The share-creation handler: the creator must pass the access engine
/// for sharing, and a public share is refused outright under a compliance
/// mode that blocks public sharing.
pub fn create_file_share(
    table: &mut ShareTable,
    store: &Store,
    actor: &Actor,
    tenant_id: u64,
    file_id: u64,
    input: &CreateShareInput,
    restrictions: &ComplianceRestrictions,
    now: u64,
) -> (r: Result<ShareOutcome, CoreError>)
    requires
        old(table).wf(),
        store.wf(),
    ensures
        final(table).wf(),
        r is Err ==> final(table)@ == old(table)@,
        (r == Err::<ShareOutcome, CoreError>(CoreError::Internal)) == (spec_tenant_ok(
            actor,
            tenant_id,
        ) && old(table).next_id == u64::MAX),
        (r == Err::<ShareOutcome, CoreError>(CoreError::ComplianceBlock)) == (spec_tenant_ok(
            actor,
            tenant_id,
        ) && old(table).next_id < u64::MAX && (match input.is_public {
            Option::Some(p) => p,
            Option::None => false,
        }) && restrictions.public_sharing_blocked),
        (r == Err::<ShareOutcome, CoreError>(CoreError::NotFound)) == (spec_tenant_ok(
            actor,
            tenant_id,
        ) && old(table).next_id < u64::MAX && !((match input.is_public {
            Option::Some(p) => p,
            Option::None => false,
        }) && restrictions.public_sharing_blocked) && !crate::ops::spec_has_live(
            store.catalog@,
            tenant_id,
            file_id,
        )),
        (r == Err::<ShareOutcome, CoreError>(CoreError::Forbidden)) == (!spec_tenant_ok(
            actor,
            tenant_id,
        ) || (old(table).next_id < u64::MAX && !((match input.is_public {
            Option::Some(p) => p,
            Option::None => false,
        }) && restrictions.public_sharing_blocked) && (exists|i: int|
            0 <= i < store.catalog@.len() && (#[trigger] store.catalog@[i]).id == file_id
                && store.catalog@[i].tenant_id == tenant_id && store.catalog@[i].live()
                && !spec_decide(
                actor,
                &spec_resource_of(store.catalog@[i]),
                Action::Share,
                restrictions,
                (match input.is_public {
                    Option::Some(p) => p,
                    Option::None => false,
                }),
            )))),
        match r {
            Result::Ok(out) => {
                &&& (exists|i: int|
                    0 <= i < store.catalog@.len() && (#[trigger] store.catalog@[i]).id
                        == file_id && store.catalog@[i].tenant_id == tenant_id
                        && store.catalog@[i].live() && spec_decide(
                        actor,
                        &spec_resource_of(store.catalog@[i]),
                        Action::Share,
                        restrictions,
                        out.is_public,
                    ) && out.is_directory == store.catalog@[i].is_directory)
                &&& out.is_public == (match input.is_public {
                    Option::Some(p) => p,
                    Option::None => false,
                })
                &&& !(out.is_public && restrictions.public_sharing_blocked)
                &&& out.id == old(table).next_id
                &&& final(table)@.len() == old(table)@.len() + 1
                &&& (forall|j: int|
                    0 <= j < old(table)@.len() ==> final(table)@[j] == old(table)@[j])
                &&& ({
                    let s = final(table)@.last();
                    &&& s.id == out.id
                    &&& s.file_id == file_id
                    &&& s.tenant_id == tenant_id
                    &&& s.token == out.token
                    &&& s.token@.len() == 16
                    &&& s.created_by == actor.user_id
                    &&& s.is_public == out.is_public
                    &&& s.download_count == 0
                    &&& s.expires_at == out.expires_at
                    &&& (s.expires_at is Some) == (input.expires_in_days is Some)
                    &&& s.policy == (match input.share_policy {
                        Option::Some(p) => p,
                        Option::None => SharePolicy::Permissioned,
                    })
                })
            },
            Result::Err(e) => e == CoreError::Forbidden || e == CoreError::NotFound || e
                == CoreError::ComplianceBlock || e == CoreError::Internal,
        },
{
    if !tenant_ok(actor, tenant_id) {
        return Err(CoreError::Forbidden);
    }
    if table.next_id == u64::MAX {
        return Err(CoreError::Internal);
    }
    let is_public = match input.is_public {
        Option::Some(p) => p,
        Option::None => false,
    };
    if is_public && restrictions.public_sharing_blocked {
        return Err(CoreError::ComplianceBlock);
    }
    let idx = match store.catalog.find_live_index(tenant_id, file_id) {
        Option::Some(i) => i,
        Option::None => {
            return Err(CoreError::NotFound);
        },
    };
    let res = resource_of(&store.catalog.records[idx]);
    if !decide(actor, &res, Action::Share, restrictions, is_public) {
        return Err(CoreError::Forbidden);
    }
    let token = new_share_token();
    let expires_at: Option<u64> = match input.expires_in_days {
        Option::Some(days) => {
            // One day is 86_400_000 milliseconds on this clock; a span
            // past the clock's range saturates.
            let span: u128 = days as u128 * 86_400_000u128;
            let sum: u128 = now as u128 + span;
            if sum > u64::MAX as u128 {
                Some(u64::MAX)
            } else {
                Some(sum as u64)
            }
        },
        Option::None => None,
    };
    let policy = match input.share_policy {
        Option::Some(p) => p,
        Option::None => SharePolicy::Permissioned,
    };
    let id = table.next_id;
    let rec = ShareRecord {
        id,
        file_id,
        tenant_id,
        token: token.clone(),
        created_by: actor.user_id,
        is_public,
        expires_at,
        download_count: 0,
        is_directory: store.catalog.records[idx].is_directory,
        policy,
    };
    let ghost pre = table@;
    table.shares.push(rec);
    table.next_id = table.next_id + 1;
    proof {
        assert forall|i: int, j: int|
            0 <= i < table@.len() && 0 <= j < table@.len() && i != j implies (
        #[trigger] table@[i]).id != (#[trigger] table@[j]).id by {
            if i < pre.len() && j < pre.len() {
                assert(pre[i].id != pre[j].id);
            }
        }
        assert((#[trigger] store.catalog@[idx as int]).id == file_id);
    }
    Ok(ShareOutcome {
        id,
        token,
        is_public,
        is_directory: store.catalog.records[idx].is_directory,
        expires_at,
    })
}

/// The redemption handler: looks the token up, enforces expiry and the
/// share's audience, counts the download, and serves through the same
/// download machinery — an archive plan for a shared directory, a
/// redirect or a stream for a file.
pub fn download_shared_file(
    table: &mut ShareTable,
    store: &Store,
    token: &str,
    credentials: &Option<Actor>,
    restrictions: &ComplianceRestrictions,
    presign_enabled: bool,
    presign_supported: bool,
    max_pack_bytes: u64,
    now: u64,
) -> (r: Result<DownloadPlan, CoreError>)
    requires
        old(table).wf(),
        store.wf(),
    ensures
        final(table).wf(),
        final(table)@.len() == old(table)@.len(),
        r is Err ==> final(table)@ == old(table)@,
        (r matches Err(e) && e == CoreError::Expired) == ((exists|s: int|
            ShareTable::spec_first_token(old(table)@, token@, s)) && (forall|s: int|
            ShareTable::spec_first_token(old(table)@, token@, s) ==> spec_share_expired(
                #[trigger] old(table)@[s],
                now,
            ))),
        (r matches Err(e) && e == CoreError::Forbidden) == ((exists|s: int|
            ShareTable::spec_first_token(old(table)@, token@, s)) && (forall|s: int|
            ShareTable::spec_first_token(old(table)@, token@, s) ==> (!spec_share_expired(
                #[trigger] old(table)@[s],
                now,
            ) && !old(table)@[s].is_public && ((match credentials {
                Option::Some(a) => a.tenant_id != old(table)@[s].tenant_id,
                Option::None => true,
            }) || (old(table)@[s].policy == SharePolicy::Permissioned && (match credentials {
                Option::Some(a) => exists|k: int|
                    0 <= k < store.catalog@.len() && (#[trigger] store.catalog@[k]).id == old(
                        table,
                    )@[s].file_id && store.catalog@[k].tenant_id == old(table)@[s].tenant_id
                        && store.catalog@[k].live() && !spec_decide(
                        a,
                        &spec_resource_of(store.catalog@[k]),
                        Action::Read,
                        restrictions,
                        false,
                    ),
                Option::None => false,
            })))))),
        (r matches Err(e) && e == CoreError::NotFound) == ((forall|s: int|
            0 <= s < old(table)@.len() ==> (#[trigger] old(table)@[s]).token@ != token@) || ((
        exists|s: int| ShareTable::spec_first_token(old(table)@, token@, s)) && (forall|s: int|
            ShareTable::spec_first_token(old(table)@, token@, s) ==> (!spec_share_expired(
                #[trigger] old(table)@[s],
                now,
            ) && spec_share_audience_ok(old(table)@[s], credentials)
                && !crate::ops::spec_has_live(
                store.catalog@,
                old(table)@[s].tenant_id,
                old(table)@[s].file_id,
            ))))),
        (r matches Err(e) && e == CoreError::TooLarge) == ((exists|s: int|
            ShareTable::spec_first_token(old(table)@, token@, s)) && (forall|s: int|
            ShareTable::spec_first_token(old(table)@, token@, s) ==> (!spec_share_expired(
                #[trigger] old(table)@[s],
                now,
            ) && spec_share_audience_ok(old(table)@[s], credentials) && spec_share_policy_ok(
                old(table)@[s],
                credentials,
                store.catalog@,
                restrictions,
            ) && (exists|k: int|
                0 <= k < store.catalog@.len() && (#[trigger] store.catalog@[k]).id == old(
                    table,
                )@[s].file_id && store.catalog@[k].tenant_id == old(table)@[s].tenant_id
                    && store.catalog@[k].live() && store.catalog@[k].is_directory
                    && crate::pack::spec_pack_total(
                    store.catalog@,
                    old(table)@[s].tenant_id,
                    store.catalog@[k].spec_path(),
                ) > max_pack_bytes)))),
        match r {
            Result::Ok(_) => exists|s: int|
                0 <= s < old(table)@.len() && (#[trigger] old(table)@[s]).token@ == token@ && ({
                    let sh = old(table)@[s];
                    &&& (match sh.expires_at {
                        Option::Some(t) => now <= t,
                        Option::None => true,
                    })
                    &&& (!sh.is_public ==> (match credentials {
                        Option::Some(actor) => actor.tenant_id == sh.tenant_id,
                        Option::None => false,
                    }))
                    &&& (!sh.is_public && sh.policy == SharePolicy::Permissioned ==> (
                    match credentials {
                        Option::Some(actor) => exists|i: int|
                            0 <= i < store.catalog@.len() && (#[trigger] store.catalog@[i]).id
                                == sh.file_id && store.catalog@[i].tenant_id == sh.tenant_id
                                && store.catalog@[i].live() && spec_decide(
                                actor,
                                &spec_resource_of(store.catalog@[i]),
                                Action::Read,
                                restrictions,
                                false,
                            ),
                        Option::None => false,
                    }))
                    &&& final(table)@[s].download_count >= old(table)@[s].download_count
                    &&& (old(table)@[s].download_count < u64::MAX ==> final(table)@[s].download_count == old(table)@[s].download_count + 1)
                    &&& (forall|j: int|
                        0 <= j < old(table)@.len() && j != s ==> final(table)@[j] == old(
                            table,
                        )@[j])
                }),
            Result::Err(e) => e == CoreError::NotFound || e == CoreError::Expired || e
                == CoreError::Forbidden || e == CoreError::TooLarge,
        },
{
    let s = match table.find_token(token) {
        Option::Some(s) => s,
        Option::None => {
            return Err(CoreError::NotFound);
        },
    };
    proof {
        assert forall|s2: int|
            ShareTable::spec_first_token(table@, token@, s2) implies s2 == s by {
            if s2 < s {
                assert(table@[s2].token@ != token@);
            } else if s2 > s {
                assert((#[trigger] table@[s as int]).token@ != token@);
            }
        }
    }
    match table.shares[s].expires_at {
        Option::Some(t) => {
            if now > t {
                return Err(CoreError::Expired);
            }
        },
        Option::None => {},
    }
    let share_tenant = table.shares[s].tenant_id;
    let share_file = table.shares[s].file_id;
    if !table.shares[s].is_public {
        let actor = match credentials {
            Option::Some(a) => a,
            Option::None => {
                return Err(CoreError::Forbidden);
            },
        };
        if actor.tenant_id != share_tenant {
            return Err(CoreError::Forbidden);
        }
        if matches!(table.shares[s].policy, SharePolicy::Permissioned) {
            match crate::ops::can_access_file(
                &store.catalog,
                share_file,
                share_tenant,
                actor,
                Action::Read,
                restrictions,
                false,
            ) {
                Result::Ok(true) => {},
                Result::Ok(false) => {
                    return Err(CoreError::Forbidden);
                },
                Result::Err(_) => {
                    return Err(CoreError::NotFound);
                },
            }
        }
    }
    let idx = match store.catalog.find_live_index(share_tenant, share_file) {
        Option::Some(i) => i,
        Option::None => {
            return Err(CoreError::NotFound);
        },
    };
    proof {
        assert((#[trigger] store.catalog@[idx as int]).id == share_file);
        assert forall|k: int|
            0 <= k < store.catalog@.len() && (#[trigger] store.catalog@[k]).id == share_file
                && store.catalog@[k].tenant_id == share_tenant && store.catalog@[
                k
            ].live() implies k == idx by {
            assert(store.catalog@[k].id != store.catalog@[idx as int].id || k == idx);
        }
    }
    // The plan is settled first; the counter then moves before any byte
    // flows.
    let rec = &store.catalog.records[idx];
    let plan: DownloadPlan = if rec.is_directory {
        match crate::pack::pack_plan(
            &store.catalog,
            share_tenant,
            rec.name.as_str(),
            rec.parent_path.as_str(),
            max_pack_bytes,
        ) {
            Result::Ok(plan) => DownloadPlan::Pack(plan),
            Result::Err(e) => {
                return Err(e);
            },
        }
    } else if presign_enabled && presign_supported {
        DownloadPlan::Redirect { storage_key: rec.storage_key.clone() }
    } else {
        DownloadPlan::Stream {
            storage_key: rec.storage_key.clone(),
            size_bytes: rec.size_bytes,
            file_name: rec.name.clone(),
        }
    };
    {
        let ghost pre = table@;
        let mut sh = table.shares.remove(s);
        if sh.download_count < u64::MAX {
            sh.download_count = sh.download_count + 1;
        }
        table.shares.insert(s, sh);
        proof {
            assert(table@ =~= pre.update(s as int, table@[s as int]));
            assert forall|i: int, j: int|
                0 <= i < table@.len() && 0 <= j < table@.len() && i != j implies (
            #[trigger] table@[i]).id != (#[trigger] table@[j]).id by {
                assert(pre[i].id != pre[j].id);
                assert(table@[i].id == pre[i].id);
                assert(table@[j].id == pre[j].id);
            }
        }
    }
    Ok(plan)
}

/// A share is past its lifetime at `now`.
pub open spec fn spec_share_expired(sh: ShareRecord, now: u64) -> bool {
    match sh.expires_at {
        Option::Some(t) => now > t,
        Option::None => false,
    }
}

/// The credentials reach the share's audience: public shares admit
/// anyone; a private share wants a member of its tenant.
pub open spec fn spec_share_audience_ok(sh: ShareRecord, credentials: &Option<Actor>) -> bool {
    sh.is_public || (match credentials {
        Option::Some(a) => a.tenant_id == sh.tenant_id,
        Option::None => false,
    })
}

/// The share's policy admits the redeemer: the permissioned policy
/// re-asks the access engine against the underlying record.
pub open spec fn spec_share_policy_ok(
    sh: ShareRecord,
    credentials: &Option<Actor>,
    catalog: Seq<crate::records::FileRecord>,
    restrictions: &ComplianceRestrictions,
) -> bool {
    sh.is_public || sh.policy == SharePolicy::TenantWide || (match credentials {
        Option::Some(a) => exists|k: int|
            0 <= k < catalog.len() && (#[trigger] catalog[k]).id == sh.file_id
                && catalog[k].tenant_id == sh.tenant_id && catalog[k].live() && spec_decide(
                a,
                &spec_resource_of(catalog[k]),
                Action::Read,
                restrictions,
                false,
            ),
        Option::None => false,
    })
}

/// What the public share page shows before a download.
pub struct ShareInfo {
    pub file_name: String,
    pub size_bytes: u64,
    pub is_public: bool,
    pub is_directory: bool,
    pub expires_at: Option<u64>,
    pub download_count: u64,
}

/// The share-information handler: what the token addresses, if it is
/// still alive.
pub fn get_share_info(table: &ShareTable, store: &Store, token: &str, now: u64) -> (r: Result<
    ShareInfo,
    CoreError,
>)
    requires
        store.wf(),
    ensures
        match r {
            Result::Ok(info) => exists|s: int|
                0 <= s < table@.len() && (#[trigger] table@[s]).token@ == token@ && (
                match table@[s].expires_at {
                    Option::Some(t) => now <= t,
                    Option::None => true,
                }) && info.is_public == table@[s].is_public && info.download_count == table@[
                    s
                ].download_count && info.expires_at == table@[s].expires_at
                    && info.is_directory == table@[s].is_directory && (exists|k: int|
                    0 <= k < store.catalog@.len() && (#[trigger] store.catalog@[k]).id
                        == table@[s].file_id && store.catalog@[k].tenant_id == table@[
                        s
                    ].tenant_id && store.catalog@[k].live() && info.file_name
                        == store.catalog@[k].name && info.size_bytes == store.catalog@[
                        k
                    ].size_bytes),
            Result::Err(e) => e == CoreError::NotFound || e == CoreError::Expired,
        },
        (r matches Err(e) && e == CoreError::Expired) == ((exists|s: int|
            ShareTable::spec_first_token(table@, token@, s)) && (forall|s: int|
            ShareTable::spec_first_token(table@, token@, s) ==> spec_share_expired(
                #[trigger] table@[s],
                now,
            ))),
        (r matches Err(e) && e == CoreError::NotFound) == ((forall|s: int|
            0 <= s < table@.len() ==> (#[trigger] table@[s]).token@ != token@) || ((exists|
            s: int,
        | ShareTable::spec_first_token(table@, token@, s)) && (forall|s: int|
            ShareTable::spec_first_token(table@, token@, s) ==> (!spec_share_expired(
                #[trigger] table@[s],
                now,
            ) && !crate::ops::spec_has_live(
                store.catalog@,
                table@[s].tenant_id,
                table@[s].file_id,
            ))))),
{
    let s = match table.find_token(token) {
        Option::Some(s) => s,
        Option::None => {
            return Err(CoreError::NotFound);
        },
    };
    proof {
        assert forall|s2: int|
            ShareTable::spec_first_token(table@, token@, s2) implies s2 == s by {
            if s2 < s {
                assert(table@[s2].token@ != token@);
            } else if s2 > s {
                assert((#[trigger] table@[s as int]).token@ != token@);
            }
        }
    }
    proof {
        assert forall|s2: int|
            ShareTable::spec_first_token(table@, token@, s2) implies s2 == s by {
            if s2 < s {
                assert(table@[s2].token@ != token@);
            } else if s2 > s {
                assert((#[trigger] table@[s as int]).token@ != token@);
            }
        }
    }
    match table.shares[s].expires_at {
        Option::Some(t) => {
            if now > t {
                return Err(CoreError::Expired);
            }
        },
        Option::None => {},
    }
    let idx = match store.catalog.find_live_index(
        table.shares[s].tenant_id,
        table.shares[s].file_id,
    ) {
        Option::Some(i) => i,
        Option::None => {
            return Err(CoreError::NotFound);
        },
    };
    Ok(ShareInfo {
        file_name: store.catalog.records[idx].name.clone(),
        size_bytes: store.catalog.records[idx].size_bytes,
        is_public: table.shares[s].is_public,
        is_directory: table.shares[s].is_directory,
        expires_at: table.shares[s].expires_at,
        download_count: table.shares[s].download_count,
    })
}

} // verus!
