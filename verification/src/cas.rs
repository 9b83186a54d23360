//! The content-addressed store: hashing, key derivation, and the ingest
//! step that commits new content or recognises content already present.

use vstd::prelude::*;
use crate::backend::Backend;
use crate::catalog::Catalog;
use crate::errors::CoreError;
use crate::strutil::{spec_dec, u64_dec};
use vstd::string::StrSliceExecFns;

verus! {

/// The hexadecimal digest that the hash function assigns to a byte string.
/// It depends on the bytes alone; no contract of this crate says what it is
/// on given bytes.
pub uninterp spec fn blake3_hex(data: Seq<u8>) -> Seq<char>;

/// Relies on `blake3::hash` and `Hash::to_hex`: the digest is a function of
/// the input bytes alone and prints as 64 hexadecimal characters.
#[verifier::external_body]
pub fn blake3_hash_hex(data: &Vec<u8>) -> (r: String)
    ensures
        r@ == blake3_hex(data@),
        r@.len() == 64,
{
    blake3::hash(data.as_slice()).to_hex().as_str().to_owned()
}

/// The department segment of a backend key: the department identifier, or
/// the word reserved for content outside any department.
pub open spec fn spec_dept_segment(department_id: Option<u64>) -> Seq<char> {
    match department_id {
        Option::Some(d) => spec_dec(d as nat),
        Option::None => "private"@,
    }
}

/// The content-addressed backend key:
/// tenant, department segment, two-character hash shard, full hash, joined
/// by slashes. Stable: part of the persisted format.
pub open spec fn spec_content_key(
    tenant_id: u64,
    department_id: Option<u64>,
    hash: Seq<char>,
) -> Seq<char> {
    spec_dec(tenant_id as nat) + seq!['/'] + spec_dept_segment(department_id) + seq!['/']
        + hash.take(2) + seq!['/'] + hash
}

/// Derives the backend key for a content hash in a scope.
pub fn content_key(tenant_id: u64, department_id: &Option<u64>, hash: &str) -> (r: String)
    requires
        hash@.len() >= 2,
    ensures
        r@ == spec_content_key(tenant_id, *department_id, hash@),
{
    proof {
        reveal_strlit("/");
    }
    let mut key = u64_dec(tenant_id);
    key.append("/");
    match department_id {
        Option::Some(d) => {
            let seg = u64_dec(*d);
            key.append(seg.as_str());
        },
        Option::None => {
            key.append("private");
        },
    }
    key.append("/");
    let shard = hash.substring_char(0, 2);
    key.append(shard);
    key.append("/");
    key.append(hash);
    proof {
        assert(hash@.subrange(0, 2) =~= hash@.take(2));
        assert(key@ =~= spec_content_key(tenant_id, *department_id, hash@));
    }
    key
}

/// What an ingest hands back: the content's digest and size, the key the
/// bytes live under, and whether the bytes were already present so that no
/// backend write happened.
pub struct IngestOutcome {
    pub content_hash: String,
    pub size: u64,
    pub deduplicated: bool,
    pub storage_key: String,
}

/// Turns a byte string into a durable, deduplicated content object.
///
/// Enforces the per-upload size limit and the storage quota, computes the
/// digest, and then either reuses the storage key of a live record with the
/// same content in the scope, recognises the object already present under
/// the derived key, or commits the bytes under that key. Every failure
/// leaves the backend as it was — the scratch sink never survives an exit.
pub fn ingest(
    catalog: &Catalog,
    backend: &mut Backend,
    tenant_id: u64,
    department_id: &Option<u64>,
    data: &Vec<u8>,
    max_upload_size: &Option<u64>,
    storage_quota: &Option<u64>,
    used_bytes: u128,
) -> (r: Result<IngestOutcome, CoreError>)
    requires
        old(backend).wf(),
    ensures
        final(backend).wf(),
        match r {
            Result::Ok(out) => ({
                let hash = blake3_hex(data@);
                let key = spec_content_key(tenant_id, *department_id, hash);
                &&& (match *max_upload_size {
                    Option::Some(m) => data@.len() <= m,
                    Option::None => true,
                })
                &&& (match *storage_quota {
                    Option::Some(q) => used_bytes + data@.len() <= q,
                    Option::None => true,
                })
                &&& out.content_hash@ == hash
                &&& out.size == data@.len()
                &&& (if (exists|j: int|
                    0 <= j < catalog@.len() && Catalog::hash_match(
                        &(#[trigger] catalog@[j]),
                        tenant_id,
                        *department_id,
                        hash,
                    )) {
                    // A live record already references this content: reuse
                    // its key, write nothing.
                    &&& out.deduplicated
                    &&& (exists|j: int|
                        0 <= j < catalog@.len() && Catalog::hash_match(
                            &(#[trigger] catalog@[j]),
                            tenant_id,
                            *department_id,
                            hash,
                        ) && catalog@[j].storage_key@ == out.storage_key@)
                    &&& final(backend)@ == old(backend)@
                } else {
                    // No catalog reference: the object itself may still be
                    // present from an earlier, interrupted upload.
                    &&& out.storage_key@ == key
                    &&& out.deduplicated == old(backend).spec_contains(key)
                    &&& final(backend).spec_contains(key)
                    &&& (forall|k: Seq<char>|
                        #[trigger] final(backend).spec_contains(k) == (old(
                            backend,
                        ).spec_contains(k) || k == key))
                    &&& (old(backend).spec_contains(key) ==> final(backend)@ == old(backend)@)
                    &&& (!old(backend).spec_contains(key) ==> final(backend)@ == old(
                        backend,
                    )@.push(key))
                })
            }),
            Result::Err(e) => {
                &&& final(backend)@ == old(backend)@
                &&& (e == CoreError::TooLarge <==> (match *max_upload_size {
                    Option::Some(m) => data@.len() > m,
                    Option::None => false,
                }))
                &&& (e == CoreError::TooLarge || e == CoreError::QuotaExceeded)
                &&& (e == CoreError::QuotaExceeded ==> (match *storage_quota {
                    Option::Some(q) => used_bytes + data@.len() > q,
                    Option::None => false,
                }))
            },
        },
        // An upload within every limit is never refused.
        (match *max_upload_size {
            Option::Some(m) => data@.len() <= m,
            Option::None => true,
        }) && (match *storage_quota {
            Option::Some(q) => used_bytes + data@.len() <= q,
            Option::None => true,
        }) ==> r is Ok,
{
    let size: u64 = data.len() as u64;
    match max_upload_size {
        Option::Some(m) => {
            if size > *m {
                return Err(CoreError::TooLarge);
            }
        },
        Option::None => {},
    }
    match storage_quota {
        Option::Some(q) => {
            let q128: u128 = *q as u128;
            if used_bytes > q128 || size as u128 > q128 - used_bytes {
                return Err(CoreError::QuotaExceeded);
            }
        },
        Option::None => {},
    }
    let hash = blake3_hash_hex(data);
    match catalog.find_live_by_hash(tenant_id, department_id, hash.as_str()) {
        Option::Some(i) => {
            let key = catalog.records[i].storage_key.clone();
            proof {
                assert(Catalog::hash_match(
                    &catalog@[i as int],
                    tenant_id,
                    *department_id,
                    blake3_hex(data@),
                ));
            }
            Ok(IngestOutcome { content_hash: hash, size, deduplicated: true, storage_key: key })
        },
        Option::None => {
            let key = content_key(tenant_id, department_id, hash.as_str());
            let already = backend.contains_key(key.as_str());
            if !already {
                backend.put(key.clone());
            }
            Ok(IngestOutcome {
                content_hash: hash,
                size,
                deduplicated: already,
                storage_key: key,
            })
        },
    }
}

} // verus!
