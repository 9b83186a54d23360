//! Directory packing: the archive plan for every live file below a
//! directory, with entry names sanitized against archive-slip and the
//! total size enforced before any backend read.

use vstd::prelude::*;
use crate::catalog::Catalog;
use crate::errors::CoreError;
use crate::records::FileRecord;
use crate::strutil::{path_join, spec_path_join, str_eq, str_starts_with, str_suffix_from, string_of};
use vstd::string::StrSliceExecFns;

verus! {

pub open spec fn is_path_sep(c: char) -> bool {
    c == '/' || c == '\\'
}

/// The components a raw path splits into, at every slash or backslash.
pub open spec fn spec_components(s: Seq<char>) -> Seq<Seq<char>>
    decreases s.len(),
{
    if s.len() == 0 {
        seq![Seq::empty()]
    } else {
        let p = spec_components(s.drop_last());
        if is_path_sep(s.last()) {
            p.push(Seq::empty())
        } else {
            p.update(p.len() - 1, p.last().push(s.last()))
        }
    }
}

/// The components an archive entry keeps: non-empty ones that are neither
/// the current-directory nor the parent-directory marker.
pub open spec fn spec_kept(cs: Seq<Seq<char>>) -> Seq<Seq<char>>
    decreases cs.len(),
{
    if cs.len() == 0 {
        Seq::empty()
    } else {
        let p = spec_kept(cs.drop_last());
        if cs.last().len() > 0 && cs.last() != "."@ && cs.last() != ".."@ {
            p.push(cs.last())
        } else {
            p
        }
    }
}

/// Kept components joined back with single slashes.
pub open spec fn spec_joined(cs: Seq<Seq<char>>) -> Seq<char>
    decreases cs.len(),
{
    if cs.len() == 0 {
        Seq::empty()
    } else if cs.len() == 1 {
        cs.last()
    } else {
        spec_joined(cs.drop_last()) + seq!['/'] + cs.last()
    }
}

pub open spec fn spec_any_colon(cs: Seq<Seq<char>>) -> bool {
    exists|i: int| 0 <= i < cs.len() && (#[trigger] cs[i]).contains(':')
}

/// What sanitizing an archive entry path yields: leading separators and
/// dot components dropped, backslashes normalised to slashes, drive-like
/// colons refused, the empty result refused.
pub open spec fn spec_zip_sanitize(s: Seq<char>) -> Option<Seq<char>> {
    let k = spec_kept(spec_components(s));
    if k.len() == 0 || spec_any_colon(k) {
        None
    } else {
        Some(spec_joined(k))
    }
}

/// Sanitizes a path for inclusion in an archive, against archive-slip:
/// path traversal and absolute markers never survive.
#[verifier::rlimit(100)]
#[verifier::spinoff_prover]
#[verifier::loop_isolation(false)]
pub fn sanitize_zip_path(path: &str) -> (r: Option<String>)
    ensures
        match r {
            Option::Some(t) => spec_zip_sanitize(path@) == Some(t@),
            Option::None => spec_zip_sanitize(path@) is None,
        },
{
    proof {
        reveal_strlit(".");
        reveal_strlit("..");
    }
    let chars = crate::strutil::chars_of(path);
    let n = chars.len();
    // Split into components.
    let mut comps: Vec<Vec<char>> = Vec::new();
    let mut cur: Vec<char> = Vec::new();
    let mut i: usize = 0;
    proof {
        assert(chars@.take(0) =~= Seq::<char>::empty());
        assert(spec_components(chars@.take(0)) =~= seq![Seq::<char>::empty()]);
        assert(comps@.map_values(|v: Vec<char>| v@).push(cur@) =~= spec_components(
            chars@.take(0),
        ));
    }
    while i < n
        invariant
            i <= n,
            n == chars@.len(),
            comps@.map_values(|v: Vec<char>| v@).push(cur@) == spec_components(
                chars@.take(i as int),
            ),
        decreases n - i,
    {
        proof {
            assert(chars@.take(i + 1 as int).drop_last() =~= chars@.take(i as int));
            assert(chars@.take(i + 1 as int).last() == chars@[i as int]);
        }
        let c = chars[i];
        if c == '/' || c == '\\' {
            comps.push(cur);
            cur = Vec::new();
            proof {
                assert(comps@.map_values(|v: Vec<char>| v@).push(cur@) =~= spec_components(
                    chars@.take(i + 1 as int),
                ));
            }
        } else {
            cur.push(c);
            proof {
                let prev = spec_components(chars@.take(i as int));
                assert(comps@.map_values(|v: Vec<char>| v@).push(cur@) =~= prev.update(
                    prev.len() - 1,
                    prev.last().push(chars@[i as int]),
                ));
            }
        }
        i = i + 1;
    }
    comps.push(cur);
    proof {
        assert(chars@.take(n as int) =~= chars@);
        assert(comps@.map_values(|v: Vec<char>| v@) =~= spec_components(chars@));
    }
    // Keep the real components, refuse colons, and join.
    let mut kept: Vec<Vec<char>> = Vec::new();
    let mut j: usize = 0;
    proof {
        assert(comps@.map_values(|v: Vec<char>| v@).take(0) =~= Seq::<Seq<char>>::empty());
        assert(spec_kept(Seq::<Seq<char>>::empty()) =~= Seq::<Seq<char>>::empty());
        assert(kept@.map_values(|v: Vec<char>| v@) =~= spec_kept(
            comps@.map_values(|v: Vec<char>| v@).take(0),
        ));
    }
    while j < comps.len()
        invariant
            j <= comps@.len(),
            kept@.map_values(|v: Vec<char>| v@) == spec_kept(
                comps@.map_values(|v: Vec<char>| v@).take(j as int),
            ),
        decreases comps@.len() - j,
    {
        proof {
            let cs = comps@.map_values(|v: Vec<char>| v@);
            assert(cs.take(j + 1 as int).drop_last() =~= cs.take(j as int));
            assert(cs.take(j + 1 as int).last() == cs[j as int]);
        }
        let comp = &comps[j];
        let comp_s = string_of(comp);
        let keep = comp.len() > 0 && !str_eq(comp_s.as_str(), ".") && !str_eq(
            comp_s.as_str(),
            "..",
        );
        if keep {
            let copy = crate::strutil::chars_of(comp_s.as_str());
            kept.push(copy);
            proof {
                assert(kept@.map_values(|v: Vec<char>| v@) =~= spec_kept(
                    comps@.map_values(|v: Vec<char>| v@).take(j as int),
                ).push(comps@.map_values(|v: Vec<char>| v@)[j as int]));
            }
        }
        j = j + 1;
    }
    proof {
        let cs = comps@.map_values(|v: Vec<char>| v@);
        assert(cs.take(cs.len() as int) =~= cs);
    }
    if kept.len() == 0 {
        proof {
            assert(spec_kept(spec_components(chars@)).len() == 0);
        }
        return None;
    }
    // A colon anywhere kept refuses the whole path: it may name a drive.
    let mut x: usize = 0;
    while x < kept.len()
        invariant
            x <= kept@.len(),
            forall|y: int|
                0 <= y < x ==> !(#[trigger] kept@[y])@.contains(':'),
        decreases kept@.len() - x,
    {
        if crate::ops::contains_char(&kept[x], ':') {
            proof {
                assert(spec_any_colon(kept@.map_values(|v: Vec<char>| v@))) by {
                    assert(kept@.map_values(|v: Vec<char>| v@)[x as int].contains(':'));
                }
            }
            return None;
        }
        x = x + 1;
    }
    proof {
        let k = kept@.map_values(|v: Vec<char>| v@);
        if spec_any_colon(k) {
            let w = choose|w: int| 0 <= w < k.len() && (#[trigger] k[w]).contains(':');
            assert(!(kept@[w])@.contains(':'));
        }
    }
    // Join with single slashes.
    let mut out: Vec<char> = Vec::new();
    let mut z: usize = 0;
    while z < kept.len()
        invariant
            z <= kept@.len(),
            kept@.len() > 0,
            out@ == spec_joined(kept@.map_values(|v: Vec<char>| v@).take(z as int)),
        decreases kept@.len() - z,
    {
        proof {
            let k = kept@.map_values(|v: Vec<char>| v@);
            assert(k.take(z + 1 as int).drop_last() =~= k.take(z as int));
            assert(k.take(z + 1 as int).last() == k[z as int]);
        }
        if z > 0 {
            out.push('/');
        }
        let comp = &kept[z];
        let mut w: usize = 0;
        let ghost base = out@;
        while w < comp.len()
            invariant
                w <= comp@.len(),
                out@ == base + comp@.subrange(0, w as int),
            decreases comp@.len() - w,
        {
            out.push(comp[w]);
            assert(out@ =~= base + comp@.subrange(0, w + 1 as int));
            w = w + 1;
        }
        proof {
            let k = kept@.map_values(|v: Vec<char>| v@);
            assert(comp@ =~= comp@.subrange(0, comp@.len() as int));
            if z == 0 {
                assert(out@ =~= spec_joined(k.take(1)));
            } else {
                assert(out@ =~= spec_joined(k.take(z as int)) + seq!['/'] + k[z as int]);
                assert(out@ =~= spec_joined(k.take(z + 1 as int)));
            }
        }
        z = z + 1;
    }
    proof {
        let k = kept@.map_values(|v: Vec<char>| v@);
        assert(k.take(k.len() as int) =~= k);
    }
    Some(string_of(&out))
}

/// One planned archive entry: the sanitized name it gets, the key its
/// bytes live under, and its size.
#[derive(Debug)]
pub struct PackEntry {
    pub entry_name: String,
    pub storage_key: String,
    pub size_bytes: u64,
}

/// The plan for packing a directory: entries for every live file below it
/// whose sanitized name is not empty, and the exact total of the bytes to
/// read.
#[derive(Debug)]
pub struct PackPlan {
    pub entries: Vec<PackEntry>,
    pub total_bytes: u128,
}

/// A live file below the directory at `folder_path`, in the tenant.
pub open spec fn pack_candidate(r: FileRecord, tenant_id: u64, folder_path: Seq<char>) -> bool {
    r.tenant_id == tenant_id && r.live() && !r.is_directory && r.under_path(folder_path)
}

/// The raw entry name of a candidate: the folder's own name, then the
/// candidate's path relative to the folder.
pub open spec fn spec_raw_entry(
    r: FileRecord,
    folder_name: Seq<char>,
    folder_path: Seq<char>,
) -> Seq<char> {
    if r.parent_path@ == folder_path {
        spec_path_join(folder_name, r.name@)
    } else {
        spec_path_join(
            spec_path_join(folder_name, r.parent_path@.skip(folder_path.len() as int + 1)),
            r.name@,
        )
    }
}

/// Total bytes of the candidates in the prefix `s`.
pub open spec fn spec_pack_total(s: Seq<FileRecord>, tenant_id: u64, folder_path: Seq<char>) -> int
    decreases s.len(),
{
    if s.len() == 0 {
        0
    } else {
        spec_pack_total(s.drop_last(), tenant_id, folder_path) + (if pack_candidate(
            s.last(),
            tenant_id,
            folder_path,
        ) {
            s.last().size_bytes as int
        } else {
            0
        })
    }
}

/// The planned entries, in catalog order: one triple of sanitized name,
/// storage key and size for every candidate whose sanitized raw name is
/// not refused.
pub open spec fn spec_pack_entries(
    s: Seq<FileRecord>,
    tenant_id: u64,
    folder_name: Seq<char>,
    folder_path: Seq<char>,
) -> Seq<(Seq<char>, Seq<char>, u64)>
    decreases s.len(),
{
    if s.len() == 0 {
        Seq::empty()
    } else {
        let rest = spec_pack_entries(s.drop_last(), tenant_id, folder_name, folder_path);
        if pack_candidate(s.last(), tenant_id, folder_path) {
            match spec_zip_sanitize(spec_raw_entry(s.last(), folder_name, folder_path)) {
                Option::Some(nm) => rest.push(
                    (nm, s.last().storage_key@, s.last().size_bytes),
                ),
                Option::None => rest,
            }
        } else {
            rest
        }
    }
}

pub open spec fn spec_entry_view(e: PackEntry) -> (Seq<char>, Seq<char>, u64) {
    (e.entry_name@, e.storage_key@, e.size_bytes)
}

/// Builds the archive plan for the directory named `folder_name` under
/// `parent_path`. The size ceiling is enforced before any entry is
/// planned, so nothing is ever read from the backend for an oversized
/// pack; the plan lists, in catalog order, every live file below the
/// directory whose sanitized entry name survives.
#[verifier::loop_isolation(false)]
pub fn pack_plan(
    catalog: &Catalog,
    tenant_id: u64,
    folder_name: &str,
    parent_path: &str,
    max_pack_bytes: u64,
) -> (r: Result<PackPlan, CoreError>)
    ensures
        ({
            let folder_path = spec_path_join(parent_path@, folder_name@);
            match r {
                Result::Ok(plan) => {
                    &&& plan.total_bytes == spec_pack_total(catalog@, tenant_id, folder_path)
                    &&& plan.total_bytes <= max_pack_bytes
                    &&& plan.entries@.map_values(|e: PackEntry| spec_entry_view(e))
                        == spec_pack_entries(catalog@, tenant_id, folder_name@, folder_path)
                },
                Result::Err(e) => e == CoreError::TooLarge && spec_pack_total(
                    catalog@,
                    tenant_id,
                    folder_path,
                ) > max_pack_bytes,
            }
        }),
{
    proof {
        reveal_strlit("/");
    }
    let folder_path = path_join(parent_path, folder_name);
    let folder_path_len = folder_path.as_str().unicode_len();
    let mut prefix = folder_path.clone();
    prefix.append("/");
    proof {
        assert(prefix@ =~= folder_path@ + seq!['/']);
    }
    // The ceiling is checked before a single entry is planned.
    let mut total: u128 = 0;
    let mut i: usize = 0;
    while i < catalog.records.len()
        invariant
            i <= catalog@.len(),
            total == spec_pack_total(catalog@.subrange(0, i as int), tenant_id, folder_path@),
            total <= i as u128 * (u64::MAX as u128),
        decreases catalog@.len() - i,
    {
        proof {
            assert(catalog@.subrange(0, i + 1 as int).drop_last() =~= catalog@.subrange(
                0,
                i as int,
            ));
            assert(catalog@.subrange(0, i + 1 as int).last() == catalog@[i as int]);
        }
        let rec = &catalog.records[i];
        if rec.tenant_id == tenant_id && !rec.is_deleted && !rec.is_directory && (str_eq(
            rec.parent_path.as_str(),
            folder_path.as_str(),
        ) || str_starts_with(rec.parent_path.as_str(), prefix.as_str())) {
            total = total + rec.size_bytes as u128;
        }
        i = i + 1;
    }
    proof {
        assert(catalog@.subrange(0, catalog@.len() as int) =~= catalog@);
    }
    if total > max_pack_bytes as u128 {
        return Err(CoreError::TooLarge);
    }
    // Plan the entries, in catalog order.
    let mut entries: Vec<PackEntry> = Vec::new();
    let mut k: usize = 0;
    proof {
        assert(catalog@.subrange(0, 0) =~= Seq::<FileRecord>::empty());
        assert(entries@.map_values(|e: PackEntry| spec_entry_view(e)) =~= spec_pack_entries(
            catalog@.subrange(0, 0),
            tenant_id,
            folder_name@,
            folder_path@,
        ));
    }
    while k < catalog.records.len()
        invariant
            k <= catalog@.len(),
            folder_path@ == spec_path_join(parent_path@, folder_name@),
            folder_path_len == folder_path@.len(),
            prefix@ == folder_path@ + seq!['/'],
            entries@.map_values(|e: PackEntry| spec_entry_view(e)) == spec_pack_entries(
                catalog@.subrange(0, k as int),
                tenant_id,
                folder_name@,
                folder_path@,
            ),
        decreases catalog@.len() - k,
    {
        proof {
            assert(catalog@.subrange(0, k + 1 as int).drop_last() =~= catalog@.subrange(
                0,
                k as int,
            ));
            assert(catalog@.subrange(0, k + 1 as int).last() == catalog@[k as int]);
        }
        let rec = &catalog.records[k];
        let direct = str_eq(rec.parent_path.as_str(), folder_path.as_str());
        let nested = str_starts_with(rec.parent_path.as_str(), prefix.as_str());
        if rec.tenant_id == tenant_id && !rec.is_deleted && !rec.is_directory && (direct
            || nested) {
            let raw: String = if direct {
                path_join(folder_name, rec.name.as_str())
            } else {
                let pl = rec.parent_path.as_str().unicode_len();
                proof {
                    assert(rec.parent_path@.len() >= prefix@.len());
                    assert(folder_path_len + 1 <= pl);
                }
                let sub = str_suffix_from(rec.parent_path.as_str(), folder_path_len + 1);
                let under = path_join(folder_name, sub.as_str());
                path_join(under.as_str(), rec.name.as_str())
            };
            proof {
                assert(raw@ == spec_raw_entry(catalog@[k as int], folder_name@, folder_path@));
            }
            match sanitize_zip_path(raw.as_str()) {
                Option::Some(name) => {
                    let entry = PackEntry {
                        entry_name: name,
                        storage_key: rec.storage_key.clone(),
                        size_bytes: rec.size_bytes,
                    };
                    entries.push(entry);
                    proof {
                        assert(entries@.map_values(|e: PackEntry| spec_entry_view(e))
                            =~= spec_pack_entries(
                            catalog@.subrange(0, k + 1 as int),
                            tenant_id,
                            folder_name@,
                            folder_path@,
                        ));
                    }
                },
                Option::None => {
                    // An entry whose sanitized name is refused is skipped.
                },
            }
        }
        k = k + 1;
    }
    proof {
        assert(catalog@.subrange(0, catalog@.len() as int) =~= catalog@);
    }
    Ok(PackPlan { entries, total_bytes: total })
}

} // verus!
