//! Character-level string helpers shared by the catalog, the key derivation
//! and the header sanitizers.

use vstd::prelude::*;
use vstd::string::StrSliceExecFns;

verus! {

/// The characters of `s`, one vector element per character.
pub fn chars_of(s: &str) -> (v: Vec<char>)
    ensures
        v@ == s@,
{
    let n = s.unicode_len();
    let mut v: Vec<char> = Vec::new();
    let mut i: usize = 0;
    while i < n
        invariant
            i <= n,
            n == s@.len(),
            v@ == s@.subrange(0, i as int),
        decreases n - i,
    {
        v.push(s.get_char(i));
        assert(v@ =~= s@.subrange(0, i + 1 as int));
        i = i + 1;
    }
    proof {
        assert(v@ =~= s@);
    }
    v
}

/// Builds the string whose characters are exactly `v`.
///
/// Relies on `String: FromIterator<char>`: collecting characters yields the
/// string of those characters in order.
#[verifier::external_body]
pub fn string_of(v: &Vec<char>) -> (s: String)
    ensures
        s@ == v@,
{
    v.iter().collect()
}

/// Character-for-character equality of two string slices.
pub fn str_eq(a: &str, b: &str) -> (r: bool)
    ensures
        r == (a@ == b@),
{
    let na = a.unicode_len();
    let nb = b.unicode_len();
    if na != nb {
        proof {
            assert(a@ != b@) by {
                if a@ == b@ {
                    assert(a@.len() == b@.len());
                }
            }
        }
        return false;
    }
    let mut i: usize = 0;
    while i < na
        invariant
            i <= na,
            na == a@.len(),
            na == b@.len(),
            forall|j: int| 0 <= j < i ==> a@[j] == b@[j],
        decreases na - i,
    {
        if a.get_char(i) != b.get_char(i) {
            proof {
                assert(a@ != b@) by {
                    if a@ == b@ {
                        assert(a@[i as int] == b@[i as int]);
                    }
                }
            }
            return false;
        }
        i = i + 1;
    }
    proof {
        assert(a@ =~= b@);
    }
    true
}

/// `s` begins with the prefix `p`.
pub open spec fn seq_starts_with(s: Seq<char>, p: Seq<char>) -> bool {
    s.len() >= p.len() && s.subrange(0, p.len() as int) == p
}

/// `s` ends with the suffix `p`.
pub open spec fn seq_ends_with(s: Seq<char>, p: Seq<char>) -> bool {
    s.len() >= p.len() && s.subrange(s.len() - p.len(), s.len() as int) == p
}

pub fn str_starts_with(s: &str, p: &str) -> (r: bool)
    ensures
        r == seq_starts_with(s@, p@),
{
    let ns = s.unicode_len();
    let np = p.unicode_len();
    if ns < np {
        return false;
    }
    let mut i: usize = 0;
    while i < np
        invariant
            i <= np,
            ns == s@.len(),
            np == p@.len(),
            np <= ns,
            forall|j: int| 0 <= j < i ==> s@[j] == p@[j],
        decreases np - i,
    {
        if s.get_char(i) != p.get_char(i) {
            proof {
                assert(!seq_starts_with(s@, p@)) by {
                    if seq_starts_with(s@, p@) {
                        assert(s@.subrange(0, p@.len() as int)[i as int] == p@[i as int]);
                    }
                }
            }
            return false;
        }
        i = i + 1;
    }
    proof {
        assert(s@.subrange(0, p@.len() as int) =~= p@);
    }
    true
}

pub fn str_ends_with(s: &str, p: &str) -> (r: bool)
    ensures
        r == seq_ends_with(s@, p@),
{
    let ns = s.unicode_len();
    let np = p.unicode_len();
    if ns < np {
        return false;
    }
    let off = ns - np;
    let mut i: usize = 0;
    while i < np
        invariant
            i <= np,
            ns == s@.len(),
            np == p@.len(),
            np <= ns,
            off == ns - np,
            forall|j: int| 0 <= j < i ==> s@[off + j] == p@[j],
        decreases np - i,
    {
        if s.get_char(off + i) != p.get_char(i) {
            proof {
                assert(!seq_ends_with(s@, p@)) by {
                    if seq_ends_with(s@, p@) {
                        assert(s@.subrange(s@.len() - p@.len(), s@.len() as int)[i as int]
                            == p@[i as int]);
                    }
                }
            }
            return false;
        }
        i = i + 1;
    }
    proof {
        assert(s@.subrange(s@.len() - p@.len(), s@.len() as int) =~= p@);
    }
    true
}

/// A path joined under a parent: the parent, a slash, then the name; a name
/// alone when the parent is the root (empty).
pub open spec fn spec_path_join(parent: Seq<char>, name: Seq<char>) -> Seq<char> {
    if parent.len() == 0 {
        name
    } else {
        parent + seq!['/'] + name
    }
}

pub fn path_join(parent: &str, name: &str) -> (r: String)
    ensures
        r@ == spec_path_join(parent@, name@),
{
    proof {
        reveal_strlit("/");
    }
    if parent.is_empty() {
        name.to_owned()
    } else {
        let mut s = parent.to_owned();
        s.append("/");
        s.append(name);
        proof {
            assert(s@ =~= parent@ + seq!['/'] + name@);
        }
        s
    }
}

/// The characters of `s` from position `from` (in characters) to its end.
pub fn str_suffix_from(s: &str, from: usize) -> (r: String)
    requires
        from <= s@.len(),
    ensures
        r@ == s@.subrange(from as int, s@.len() as int),
{
    let n = s.unicode_len();
    let sub = s.substring_char(from, n);
    sub.to_owned()
}

pub open spec fn spec_dec_digit(d: nat) -> char {
    ((48 + d) as u8) as char
}

/// Decimal digits of `n`, most significant first.
pub open spec fn spec_dec(n: nat) -> Seq<char>
    decreases n,
{
    if n < 10 {
        seq![spec_dec_digit(n)]
    } else {
        spec_dec(n / 10).push(spec_dec_digit(n % 10))
    }
}

fn dec_digit(d: u8) -> (c: char)
    requires
        d < 10,
    ensures
        c == spec_dec_digit(d as nat),
{
    (48 + d) as char
}

/// Decimal rendering of an unsigned number, as characters.
pub fn u64_dec_chars(n: u64) -> (v: Vec<char>)
    ensures
        v@ == spec_dec(n as nat),
    decreases n,
{
    if n < 10 {
        let mut v: Vec<char> = Vec::new();
        v.push(dec_digit(n as u8));
        proof {
            assert(v@ =~= spec_dec(n as nat));
        }
        v
    } else {
        let mut v = u64_dec_chars(n / 10);
        v.push(dec_digit((n % 10) as u8));
        v
    }
}

/// Decimal rendering of an unsigned number, as a string.
pub fn u64_dec(n: u64) -> (s: String)
    ensures
        s@ == spec_dec(n as nat),
{
    let v = u64_dec_chars(n);
    string_of(&v)
}

/// ASCII lowercase of one character; other characters are unchanged.
pub open spec fn spec_lower_char(c: char) -> char {
    if 'A' <= c && c <= 'Z' {
        ((c as u8) + 32) as char
    } else {
        c
    }
}

/// ASCII lowercase, character by character.
pub open spec fn spec_lower(s: Seq<char>) -> Seq<char> {
    s.map_values(|c: char| spec_lower_char(c))
}

fn lower_char(c: char) -> (r: char)
    ensures
        r == spec_lower_char(c),
{
    if c >= 'A' && c <= 'Z' {
        ((c as u8) + 32) as char
    } else {
        c
    }
}

pub fn lower_chars(v: &Vec<char>) -> (r: Vec<char>)
    ensures
        r@ == spec_lower(v@),
{
    let mut r: Vec<char> = Vec::new();
    let mut i: usize = 0;
    while i < v.len()
        invariant
            i <= v@.len(),
            r@ == spec_lower(v@.subrange(0, i as int)),
        decreases v@.len() - i,
    {
        r.push(lower_char(v[i]));
        assert(r@ =~= spec_lower(v@.subrange(0, i + 1 as int)));
        i = i + 1;
    }
    proof {
        assert(v@.subrange(0, v@.len() as int) =~= v@);
    }
    r
}

/// `sub` occurs somewhere inside `s`.
pub open spec fn seq_contains_sub(s: Seq<char>, sub: Seq<char>) -> bool {
    exists|k: int| 0 <= k && k + sub.len() <= s.len() && #[trigger] s.subrange(k, k + sub.len()) == sub
}

/// Whether the needle occurs inside the haystack.
pub fn chars_contain_sub(hay: &Vec<char>, needle: &Vec<char>) -> (r: bool)
    ensures
        r == seq_contains_sub(hay@, needle@),
{
    if needle.len() > hay.len() {
        proof {
            if seq_contains_sub(hay@, needle@) {
                let k = choose|k: int|
                    0 <= k && k + needle@.len() <= hay@.len() && #[trigger] hay@.subrange(
                        k,
                        k + needle@.len(),
                    ) == needle@;
                assert(needle@.len() <= hay@.len());
            }
        }
        return false;
    }
    let mut k: usize = 0;
    while k <= hay.len() - needle.len()
        invariant
            needle@.len() <= hay@.len(),
            k <= hay@.len() - needle@.len() + 1,
            forall|x: int|
                0 <= x < k ==> #[trigger] hay@.subrange(x, x + needle@.len()) != needle@,
        decreases hay@.len() - needle@.len() + 1 - k,
    {
        let mut m: usize = 0;
        let mut matched = true;
        while m < needle.len()
            invariant
                needle@.len() <= hay@.len(),
                hay@.len() <= usize::MAX,
                k + needle@.len() <= hay@.len(),
                m <= needle@.len(),
                matched == (forall|y: int| 0 <= y < m ==> hay@[k + y] == needle@[y]),
            decreases needle@.len() - m,
        {
            if hay[k + m] != needle[m] {
                proof {
                    assert(hay@[k + m] != needle@[m as int]);
                }
                matched = false;
            }
            m = m + 1;
        }
        if matched {
            proof {
                assert(hay@.subrange(k as int, k + needle@.len()) =~= needle@);
            }
            return true;
        }
        proof {
            assert(hay@.subrange(k as int, k + needle@.len()) != needle@) by {
                if hay@.subrange(k as int, k + needle@.len()) == needle@ {
                    let w = choose|w: int|
                        0 <= w < needle@.len() && hay@[k + w] != needle@[w];
                    assert(hay@.subrange(k as int, k + needle@.len())[w] == hay@[k + w]);
                }
            }
        }
        k = k + 1;
    }
    proof {
        if seq_contains_sub(hay@, needle@) {
            let w = choose|w: int|
                0 <= w && w + needle@.len() <= hay@.len() && #[trigger] hay@.subrange(
                    w,
                    w + needle@.len(),
                ) == needle@;
            assert(hay@.subrange(w, w + needle@.len()) != needle@);
        }
    }
    false
}

/// Two sequences with a common prefix stay distinct after the prefix is
/// replaced: appending a fixed head to distinct tails gives distinct wholes.
pub proof fn lemma_append_injective(head: Seq<char>, a: Seq<char>, b: Seq<char>)
    ensures
        (head + a == head + b) ==> a == b,
{
    if head + a == head + b {
        assert(a =~= (head + a).subrange(head.len() as int, (head + a).len() as int));
        assert(b =~= (head + b).subrange(head.len() as int, (head + b).len() as int));
        assert((head + a).len() == (head + b).len());
    }
}

} // verus!
