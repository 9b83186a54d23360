//! Redaction of personally identifying text before it leaves the
//! platform, and chunking of long text for minimal context windows.

use vstd::prelude::*;
use crate::strutil::string_of;
use vstd::string::StrSliceExecFns;
use vstd::string::StringSliceAdditionalSpecFns;

verus! {

/// What replacing every match of a pattern in a text yields. It depends
/// on the three strings alone; an unparsable pattern leaves the text as
/// it was. No contract of this crate says what it is on given strings.
pub uninterp spec fn regex_replaced(
    pattern: Seq<char>,
    text: Seq<char>,
    replacement: Seq<char>,
) -> Seq<char>;

/// Relies on `Regex::replace_all`: replacement of every non-overlapping
/// match is a function of the pattern, the text and the replacement.
#[verifier::external_body]
fn regex_replace_all(pattern: &str, text: &str, replacement: &str) -> (r: String)
    ensures
        r@ == regex_replaced(pattern@, text@, replacement@),
{
    match regex::Regex::new(pattern) {
        Ok(re) => re.replace_all(text, replacement).into_owned(),
        Err(_) => text.to_owned(),
    }
}

/// The five passes of the redactor, most specific first: social security
/// numbers, card numbers, mail addresses, phone numbers, network
/// addresses.
pub open spec fn spec_redacted(text: Seq<char>) -> Seq<char> {
    let a = regex_replaced(
        "\\b\\d{3}[-\\s]?\\d{2}[-\\s]?\\d{4}\\b"@,
        text,
        "[REDACTED_SSN]"@,
    );
    let b = regex_replaced("\\b(?:\\d{4}[-\\s]?){3}\\d{4}\\b"@, a, "[REDACTED_CC]"@);
    let c = regex_replaced(
        "[a-zA-Z0-9._%+-]+@[a-zA-Z0-9.-]+\\.[a-zA-Z]{2,}"@,
        b,
        "[REDACTED_EMAIL]"@,
    );
    let d = regex_replaced(
        "(\\+?1[-.\\s]?)?(\\(?\\d{3}\\)?[-.\\s]?)?\\d{3}[-.\\s]?\\d{4}"@,
        c,
        "[REDACTED_PHONE]"@,
    );
    regex_replaced("\\b\\d{1,3}\\.\\d{1,3}\\.\\d{1,3}\\.\\d{1,3}\\b"@, d, "[REDACTED_IP]"@)
}

/// The redactor.
pub struct RedactionService;

impl RedactionService {
    /// Redacts the known identifying patterns from a text, most specific
    /// patterns first.
    pub fn redact(text: &str) -> (r: String)
        ensures
            r@ == spec_redacted(text@),
    {
        let a = regex_replace_all(
            "\\b\\d{3}[-\\s]?\\d{2}[-\\s]?\\d{4}\\b",
            text,
            "[REDACTED_SSN]",
        );
        let b = regex_replace_all("\\b(?:\\d{4}[-\\s]?){3}\\d{4}\\b", a.as_str(), "[REDACTED_CC]");
        let c = regex_replace_all(
            "[a-zA-Z0-9._%+-]+@[a-zA-Z0-9.-]+\\.[a-zA-Z]{2,}",
            b.as_str(),
            "[REDACTED_EMAIL]",
        );
        let d = regex_replace_all(
            "(\\+?1[-.\\s]?)?(\\(?\\d{3}\\)?[-.\\s]?)?\\d{3}[-.\\s]?\\d{4}",
            c.as_str(),
            "[REDACTED_PHONE]",
        );
        regex_replace_all(
            "\\b\\d{1,3}\\.\\d{1,3}\\.\\d{1,3}\\.\\d{1,3}\\b",
            d.as_str(),
            "[REDACTED_IP]",
        )
    }

    /// Splits a text into chunks of roughly `max_tokens` tokens, four
    /// characters to a token: short text passes through whole; longer
    /// text breaks at paragraphs, and over-long paragraphs at sentences.
    /// Chunks of a broken text are never blank and carry no blank edges.
    pub fn chunk_text(text: &str, max_tokens: usize) -> (r: Vec<String>)
        ensures
            text@.len() <= max_tokens * 4 ==> r@.len() == 1 && r@[0]@ == text@,
            text@.len() > max_tokens * 4 ==> forall|i: int|
                0 <= i < r@.len() ==> spec_trimmed_chunk((#[trigger] r@[i])@),
    {
        let chars = crate::strutil::chars_of(text);
        let max_chars: usize = if max_tokens > usize::MAX / 4 {
            usize::MAX
        } else {
            max_tokens * 4
        };
        if chars.len() <= max_chars {
            let mut out: Vec<String> = Vec::new();
            out.push(text.to_owned());
            return out;
        }
        let paragraphs = split_on_pair(&chars, '\n', '\n');
        let mut chunks: Vec<String> = Vec::new();
        let mut cur: Vec<char> = Vec::new();
        let mut p: usize = 0;
        while p < paragraphs.len()
            invariant
                forall|i: int|
                    0 <= i < chunks@.len() ==> spec_trimmed_chunk((#[trigger] chunks@[i])@),
            decreases paragraphs@.len() - p,
        {
            let para = &paragraphs[p];
            if cur.len() as u128 + para.len() as u128 + 2 > max_chars as u128 {
                flush_chunk(&mut chunks, &mut cur);
                if para.len() > max_chars {
                    let sentences = split_on_pair(para, '.', ' ');
                    let mut s: usize = 0;
                    while s < sentences.len()
                        invariant
                            forall|i: int|
                                0 <= i < chunks@.len() ==> spec_trimmed_chunk(
                                    (#[trigger] chunks@[i])@,
                                ),
                        decreases sentences@.len() - s,
                    {
                        let sent = &sentences[s];
                        if cur.len() as u128 + sent.len() as u128 + 2 > max_chars as u128 {
                            flush_chunk(&mut chunks, &mut cur);
                        }
                        crate::health::push_all(&mut cur, sent);
                        cur.push('.');
                        cur.push(' ');
                        s = s + 1;
                    }
                } else {
                    crate::health::push_all(&mut cur, para);
                    cur.push('\n');
                    cur.push('\n');
                }
            } else {
                crate::health::push_all(&mut cur, para);
                cur.push('\n');
                cur.push('\n');
            }
            p = p + 1;
        }
        flush_chunk(&mut chunks, &mut cur);
        chunks
    }

    /// The digest a chunk is remembered by for change detection: the
    /// standard 256-bit digest, printed as lowercase hex.
    pub fn hash_chunk(text: &str) -> (r: String)
        ensures
            r@ == spec_hex_lower(sha256_of(text.spec_bytes())),
    {
        let digest = sha256_digest(text);
        let hexed = hex_lower(&digest);
        string_of(&hexed)
    }
}

/// A blank character at a chunk's edge.
pub open spec fn spec_chunk_blank(c: char) -> bool {
    c == ' ' || c == '\t' || c == '\n' || c == '\r'
}

/// A chunk as handed out: non-empty, with no blank edge.
pub open spec fn spec_trimmed_chunk(s: Seq<char>) -> bool {
    s.len() > 0 && !spec_chunk_blank(s[0]) && !spec_chunk_blank(s.last())
}

/// Splits on a two-character separator; the separator itself is dropped.
fn split_on_pair(chars: &Vec<char>, a: char, b: char) -> (r: Vec<Vec<char>>) {
    let mut out: Vec<Vec<char>> = Vec::new();
    let mut cur: Vec<char> = Vec::new();
    let mut i: usize = 0;
    while i < chars.len()
        invariant
            i <= chars@.len(),
        decreases chars@.len() - i,
    {
        if i + 1 < chars.len() && chars[i] == a && chars[i + 1] == b {
            out.push(cur);
            cur = Vec::new();
            i = i + 2;
        } else {
            cur.push(chars[i]);
            i = i + 1;
        }
    }
    out.push(cur);
    out
}

/// Pushes the current chunk, trimmed, when anything visible remains in
/// it, and clears it either way.
fn flush_chunk(chunks: &mut Vec<String>, cur: &mut Vec<char>)
    requires
        forall|i: int|
            0 <= i < old(chunks)@.len() ==> spec_trimmed_chunk((#[trigger] old(chunks)@[i])@),
    ensures
        forall|i: int|
            0 <= i < final(chunks)@.len() ==> spec_trimmed_chunk(
                (#[trigger] final(chunks)@[i])@,
            ),
        final(cur)@.len() == 0,
{
    let n = cur.len();
    let mut start: usize = 0;
    while start < n && (cur[start] == ' ' || cur[start] == '\t' || cur[start] == '\n' || cur[start]
        == '\r')
        invariant
            start <= n,
            n == cur@.len(),
        decreases n - start,
    {
        start = start + 1;
    }
    let mut end: usize = n;
    while end > start && (cur[end - 1] == ' ' || cur[end - 1] == '\t' || cur[end - 1] == '\n'
        || cur[end - 1] == '\r')
        invariant
            start <= end <= n,
            n == cur@.len(),
        decreases end,
    {
        end = end - 1;
    }
    if end > start {
        let mut trimmed: Vec<char> = Vec::new();
        let mut k: usize = start;
        while k < end
            invariant
                start <= k <= end <= cur@.len(),
                trimmed@ == cur@.subrange(start as int, k as int),
            decreases end - k,
        {
            trimmed.push(cur[k]);
            assert(trimmed@ =~= cur@.subrange(start as int, k + 1 as int));
            k = k + 1;
        }
        let s = string_of(&trimmed);
        proof {
            assert(s@.len() > 0);
            assert(s@[0] == cur@[start as int]);
            assert(s@.last() == cur@[end - 1]);
        }
        let ghost pre = chunks@;
        chunks.push(s);
        proof {
            assert forall|i: int|
                0 <= i < chunks@.len() implies spec_trimmed_chunk(
                (#[trigger] chunks@[i])@,
            ) by {
                if i < pre.len() {
                    assert(chunks@[i] == pre[i]);
                }
            }
        }
    }
    cur.clear();
}

/// The 256-bit digest of a byte string. It depends on the bytes alone;
/// no contract of this crate says what it is on given bytes.
pub uninterp spec fn sha256_of(data: Seq<u8>) -> Seq<u8>;

/// Relies on `Sha256::digest`: the digest is a function of the input
/// bytes alone and is thirty-two bytes long.
#[verifier::external_body]
fn sha256_digest(text: &str) -> (r: Vec<u8>)
    ensures
        r@ == sha256_of(text.spec_bytes()),
        r@.len() == 32,
{
    <sha2::Sha256 as sha2::Digest>::digest(text.as_bytes()).to_vec()
}

pub open spec fn spec_hex_lower_digit(d: u8) -> char {
    if d < 10 {
        ((48 + d) as u8) as char
    } else {
        ((87 + d) as u8) as char
    }
}

/// Lowercase hex of a byte string: two digits per byte, high digit
/// first.
pub open spec fn spec_hex_lower(bs: Seq<u8>) -> Seq<char>
    decreases bs.len(),
{
    if bs.len() == 0 {
        Seq::empty()
    } else {
        spec_hex_lower(bs.drop_last()) + seq![
            spec_hex_lower_digit(bs.last() / 16),
            spec_hex_lower_digit(bs.last() % 16),
        ]
    }
}

/// Renders bytes as lowercase hex.
pub fn hex_lower(bs: &Vec<u8>) -> (r: Vec<char>)
    ensures
        r@ == spec_hex_lower(bs@),
{
    let mut out: Vec<char> = Vec::new();
    let mut i: usize = 0;
    proof {
        assert(bs@.take(0) =~= Seq::<u8>::empty());
        assert(out@ =~= spec_hex_lower(bs@.take(0)));
    }
    while i < bs.len()
        invariant
            i <= bs@.len(),
            out@ == spec_hex_lower(bs@.take(i as int)),
        decreases bs@.len() - i,
    {
        proof {
            assert(bs@.take(i + 1 as int).drop_last() =~= bs@.take(i as int));
            assert(bs@.take(i + 1 as int).last() == bs@[i as int]);
        }
        let b = bs[i];
        let hi = b / 16;
        let lo = b % 16;
        out.push(
            if hi < 10 {
                (48 + hi) as char
            } else {
                (87 + hi) as char
            },
        );
        out.push(
            if lo < 10 {
                (48 + lo) as char
            } else {
                (87 + lo) as char
            },
        );
        proof {
            assert(out@ =~= spec_hex_lower(bs@.take(i + 1 as int)));
        }
        i = i + 1;
    }
    proof {
        assert(bs@.take(bs@.len() as int) =~= bs@);
    }
    out
}

} // verus!
