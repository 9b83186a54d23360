//! Text formatting and header sanitation: display names safe for
//! transport headers, media types from extensions, and human-readable
//! sizes, uptimes and audit labels.

use vstd::prelude::*;
use crate::strutil::{
    chars_of, lower_chars, seq_ends_with, spec_dec, spec_lower, str_ends_with, str_eq,
    string_of, u64_dec_chars,
};
use crate::health::push_all;

verus! {

/// A control character: the C0 range, delete, and the C1 range.
pub open spec fn spec_is_control(c: char) -> bool {
    (c as u32) < 0x20 || (0x7f <= (c as u32) && (c as u32) <= 0x9f)
}

/// Path and reserved characters a display name may not carry into a
/// header; each is replaced by an underscore.
pub open spec fn spec_reserved(c: char) -> bool {
    c == '/' || c == '\\' || c == ':' || c == '*' || c == '?' || c == '"' || c == '<' || c == '>'
        || c == '|'
}

pub open spec fn spec_mapped(c: char) -> char {
    if spec_reserved(c) {
        '_'
    } else {
        c
    }
}

/// The sanitized body before trimming: control characters dropped,
/// reserved characters replaced.
pub open spec fn spec_sf_core(s: Seq<char>) -> Seq<char>
    decreases s.len(),
{
    if s.len() == 0 {
        Seq::empty()
    } else {
        spec_sf_core(s.drop_last()) + (if spec_is_control(s.last()) {
            Seq::empty()
        } else {
            seq![spec_mapped(s.last())]
        })
    }
}

pub open spec fn spec_is_trim(c: char) -> bool {
    c == ' ' || c == '\t'
}

pub open spec fn spec_trim_front(s: Seq<char>) -> Seq<char>
    decreases s.len(),
{
    if s.len() > 0 && spec_is_trim(s[0]) {
        spec_trim_front(s.drop_first())
    } else {
        s
    }
}

pub open spec fn spec_trim_back(s: Seq<char>) -> Seq<char>
    decreases s.len(),
{
    if s.len() > 0 && spec_is_trim(s.last()) {
        spec_trim_back(s.drop_last())
    } else {
        s
    }
}

/// A display name made safe: control characters removed, path and
/// reserved characters replaced by underscores, blank edges trimmed.
pub open spec fn spec_sanitize_filename(s: Seq<char>) -> Seq<char> {
    spec_trim_back(spec_trim_front(spec_sf_core(s)))
}

fn is_control_char(c: char) -> (r: bool)
    ensures
        r == spec_is_control(c),
{
    let u = c as u32;
    u < 0x20 || (0x7f <= u && u <= 0x9f)
}

fn mapped_char(c: char) -> (r: char)
    ensures
        r == spec_mapped(c),
{
    if c == '/' || c == '\\' || c == ':' || c == '*' || c == '?' || c == '"' || c == '<' || c
        == '>' || c == '|' {
        '_'
    } else {
        c
    }
}

/// Sanitizes a display name for use in a transport header.
pub fn sanitize_filename(filename: &str) -> (r: String)
    ensures
        r@ == spec_sanitize_filename(filename@),
{
    let chars = chars_of(filename);
    let mut core: Vec<char> = Vec::new();
    let mut i: usize = 0;
    proof {
        assert(chars@.take(0) =~= Seq::<char>::empty());
        assert(core@ =~= spec_sf_core(chars@.take(0)));
    }
    while i < chars.len()
        invariant
            i <= chars@.len(),
            core@ == spec_sf_core(chars@.take(i as int)),
        decreases chars@.len() - i,
    {
        proof {
            assert(chars@.take(i + 1 as int).drop_last() =~= chars@.take(i as int));
            assert(chars@.take(i + 1 as int).last() == chars@[i as int]);
        }
        let c = chars[i];
        if !is_control_char(c) {
            core.push(mapped_char(c));
            proof {
                assert(core@ =~= spec_sf_core(chars@.take(i + 1 as int)));
            }
        }
        i = i + 1;
    }
    proof {
        assert(chars@.take(chars@.len() as int) =~= chars@);
    }
    // Trim blank edges.
    let n = core.len();
    let mut start: usize = 0;
    proof {
        assert(core@.skip(0) =~= core@);
    }
    while start < n && (core[start] == ' ' || core[start] == '\t')
        invariant
            start <= n,
            n == core@.len(),
            spec_trim_front(core@) == spec_trim_front(core@.skip(start as int)),
        decreases n - start,
    {
        proof {
            assert(core@.skip(start as int).drop_first() =~= core@.skip(start + 1 as int));
        }
        start = start + 1;
    }
    let mut end: usize = n;
    proof {
        if start < n {
            assert(spec_trim_front(core@.skip(start as int)) == core@.skip(start as int));
        } else {
            assert(core@.skip(start as int) =~= Seq::<char>::empty());
        }
    }
    while end > start && (core[end - 1] == ' ' || core[end - 1] == '\t')
        invariant
            start <= end <= n,
            n == core@.len(),
            spec_trim_front(core@) == core@.skip(start as int),
            spec_trim_back(core@.skip(start as int)) == spec_trim_back(
                core@.subrange(start as int, end as int),
            ),
        decreases end,
    {
        proof {
            assert(core@.subrange(start as int, end as int).drop_last() =~= core@.subrange(
                start as int,
                end - 1 as int,
            ));
        }
        end = end - 1;
    }
    proof {
        if end > start {
            assert(spec_trim_back(core@.subrange(start as int, end as int)) =~= core@.subrange(
                start as int,
                end as int,
            ));
        } else {
            assert(core@.subrange(start as int, end as int) =~= Seq::<char>::empty());
        }
    }
    let mut out: Vec<char> = Vec::new();
    let mut k: usize = start;
    while k < end
        invariant
            start <= k <= end <= core@.len(),
            out@ == core@.subrange(start as int, k as int),
        decreases end - k,
    {
        out.push(core[k]);
        assert(out@ =~= core@.subrange(start as int, k + 1 as int));
        k = k + 1;
    }
    proof {
        assert(out@ =~= spec_sanitize_filename(filename@));
    }
    string_of(&out)
}

/// The bytes a character takes in the standard eight-bit text encoding.
pub open spec fn spec_utf8_bytes(c: char) -> Seq<u8> {
    let u = c as u32;
    if u < 0x80 {
        seq![u as u8]
    } else if u < 0x800 {
        seq![(0xc0 + u / 64) as u8, (0x80 + u % 64) as u8]
    } else if u < 0x10000 {
        seq![(0xe0 + u / 4096) as u8, (0x80 + (u / 64) % 64) as u8, (0x80 + u % 64) as u8]
    } else {
        seq![
            (0xf0 + u / 262144) as u8,
            (0x80 + (u / 4096) % 64) as u8,
            (0x80 + (u / 64) % 64) as u8,
            (0x80 + u % 64) as u8,
        ]
    }
}

fn utf8_bytes(c: char) -> (r: Vec<u8>)
    ensures
        r@ == spec_utf8_bytes(c),
{
    let u = c as u32;
    let mut v: Vec<u8> = Vec::new();
    if u < 0x80 {
        v.push(u as u8);
    } else if u < 0x800 {
        v.push((0xc0 + u / 64) as u8);
        v.push((0x80 + u % 64) as u8);
    } else if u < 0x10000 {
        v.push((0xe0 + u / 4096) as u8);
        v.push((0x80 + (u / 64) % 64) as u8);
        v.push((0x80 + u % 64) as u8);
    } else {
        proof {
            assert(u < 0x110000);
        }
        v.push((0xf0 + u / 262144) as u8);
        v.push((0x80 + (u / 4096) % 64) as u8);
        v.push((0x80 + (u / 64) % 64) as u8);
        v.push((0x80 + u % 64) as u8);
    }
    proof {
        assert(v@ =~= spec_utf8_bytes(c));
    }
    v
}

pub open spec fn spec_hex_digit(d: u8) -> char {
    if d < 10 {
        ((48 + d) as u8) as char
    } else {
        ((55 + d) as u8) as char
    }
}

fn hex_digit(d: u8) -> (r: char)
    requires
        d < 16,
    ensures
        r == spec_hex_digit(d),
{
    if d < 10 {
        (48 + d) as char
    } else {
        (55 + d) as char
    }
}

/// A character the fifth header encoding keeps bare: letters, digits,
/// and four marks.
pub open spec fn spec_pct_bare(c: char) -> bool {
    ('a' <= c && c <= 'z') || ('A' <= c && c <= 'Z') || ('0' <= c && c <= '9') || c == '-' || c
        == '_' || c == '.' || c == '~'
}

/// One character under percent-encoding: bare, or each of its bytes as a
/// percent escape with two uppercase hex digits.
pub open spec fn spec_pct_char(c: char) -> Seq<char>
    decreases 1int,
{
    if spec_pct_bare(c) {
        seq![c]
    } else {
        spec_pct_bytes(spec_utf8_bytes(c))
    }
}

pub open spec fn spec_pct_bytes(bs: Seq<u8>) -> Seq<char>
    decreases bs.len(),
{
    if bs.len() == 0 {
        Seq::empty()
    } else {
        spec_pct_bytes(bs.drop_last()) + seq![
            '%',
            spec_hex_digit(bs.last() / 16),
            spec_hex_digit(bs.last() % 16),
        ]
    }
}

pub open spec fn spec_pct(s: Seq<char>) -> Seq<char>
    decreases s.len(),
{
    if s.len() == 0 {
        Seq::empty()
    } else {
        spec_pct(s.drop_last()) + spec_pct_char(s.last())
    }
}

/// A character kept in the plain fallback name: letters, digits, dash,
/// underscore, dot.
pub open spec fn spec_fb_keep(c: char) -> bool {
    ('a' <= c && c <= 'z') || ('A' <= c && c <= 'Z') || ('0' <= c && c <= '9') || c == '-' || c
        == '_' || c == '.'
}

pub open spec fn spec_fb(s: Seq<char>) -> Seq<char>
    decreases s.len(),
{
    if s.len() == 0 {
        Seq::empty()
    } else {
        spec_fb(s.drop_last()) + (if spec_fb_keep(s.last()) {
            seq![s.last()]
        } else {
            Seq::empty()
        })
    }
}

/// How the response offers the bytes: shown in place, or saved.
#[derive(Clone, Copy, PartialEq, Eq, Structural, Debug)]
pub enum DispositionKind {
    Inline,
    Attachment,
}

pub open spec fn spec_disposition_word(k: DispositionKind) -> Seq<char> {
    match k {
        DispositionKind::Inline => "inline"@,
        DispositionKind::Attachment => "attachment"@,
    }
}

pub open spec fn spec_all_plain_ascii(s: Seq<char>) -> bool {
    forall|i: int| 0 <= i < s.len() ==> ((#[trigger] s[i]) as u32) < 0x80
}

/// The full header value for a download or preview of `filename`: the
/// disposition word and a sanitized name. A name that is plain seven-bit
/// text goes in quoted; any other name gets a plain fallback beside its
/// exact percent-encoded form; an empty name falls back to a fixed word.
pub open spec fn spec_content_disposition(filename: Seq<char>, k: DispositionKind) -> Seq<char> {
    let s = spec_sanitize_filename(filename);
    if s.len() > 0 && spec_all_plain_ascii(s) {
        spec_disposition_word(k) + "; filename=\""@ + s + "\""@
    } else if s.len() > 0 {
        let fb = if spec_fb(s).len() == 0 {
            "download"@
        } else {
            spec_fb(s)
        };
        spec_disposition_word(k) + "; filename=\""@ + fb + "\"; filename*=UTF-8''"@ + spec_pct(s)
    } else {
        spec_disposition_word(k) + "; filename=\"download\""@
    }
}

/// Builds a transport-safe content-disposition header value: header
/// injection cannot survive the sanitizer, and names beyond plain
/// seven-bit text travel percent-encoded.
pub fn sanitize_content_disposition(filename: &str, kind: DispositionKind) -> (r: String)
    ensures
        r@ == spec_content_disposition(filename@, kind),
{
    let sanitized = sanitize_filename(filename);
    let schars = chars_of(sanitized.as_str());
    let mut ascii = true;
    let mut i: usize = 0;
    while i < schars.len()
        invariant
            i <= schars@.len(),
            ascii == (forall|j: int| 0 <= j < i ==> ((#[trigger] schars@[j]) as u32) < 0x80),
        decreases schars@.len() - i,
    {
        if (schars[i] as u32) >= 0x80 {
            ascii = false;
        }
        i = i + 1;
    }
    proof {
        assert(ascii == spec_all_plain_ascii(schars@));
    }
    let mut out: Vec<char> = Vec::new();
    let word: &str = match kind {
        DispositionKind::Inline => "inline",
        DispositionKind::Attachment => "attachment",
    };
    push_all(&mut out, &chars_of(word));
    if schars.len() > 0 && ascii {
        push_all(&mut out, &chars_of("; filename=\""));
        push_all(&mut out, &schars);
        push_all(&mut out, &chars_of("\""));
        proof {
            assert(out@ =~= spec_content_disposition(filename@, kind));
        }
    } else if schars.len() > 0 {
        // The plain fallback.
        let mut fb: Vec<char> = Vec::new();
        let mut a: usize = 0;
        proof {
            assert(schars@.take(0) =~= Seq::<char>::empty());
            assert(fb@ =~= spec_fb(schars@.take(0)));
        }
        while a < schars.len()
            invariant
                a <= schars@.len(),
                fb@ == spec_fb(schars@.take(a as int)),
            decreases schars@.len() - a,
        {
            proof {
                assert(schars@.take(a + 1 as int).drop_last() =~= schars@.take(a as int));
                assert(schars@.take(a + 1 as int).last() == schars@[a as int]);
            }
            let c = schars[a];
            if ('a' <= c && c <= 'z') || ('A' <= c && c <= 'Z') || ('0' <= c && c <= '9') || c
                == '-' || c == '_' || c == '.' {
                fb.push(c);
                proof {
                    assert(fb@ =~= spec_fb(schars@.take(a + 1 as int)));
                }
            }
            a = a + 1;
        }
        proof {
            assert(schars@.take(schars@.len() as int) =~= schars@);
        }
        // The exact percent-encoded form.
        let mut pct: Vec<char> = Vec::new();
        let mut b: usize = 0;
        proof {
            assert(pct@ =~= spec_pct(schars@.take(0)));
        }
        while b < schars.len()
            invariant
                b <= schars@.len(),
                pct@ == spec_pct(schars@.take(b as int)),
            decreases schars@.len() - b,
        {
            proof {
                assert(schars@.take(b + 1 as int).drop_last() =~= schars@.take(b as int));
                assert(schars@.take(b + 1 as int).last() == schars@[b as int]);
            }
            let c = schars[b];
            if ('a' <= c && c <= 'z') || ('A' <= c && c <= 'Z') || ('0' <= c && c <= '9') || c
                == '-' || c == '_' || c == '.' || c == '~' {
                pct.push(c);
            } else {
                let bytes = utf8_bytes(c);
                let mut y: usize = 0;
                let ghost base = pct@;
                while y < bytes.len()
                    invariant
                        y <= bytes@.len(),
                        pct@ == base + spec_pct_bytes(bytes@.take(y as int)),
                    decreases bytes@.len() - y,
                {
                    proof {
                        assert(bytes@.take(y + 1 as int).drop_last() =~= bytes@.take(y as int));
                        assert(bytes@.take(y + 1 as int).last() == bytes@[y as int]);
                    }
                    let by = bytes[y];
                    pct.push('%');
                    pct.push(hex_digit(by / 16));
                    pct.push(hex_digit(by % 16));
                    proof {
                        assert(pct@ =~= base + spec_pct_bytes(bytes@.take(y + 1 as int)));
                    }
                    y = y + 1;
                }
                proof {
                    assert(bytes@.take(bytes@.len() as int) =~= bytes@);
                    assert(pct@ =~= base + spec_pct_char(schars@[b as int]));
                }
            }
            proof {
                assert(pct@ =~= spec_pct(schars@.take(b + 1 as int)));
            }
            b = b + 1;
        }
        proof {
            assert(schars@.take(schars@.len() as int) =~= schars@);
        }
        push_all(&mut out, &chars_of("; filename=\""));
        if fb.len() == 0 {
            push_all(&mut out, &chars_of("download"));
        } else {
            push_all(&mut out, &fb);
        }
        push_all(&mut out, &chars_of("\"; filename*=UTF-8''"));
        push_all(&mut out, &pct);
        proof {
            assert(out@ =~= spec_content_disposition(filename@, kind));
        }
    } else {
        push_all(&mut out, &chars_of("; filename=\"download\""));
        proof {
            assert(out@ =~= spec_content_disposition(filename@, kind));
        }
    }
    string_of(&out)
}

/// The media type a display name's extension maps to, compared without
/// regard to ASCII case; anything unknown is an opaque byte stream.
pub open spec fn spec_content_type(name: Seq<char>) -> Seq<char> {
    let low = spec_lower(name);
    if seq_ends_with(low, ".pdf"@) {
        "application/pdf"@
    } else if seq_ends_with(low, ".png"@) {
        "image/png"@
    } else if seq_ends_with(low, ".jpg"@) {
        "image/jpeg"@
    } else if seq_ends_with(low, ".jpeg"@) {
        "image/jpeg"@
    } else if seq_ends_with(low, ".gif"@) {
        "image/gif"@
    } else if seq_ends_with(low, ".webp"@) {
        "image/webp"@
    } else if seq_ends_with(low, ".svg"@) {
        "image/svg+xml"@
    } else if seq_ends_with(low, ".mp4"@) {
        "video/mp4"@
    } else if seq_ends_with(low, ".mov"@) {
        "video/quicktime"@
    } else if seq_ends_with(low, ".webm"@) {
        "video/webm"@
    } else if seq_ends_with(low, ".avi"@) {
        "video/x-msvideo"@
    } else if seq_ends_with(low, ".mkv"@) {
        "video/x-matroska"@
    } else if seq_ends_with(low, ".m4v"@) {
        "video/x-m4v"@
    } else if seq_ends_with(low, ".mp3"@) {
        "audio/mpeg"@
    } else if seq_ends_with(low, ".wav"@) {
        "audio/wav"@
    } else if seq_ends_with(low, ".ogg"@) {
        "audio/ogg"@
    } else if seq_ends_with(low, ".m4a"@) {
        "audio/mp4"@
    } else if seq_ends_with(low, ".flac"@) {
        "audio/flac"@
    } else if seq_ends_with(low, ".txt"@) {
        "text/plain"@
    } else if seq_ends_with(low, ".csv"@) {
        "text/csv"@
    } else if seq_ends_with(low, ".json"@) {
        "application/json"@
    } else if seq_ends_with(low, ".xml"@) {
        "application/xml"@
    } else if seq_ends_with(low, ".html"@) {
        "text/html"@
    } else if seq_ends_with(low, ".htm"@) {
        "text/html"@
    } else if seq_ends_with(low, ".md"@) {
        "text/markdown"@
    } else if seq_ends_with(low, ".doc"@) {
        "application/msword"@
    } else if seq_ends_with(low, ".docx"@) {
        "application/vnd.openxmlformats-officedocument.wordprocessingml.document"@
    } else if seq_ends_with(low, ".xls"@) {
        "application/vnd.ms-excel"@
    } else if seq_ends_with(low, ".xlsx"@) {
        "application/vnd.openxmlformats-officedocument.spreadsheetml.sheet"@
    } else if seq_ends_with(low, ".ppt"@) {
        "application/vnd.ms-powerpoint"@
    } else if seq_ends_with(low, ".pptx"@) {
        "application/vnd.openxmlformats-officedocument.presentationml.presentation"@
    } else if seq_ends_with(low, ".zip"@) {
        "application/zip"@
    } else if seq_ends_with(low, ".tar"@) {
        "application/x-tar"@
    } else if seq_ends_with(low, ".gz"@) {
        "application/gzip"@
    } else if seq_ends_with(low, ".gzip"@) {
        "application/gzip"@
    } else {
        "application/octet-stream"@
    }
}

pub fn get_content_type(filename: &str) -> (r: &'static str)
    ensures
        r@ == spec_content_type(filename@),
{
    let lowered = string_of(&lower_chars(&chars_of(filename)));
    if str_ends_with(lowered.as_str(), ".pdf") {
        "application/pdf"
    } else if str_ends_with(lowered.as_str(), ".png") {
        "image/png"
    } else if str_ends_with(lowered.as_str(), ".jpg") {
        "image/jpeg"
    } else if str_ends_with(lowered.as_str(), ".jpeg") {
        "image/jpeg"
    } else if str_ends_with(lowered.as_str(), ".gif") {
        "image/gif"
    } else if str_ends_with(lowered.as_str(), ".webp") {
        "image/webp"
    } else if str_ends_with(lowered.as_str(), ".svg") {
        "image/svg+xml"
    } else if str_ends_with(lowered.as_str(), ".mp4") {
        "video/mp4"
    } else if str_ends_with(lowered.as_str(), ".mov") {
        "video/quicktime"
    } else if str_ends_with(lowered.as_str(), ".webm") {
        "video/webm"
    } else if str_ends_with(lowered.as_str(), ".avi") {
        "video/x-msvideo"
    } else if str_ends_with(lowered.as_str(), ".mkv") {
        "video/x-matroska"
    } else if str_ends_with(lowered.as_str(), ".m4v") {
        "video/x-m4v"
    } else if str_ends_with(lowered.as_str(), ".mp3") {
        "audio/mpeg"
    } else if str_ends_with(lowered.as_str(), ".wav") {
        "audio/wav"
    } else if str_ends_with(lowered.as_str(), ".ogg") {
        "audio/ogg"
    } else if str_ends_with(lowered.as_str(), ".m4a") {
        "audio/mp4"
    } else if str_ends_with(lowered.as_str(), ".flac") {
        "audio/flac"
    } else if str_ends_with(lowered.as_str(), ".txt") {
        "text/plain"
    } else if str_ends_with(lowered.as_str(), ".csv") {
        "text/csv"
    } else if str_ends_with(lowered.as_str(), ".json") {
        "application/json"
    } else if str_ends_with(lowered.as_str(), ".xml") {
        "application/xml"
    } else if str_ends_with(lowered.as_str(), ".html") {
        "text/html"
    } else if str_ends_with(lowered.as_str(), ".htm") {
        "text/html"
    } else if str_ends_with(lowered.as_str(), ".md") {
        "text/markdown"
    } else if str_ends_with(lowered.as_str(), ".doc") {
        "application/msword"
    } else if str_ends_with(lowered.as_str(), ".docx") {
        "application/vnd.openxmlformats-officedocument.wordprocessingml.document"
    } else if str_ends_with(lowered.as_str(), ".xls") {
        "application/vnd.ms-excel"
    } else if str_ends_with(lowered.as_str(), ".xlsx") {
        "application/vnd.openxmlformats-officedocument.spreadsheetml.sheet"
    } else if str_ends_with(lowered.as_str(), ".ppt") {
        "application/vnd.ms-powerpoint"
    } else if str_ends_with(lowered.as_str(), ".pptx") {
        "application/vnd.openxmlformats-officedocument.presentationml.presentation"
    } else if str_ends_with(lowered.as_str(), ".zip") {
        "application/zip"
    } else if str_ends_with(lowered.as_str(), ".tar") {
        "application/x-tar"
    } else if str_ends_with(lowered.as_str(), ".gz") {
        "application/gzip"
    } else if str_ends_with(lowered.as_str(), ".gzip") {
        "application/gzip"
    } else {
        "application/octet-stream"
    }
}

/// A quantity scaled to a unit divisor, rounded to two decimal places:
/// the whole part, a dot, and exactly two fraction digits.
pub open spec fn spec_scaled_centi(v: u64, divisor: u64) -> Seq<char> {
    let hundred = (v as int * 100 + divisor as int / 2) / divisor as int;
    let q = hundred / 100;
    let f = hundred % 100;
    spec_dec(q as nat) + seq!['.'] + (if f < 10 {
        seq!['0']
    } else {
        Seq::empty()
    }) + spec_dec(f as nat)
}

fn scaled_centi(v: u64, divisor: u64) -> (r: Vec<char>)
    requires
        divisor >= 1024,
    ensures
        r@ == spec_scaled_centi(v, divisor),
{
    let hundred: u128 = (v as u128 * 100 + divisor as u128 / 2) / divisor as u128;
    proof {
        assert(hundred <= u64::MAX as u128) by {
            assert(v as u128 * 100 + divisor as u128 / 2 <= u64::MAX as u128 * 100
                + divisor as u128 / 2);
            assert((u64::MAX as int * 100 + divisor as int / 2) / divisor as int
                <= u64::MAX as int) by (nonlinear_arith)
                requires
                    divisor >= 1024,
            ;
            vstd::arithmetic::div_mod::lemma_div_is_ordered(
                v as int * 100 + divisor as int / 2,
                u64::MAX as int * 100 + divisor as int / 2,
                divisor as int,
            );
        }
    }
    let q: u64 = (hundred / 100) as u64;
    let f: u64 = (hundred % 100) as u64;
    let mut out = u64_dec_chars(q);
    out.push('.');
    if f < 10 {
        out.push('0');
    }
    push_all(&mut out, &u64_dec_chars(f));
    proof {
        assert(out@ =~= spec_scaled_centi(v, divisor));
    }
    out
}

/// A byte count as humans read it, in binary units, two decimal places
/// from a kibibyte up.
pub open spec fn spec_format_bytes(bytes: u64) -> Seq<char> {
    if bytes >= 0x10000000000 {
        spec_scaled_centi(bytes, 0x10000000000) + seq![' ', 'T', 'B']
    } else if bytes >= 0x40000000 {
        spec_scaled_centi(bytes, 0x40000000) + seq![' ', 'G', 'B']
    } else if bytes >= 0x100000 {
        spec_scaled_centi(bytes, 0x100000) + seq![' ', 'M', 'B']
    } else if bytes >= 1024 {
        spec_scaled_centi(bytes, 1024) + seq![' ', 'K', 'B']
    } else {
        spec_dec(bytes as nat) + seq![' ', 'B']
    }
}

pub fn format_bytes(bytes: u64) -> (r: String)
    ensures
        r@ == spec_format_bytes(bytes),
{
    let mut out: Vec<char>;
    if bytes >= 0x10000000000 {
        out = scaled_centi(bytes, 0x10000000000);
        out.push(' ');
        out.push('T');
        out.push('B');
    } else if bytes >= 0x40000000 {
        out = scaled_centi(bytes, 0x40000000);
        out.push(' ');
        out.push('G');
        out.push('B');
    } else if bytes >= 0x100000 {
        out = scaled_centi(bytes, 0x100000);
        out.push(' ');
        out.push('M');
        out.push('B');
    } else if bytes >= 1024 {
        out = scaled_centi(bytes, 1024);
        out.push(' ');
        out.push('K');
        out.push('B');
    } else {
        out = u64_dec_chars(bytes);
        out.push(' ');
        out.push('B');
    }
    proof {
        assert(out@ =~= spec_format_bytes(bytes));
    }
    string_of(&out)
}

/// A quantity scaled to a unit divisor, rounded to one decimal place.
pub open spec fn spec_scaled_deci(v: u64, divisor: u64) -> Seq<char> {
    let ten = (v as int * 10 + divisor as int / 2) / divisor as int;
    let q = ten / 10;
    let f = ten % 10;
    spec_dec(q as nat) + seq!['.'] + spec_dec(f as nat)
}

fn scaled_deci(v: u64, divisor: u64) -> (r: Vec<char>)
    requires
        divisor >= 1024,
    ensures
        r@ == spec_scaled_deci(v, divisor),
{
    let ten: u128 = (v as u128 * 10 + divisor as u128 / 2) / divisor as u128;
    proof {
        assert(ten <= u64::MAX as u128) by {
            assert(v as u128 * 10 + divisor as u128 / 2 <= u64::MAX as u128 * 10
                + divisor as u128 / 2);
            assert((u64::MAX as int * 10 + divisor as int / 2) / divisor as int
                <= u64::MAX as int) by (nonlinear_arith)
                requires
                    divisor >= 1024,
            ;
            vstd::arithmetic::div_mod::lemma_div_is_ordered(
                v as int * 10 + divisor as int / 2,
                u64::MAX as int * 10 + divisor as int / 2,
                divisor as int,
            );
        }
    }
    let q: u64 = (ten / 10) as u64;
    let f: u64 = (ten % 10) as u64;
    let mut out = u64_dec_chars(q);
    out.push('.');
    push_all(&mut out, &u64_dec_chars(f));
    proof {
        assert(out@ =~= spec_scaled_deci(v, divisor));
    }
    out
}

/// A listing size as humans read it, one decimal place from a kibibyte
/// up to gibibytes.
pub open spec fn spec_format_size(size: u64) -> Seq<char> {
    if size >= 0x40000000 {
        spec_scaled_deci(size, 0x40000000) + seq![' ', 'G', 'B']
    } else if size >= 0x100000 {
        spec_scaled_deci(size, 0x100000) + seq![' ', 'M', 'B']
    } else if size >= 1024 {
        spec_scaled_deci(size, 1024) + seq![' ', 'K', 'B']
    } else {
        spec_dec(size as nat) + seq![' ', 'B']
    }
}

pub fn format_size(size: u64) -> (r: String)
    ensures
        r@ == spec_format_size(size),
{
    let mut out: Vec<char>;
    if size >= 0x40000000 {
        out = scaled_deci(size, 0x40000000);
        out.push(' ');
        out.push('G');
        out.push('B');
    } else if size >= 0x100000 {
        out = scaled_deci(size, 0x100000);
        out.push(' ');
        out.push('M');
        out.push('B');
    } else if size >= 1024 {
        out = scaled_deci(size, 1024);
        out.push(' ');
        out.push('K');
        out.push('B');
    } else {
        out = u64_dec_chars(size);
        out.push(' ');
        out.push('B');
    }
    proof {
        assert(out@ =~= spec_format_size(size));
    }
    string_of(&out)
}

/// The title-cased fallback for an unknown audit action: underscores
/// become spaces and each word's first letter is raised, ASCII-wise.
pub open spec fn spec_title_char(c: char, at_word_start: bool) -> char {
    if c == '_' {
        ' '
    } else if at_word_start && 'a' <= c && c <= 'z' {
        ((c as u8) - 32) as char
    } else {
        c
    }
}

pub open spec fn spec_title_cased_from(s: Seq<char>, at_start: bool) -> Seq<char>
    decreases s.len(),
{
    if s.len() == 0 {
        Seq::empty()
    } else {
        seq![spec_title_char(s[0], at_start)] + spec_title_cased_from(
            s.drop_first(),
            s[0] == '_',
        )
    }
}

pub open spec fn spec_title_cased(s: Seq<char>) -> Seq<char> {
    spec_title_cased_from(s, true)
}

fn title_cased(action: &str) -> (r: String)
    ensures
        r@ == spec_title_cased(action@),
{
    let chars = chars_of(action);
    let mut out: Vec<char> = Vec::new();
    let mut at_start = true;
    let mut i: usize = 0;
    proof {
        assert(chars@.skip(0) =~= chars@);
    }
    while i < chars.len()
        invariant
            i <= chars@.len(),
            out@ + spec_title_cased_from(chars@.skip(i as int), at_start) == spec_title_cased(
                chars@,
            ),
        decreases chars@.len() - i,
    {
        proof {
            assert(chars@.skip(i as int).drop_first() =~= chars@.skip(i + 1 as int));
            assert(chars@.skip(i as int)[0] == chars@[i as int]);
        }
        let c = chars[i];
        let mapped: char = if c == '_' {
            ' '
        } else if at_start && 'a' <= c && c <= 'z' {
            ((c as u8) - 32) as char
        } else {
            c
        };
        out.push(mapped);
        at_start = c == '_';
        proof {
            assert(out@ + spec_title_cased_from(chars@.skip(i + 1 as int), at_start)
                =~= spec_title_cased(chars@));
        }
        i = i + 1;
    }
    proof {
        assert(chars@.skip(chars@.len() as int) =~= Seq::<char>::empty());
        assert(out@ =~= spec_title_cased(chars@));
    }
    string_of(&out)
}

/// The human-readable label of an audit action.
pub open spec fn spec_action_display(action: Seq<char>) -> Seq<char> {
    if action == "file_upload"@ {
        "Uploaded file"@
    } else if action == "file_download"@ {
        "Downloaded file"@
    } else if action == "file_preview"@ {
        "Previewed file"@
    } else if action == "file_rename"@ {
        "Renamed file"@
    } else if action == "file_delete"@ {
        "Deleted file"@
    } else if action == "file_move"@ {
        "Moved file"@
    } else if action == "file_lock"@ {
        "Locked file"@
    } else if action == "file_unlock"@ {
        "Unlocked file"@
    } else if action == "file_shared"@ {
        "Shared file"@
    } else if action == "file_restore"@ {
        "Restored file"@
    } else if action == "file_permanent_delete"@ {
        "Permanently deleted file"@
    } else if action == "folder_download"@ {
        "Downloaded folder"@
    } else if action == "folder_create"@ {
        "Created folder"@
    } else if action == "private_files_view"@ {
        "Viewed private files"@
    } else if action == "user_created"@ {
        "Created user"@
    } else if action == "user_updated"@ {
        "Updated user"@
    } else if action == "user_deleted"@ {
        "Deleted user"@
    } else if action == "user_permanently_deleted"@ {
        "Permanently deleted user"@
    } else if action == "user_suspended"@ {
        "Suspended user"@
    } else if action == "user_activated"@ {
        "Activated user"@
    } else if action == "admin_reset_password"@ {
        "Reset password"@
    } else if action == "send_password_reset_email"@ {
        "Sent password reset email"@
    } else if action == "admin_change_email"@ {
        "Changed email"@
    } else if action == "role_change"@ {
        "Changed role"@
    } else if action == "login"@ {
        "Logged in"@
    } else if action == "login_success"@ {
        "Logged in"@
    } else if action == "login_failed"@ {
        "Failed login attempt"@
    } else if action == "logout"@ {
        "Logged out"@
    } else if action == "session_revoked"@ {
        "Revoked session"@
    } else if action == "password_changed"@ {
        "Changed password"@
    } else if action == "mfa_enabled"@ {
        "Enabled two-factor auth"@
    } else if action == "mfa_disabled"@ {
        "Disabled two-factor auth"@
    } else if action == "settings_updated"@ {
        "Updated settings"@
    } else if action == "compliance_settings_updated"@ {
        "Updated compliance settings"@
    } else if action == "audit_settings_updated"@ {
        "Updated audit settings"@
    } else if action == "share_created"@ {
        "Created share link"@
    } else if action == "share_accessed"@ {
        "Accessed shared file"@
    } else if action == "share_deleted"@ {
        "Deleted share link"@
    } else if action == "file_request_created"@ {
        "Created file request"@
    } else if action == "file_request_upload"@ {
        "Uploaded to file request"@
    } else if action == "tenant_created"@ {
        "Created company"@
    } else if action == "tenant_updated"@ {
        "Updated company"@
    } else if action == "tenant_suspended"@ {
        "Suspended company"@
    } else if action == "tenant_deleted"@ {
        "Deleted company"@
    } else if action == "security_alert"@ {
        "Security alert"@
    } else if action == "ai_summarize"@ {
        "Generated AI summary"@
    } else if action == "ai_summary_viewed"@ {
        "Viewed AI summary"@
    } else if action == "ai_answer"@ {
        "Asked AI a question"@
    } else if action == "ai_settings_updated"@ {
        "Updated AI settings"@
    } else {
        spec_title_cased(action)
    }
}

pub fn format_action_display(action: &str) -> (r: String)
    ensures
        r@ == spec_action_display(action@),
{
    if str_eq(action, "file_upload") {
        "Uploaded file".to_owned()
    } else if str_eq(action, "file_download") {
        "Downloaded file".to_owned()
    } else if str_eq(action, "file_preview") {
        "Previewed file".to_owned()
    } else if str_eq(action, "file_rename") {
        "Renamed file".to_owned()
    } else if str_eq(action, "file_delete") {
        "Deleted file".to_owned()
    } else if str_eq(action, "file_move") {
        "Moved file".to_owned()
    } else if str_eq(action, "file_lock") {
        "Locked file".to_owned()
    } else if str_eq(action, "file_unlock") {
        "Unlocked file".to_owned()
    } else if str_eq(action, "file_shared") {
        "Shared file".to_owned()
    } else if str_eq(action, "file_restore") {
        "Restored file".to_owned()
    } else if str_eq(action, "file_permanent_delete") {
        "Permanently deleted file".to_owned()
    } else if str_eq(action, "folder_download") {
        "Downloaded folder".to_owned()
    } else if str_eq(action, "folder_create") {
        "Created folder".to_owned()
    } else if str_eq(action, "private_files_view") {
        "Viewed private files".to_owned()
    } else if str_eq(action, "user_created") {
        "Created user".to_owned()
    } else if str_eq(action, "user_updated") {
        "Updated user".to_owned()
    } else if str_eq(action, "user_deleted") {
        "Deleted user".to_owned()
    } else if str_eq(action, "user_permanently_deleted") {
        "Permanently deleted user".to_owned()
    } else if str_eq(action, "user_suspended") {
        "Suspended user".to_owned()
    } else if str_eq(action, "user_activated") {
        "Activated user".to_owned()
    } else if str_eq(action, "admin_reset_password") {
        "Reset password".to_owned()
    } else if str_eq(action, "send_password_reset_email") {
        "Sent password reset email".to_owned()
    } else if str_eq(action, "admin_change_email") {
        "Changed email".to_owned()
    } else if str_eq(action, "role_change") {
        "Changed role".to_owned()
    } else if str_eq(action, "login") {
        "Logged in".to_owned()
    } else if str_eq(action, "login_success") {
        "Logged in".to_owned()
    } else if str_eq(action, "login_failed") {
        "Failed login attempt".to_owned()
    } else if str_eq(action, "logout") {
        "Logged out".to_owned()
    } else if str_eq(action, "session_revoked") {
        "Revoked session".to_owned()
    } else if str_eq(action, "password_changed") {
        "Changed password".to_owned()
    } else if str_eq(action, "mfa_enabled") {
        "Enabled two-factor auth".to_owned()
    } else if str_eq(action, "mfa_disabled") {
        "Disabled two-factor auth".to_owned()
    } else if str_eq(action, "settings_updated") {
        "Updated settings".to_owned()
    } else if str_eq(action, "compliance_settings_updated") {
        "Updated compliance settings".to_owned()
    } else if str_eq(action, "audit_settings_updated") {
        "Updated audit settings".to_owned()
    } else if str_eq(action, "share_created") {
        "Created share link".to_owned()
    } else if str_eq(action, "share_accessed") {
        "Accessed shared file".to_owned()
    } else if str_eq(action, "share_deleted") {
        "Deleted share link".to_owned()
    } else if str_eq(action, "file_request_created") {
        "Created file request".to_owned()
    } else if str_eq(action, "file_request_upload") {
        "Uploaded to file request".to_owned()
    } else if str_eq(action, "tenant_created") {
        "Created company".to_owned()
    } else if str_eq(action, "tenant_updated") {
        "Updated company".to_owned()
    } else if str_eq(action, "tenant_suspended") {
        "Suspended company".to_owned()
    } else if str_eq(action, "tenant_deleted") {
        "Deleted company".to_owned()
    } else if str_eq(action, "security_alert") {
        "Security alert".to_owned()
    } else if str_eq(action, "ai_summarize") {
        "Generated AI summary".to_owned()
    } else if str_eq(action, "ai_summary_viewed") {
        "Viewed AI summary".to_owned()
    } else if str_eq(action, "ai_answer") {
        "Asked AI a question".to_owned()
    } else if str_eq(action, "ai_settings_updated") {
        "Updated AI settings".to_owned()
    } else {
        title_cased(action)
    }
}

} // verus!
