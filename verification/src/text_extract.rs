//! Text extraction from document formats, for indexing and
//! summarization. Plain-text types decode directly; office formats are
//! unpacked and their markup walked here. The page format's parser can
//! abort on malformed documents, so it runs outside the verified core.

use vstd::prelude::*;
use crate::strutil::{chars_of, str_eq, string_of};
use crate::health::push_all;
use calamine::Reader;

verus! {

/// Failures of text extraction.
#[derive(Debug)]
pub enum ExtractError {
    UnsupportedFormat(String),
    PdfError(String),
    OfficeError(String),
    IoError(String),
}

/// The decoding of possibly ill-formed bytes as text, invalid sequences
/// shown as the replacement character. It depends on the bytes alone.
pub uninterp spec fn utf8_lossy_of(data: Seq<u8>) -> Seq<char>;

/// Relies on `String::from_utf8_lossy`: the decoding depends on the
/// bytes alone, and bytes that are already plain seven-bit text decode
/// to themselves, character for character.
#[verifier::external_body]
fn utf8_lossy(data: &Vec<u8>) -> (r: String)
    ensures
        r@ == utf8_lossy_of(data@),
        (forall|i: int| 0 <= i < data@.len() ==> (#[trigger] data@[i]) < 0x80) ==> r@.len()
            == data@.len() && (forall|i: int|
            0 <= i < data@.len() ==> (#[trigger] r@[i]) as u32 == data@[i]),
{
    String::from_utf8_lossy(data.as_slice()).into_owned()
}

/// The named member of an archive, read as text, if the archive and the
/// member are well formed. It depends on the bytes and the name alone.
pub uninterp spec fn zip_member_text_of(data: Seq<u8>, name: Seq<char>) -> Option<Seq<char>>;

/// Relies on `zip::ZipArchive::by_name`: which member a name addresses,
/// and its content, are functions of the archive bytes and the name.
#[verifier::external_body]
fn zip_member_text(data: &Vec<u8>, name: &str) -> (r: Option<String>)
    ensures
        (match r {
            Option::Some(t) => zip_member_text_of(data@, name@) == Some(t@),
            Option::None => zip_member_text_of(data@, name@) is None,
        }),
{
    let cursor = std::io::Cursor::new(data.as_slice());
    let mut archive = match zip::ZipArchive::new(cursor) {
        Ok(a) => a,
        Err(_) => return None,
    };
    let mut member = match archive.by_name(name) {
        Ok(m) => m,
        Err(_) => return None,
    };
    let mut text = String::new();
    match std::io::Read::read_to_string(&mut member, &mut text) {
        Ok(_) => Some(text),
        Err(_) => None,
    }
}

/// The sheets a well-formed workbook carries: each its name with its
/// rows of cell texts. A function of the bytes alone; no contract of
/// this crate says what they are on given bytes.
pub uninterp spec fn xlsx_sheets_of(data: Seq<u8>) -> Seq<(Seq<char>, Seq<Seq<Seq<char>>>)>;

/// As for the older workbook format.
pub uninterp spec fn xls_sheets_of(data: Seq<u8>) -> Seq<(Seq<char>, Seq<Seq<Seq<char>>>)>;

/// Relies on `calamine::Xlsx`: the sheets of a workbook, each as its
/// name with its rows of cell texts, are a function of the bytes alone.
#[verifier::external_body]
fn xlsx_sheets(data: &Vec<u8>) -> (r: Result<Vec<(String, Vec<Vec<String>>)>, String>)
    ensures
        r matches Ok(v) ==> v.deep_view() == xlsx_sheets_of(data@),
{
    let cursor = std::io::Cursor::new(data.as_slice());
    let mut wb: calamine::Xlsx<_> = match calamine::Xlsx::new(cursor) {
        Ok(w) => w,
        Err(e) => return Err(format!("{}", e)),
    };
    let names = calamine::Reader::sheet_names(&wb);
    let mut out = Vec::new();
    for name in names {
        if let Ok(range) = calamine::Reader::worksheet_range(&mut wb, &name) {
            out.push((name, range.rows().map(|r| r.iter().map(|c| c.to_string()).collect()).collect()));
        }
    }
    Ok(out)
}

/// Relies on `calamine::Xls`: as for the newer workbook format.
#[verifier::external_body]
fn xls_sheets(data: &Vec<u8>) -> (r: Result<Vec<(String, Vec<Vec<String>>)>, String>)
    ensures
        r matches Ok(v) ==> v.deep_view() == xls_sheets_of(data@),
{
    let cursor = std::io::Cursor::new(data.as_slice());
    let mut wb: calamine::Xls<_> = match calamine::Xls::new(cursor) {
        Ok(w) => w,
        Err(e) => return Err(format!("{}", e)),
    };
    let names = calamine::Reader::sheet_names(&wb);
    let mut out = Vec::new();
    for name in names {
        if let Ok(range) = calamine::Reader::worksheet_range(&mut wb, &name) {
            out.push((name, range.rows().map(|r| r.iter().map(|c| c.to_string()).collect()).collect()));
        }
    }
    Ok(out)
}

/// Whether a tag name addresses a text element of the office markup: a
/// local name `t`, with or without a namespace prefix.
fn is_text_tag(tag: &Vec<char>) -> bool {
    let n = tag.len();
    if n == 1 {
        tag[0] == 't'
    } else if n >= 2 {
        tag[n - 1] == 't' && tag[n - 2] == ':'
    } else {
        false
    }
}

/// Whether a tag name addresses a paragraph element.
fn is_para_tag(tag: &Vec<char>) -> bool {
    let n = tag.len();
    if n == 1 {
        tag[0] == 'p'
    } else if n >= 2 {
        tag[n - 1] == 'p' && tag[n - 2] == ':'
    } else {
        false
    }
}

/// Decodes the five standard markup entities in place of their escapes;
/// anything else passes through unchanged.
fn decode_entities(s: &Vec<char>) -> Vec<char> {
    let mut out: Vec<char> = Vec::new();
    let mut i: usize = 0;
    while i < s.len()
        invariant
            i <= s@.len(),
        decreases s@.len() - i,
    {
        let c = s[i];
        if c == '&' {
            // Scan to the closing semicolon, at most six characters on.
            let mut j = i + 1;
            let mut end: usize = 0;
            let mut found = false;
            while j < s.len() && j - i <= 6
                invariant
                    i < j <= s@.len(),
                    found ==> i < end < s@.len(),
                decreases s@.len() - j,
            {
                if s[j] == ';' {
                    end = j;
                    found = true;
                    break;
                }
                j = j + 1;
            }
            if found {
                let mut name: Vec<char> = Vec::new();
                let mut k = i + 1;
                while k < end
                    invariant
                        i < k <= end < s@.len(),
                    decreases end - k,
                {
                    name.push(s[k]);
                    k = k + 1;
                }
                let name_s = string_of(&name);
                let decoded: Option<char> = if str_eq(name_s.as_str(), "amp") {
                    Some('&')
                } else if str_eq(name_s.as_str(), "lt") {
                    Some('<')
                } else if str_eq(name_s.as_str(), "gt") {
                    Some('>')
                } else if str_eq(name_s.as_str(), "quot") {
                    Some('"')
                } else if str_eq(name_s.as_str(), "apos") {
                    Some('\'')
                } else {
                    None
                };
                match decoded {
                    Option::Some(d) => {
                        out.push(d);
                        i = end + 1;
                    },
                    Option::None => {
                        out.push(c);
                        i = i + 1;
                    },
                }
            } else {
                out.push(c);
                i = i + 1;
            }
        } else {
            out.push(c);
            i = i + 1;
        }
    }
    out
}

/// Walks office markup and collects the text inside text elements,
/// separated by spaces, with a break at each paragraph end.
fn office_xml_text(xml: &Vec<char>) -> Vec<char> {
    let mut out: Vec<char> = Vec::new();
    let mut in_text = false;
    let mut pending_sep = false;
    let mut i: usize = 0;
    while i < xml.len()
        invariant
            i <= xml@.len(),
        decreases xml@.len() - i,
    {
        let c = xml[i];
        if c == '<' {
            // Capture the tag up to the closing angle.
            let mut tag: Vec<char> = Vec::new();
            let mut j = i + 1;
            while j < xml.len() && xml[j] != '>'
                invariant
                    i < j <= xml@.len(),
                decreases xml@.len() - j,
            {
                tag.push(xml[j]);
                j = j + 1;
            }
            // The tag's name: up to the first space, without a leading
            // slash.
            let closing = tag.len() > 0 && tag[0] == '/';
            let mut name: Vec<char> = Vec::new();
            let mut k: usize = if closing {
                1
            } else {
                0
            };
            while k < tag.len() && tag[k] != ' ' && tag[k] != '/'
                invariant
                    k <= tag@.len(),
                decreases tag@.len() - k,
            {
                name.push(tag[k]);
                k = k + 1;
            }
            let self_closing = tag.len() > 0 && tag[tag.len() - 1] == '/';
            if is_text_tag(&name) {
                if closing || self_closing {
                    in_text = false;
                } else {
                    in_text = true;
                }
            }
            if closing && is_para_tag(&name) {
                if out.len() > 0 {
                    out.push('\n');
                    pending_sep = false;
                }
            }
            i = if j < xml.len() {
                j + 1
            } else {
                j
            };
        } else {
            if in_text {
                if pending_sep && out.len() > 0 {
                    out.push(' ');
                }
                pending_sep = false;
                out.push(c);
            }
            i = i + 1;
        }
        if !in_text && out.len() > 0 {
            pending_sep = true;
        }
    }
    decode_entities(&out)
}

/// Assembles workbook sheets into lines: a header per sheet, then each
/// non-empty row with its non-empty cells joined by tabs.
fn assemble_sheets(sheets: &Vec<(String, Vec<Vec<String>>)>) -> String {
    let mut out: Vec<char> = Vec::new();
    let mut s: usize = 0;
    while s < sheets.len()
        invariant
            s <= sheets@.len(),
        decreases sheets@.len() - s,
    {
        if out.len() > 0 {
            out.push('\n');
        }
        push_all(&mut out, &chars_of("=== Sheet: "));
        push_all(&mut out, &chars_of(sheets[s].0.as_str()));
        push_all(&mut out, &chars_of(" ==="));
        let rows = &sheets[s].1;
        let mut r: usize = 0;
        while r < rows.len()
            invariant
                r <= rows@.len(),
            decreases rows@.len() - r,
        {
            let row = &rows[r];
            let mut line: Vec<char> = Vec::new();
            let mut c: usize = 0;
            while c < row.len()
                invariant
                    c <= row@.len(),
                decreases row@.len() - c,
            {
                let cell = chars_of(row[c].as_str());
                if cell.len() > 0 {
                    if line.len() > 0 {
                        line.push('\t');
                    }
                    push_all(&mut line, &cell);
                }
                c = c + 1;
            }
            if line.len() > 0 {
                out.push('\n');
                push_all(&mut out, &line);
            }
            r = r + 1;
        }
        s = s + 1;
    }
    string_of(&out)
}

/// Whether a media type is supported for text extraction.
pub open spec fn spec_plain_text_type(mime: Seq<char>) -> bool {
    ||| mime == "text/plain"@
    ||| mime == "text/markdown"@
    ||| mime == "text/csv"@
    ||| mime == "text/html"@
    ||| mime == "text/xml"@
    ||| mime == "application/json"@
    ||| mime == "application/xml"@
    ||| mime == "text/x-python"@
    ||| mime == "text/x-java"@
    ||| mime == "text/javascript"@
    ||| mime == "application/javascript"@
    ||| mime == "text/css"@
    ||| mime == "text/x-rust"@
    ||| mime == "text/x-c"@
    ||| mime == "text/x-c++"@
}

pub open spec fn spec_extractable(mime: Seq<char>) -> bool {
    ||| spec_plain_text_type(mime)
    ||| mime == "application/pdf"@
    ||| mime == "application/vnd.openxmlformats-officedocument.wordprocessingml.document"@
    ||| mime == "application/vnd.openxmlformats-officedocument.spreadsheetml.sheet"@
    ||| mime == "application/vnd.openxmlformats-officedocument.presentationml.presentation"@
    ||| mime == "application/vnd.ms-excel"@
}

fn is_plain_text_type(mime: &str) -> (r: bool)
    ensures
        r == spec_plain_text_type(mime@),
{
    str_eq(mime, "text/plain") || str_eq(mime, "text/markdown") || str_eq(mime, "text/csv")
        || str_eq(mime, "text/html") || str_eq(mime, "text/xml") || str_eq(
        mime,
        "application/json",
    ) || str_eq(mime, "application/xml") || str_eq(mime, "text/x-python") || str_eq(
        mime,
        "text/x-java",
    ) || str_eq(mime, "text/javascript") || str_eq(mime, "application/javascript") || str_eq(
        mime,
        "text/css",
    ) || str_eq(mime, "text/x-rust") || str_eq(mime, "text/x-c") || str_eq(mime, "text/x-c++")
}

/// Whether text can be drawn out of a media type at all.
pub fn is_extractable(mime_type: &str) -> (r: bool)
    ensures
        r == spec_extractable(mime_type@),
{
    is_plain_text_type(mime_type) || str_eq(mime_type, "application/pdf") || str_eq(
        mime_type,
        "application/vnd.openxmlformats-officedocument.wordprocessingml.document",
    ) || str_eq(
        mime_type,
        "application/vnd.openxmlformats-officedocument.spreadsheetml.sheet",
    ) || str_eq(
        mime_type,
        "application/vnd.openxmlformats-officedocument.presentationml.presentation",
    ) || str_eq(mime_type, "application/vnd.ms-excel")
}

/// Extracts the text of a document, dispatching on its media type.
///
/// Plain-text types decode byte for byte when the bytes are plain
/// seven-bit text, and lossily otherwise; the page format goes through
/// its parser; office formats are unpacked and their markup walked here,
/// best effort. The legacy word-processor format and every unknown type
/// are refused as unsupported.
pub fn extract_text(bytes: &Vec<u8>, mime_type: &str) -> (r: Result<String, ExtractError>)
    ensures
        spec_plain_text_type(mime_type@) ==> (match r {
            Result::Ok(t) => t@ == utf8_lossy_of(bytes@),
            Result::Err(_) => false,
        }),
        // Plain seven-bit text round-trips byte for byte.
        spec_plain_text_type(mime_type@) && (forall|i: int|
            0 <= i < bytes@.len() ==> (#[trigger] bytes@[i]) < 0x80) ==> (match r {
            Result::Ok(t) => t@.len() == bytes@.len() && (forall|i: int|
                0 <= i < bytes@.len() ==> (#[trigger] t@[i]) as u32 == bytes@[i]),
            Result::Err(_) => false,
        }),
        !spec_plain_text_type(mime_type@) && mime_type@ == "application/pdf"@ ==> (r matches Err(
            e,
        ) && (e matches ExtractError::PdfError(_))),
        !spec_extractable(mime_type@) ==> (r matches Err(e) && (
        e matches ExtractError::UnsupportedFormat(_))),
        !spec_plain_text_type(mime_type@) && mime_type@ != "application/pdf"@ && mime_type@
            == "application/vnd.openxmlformats-officedocument.wordprocessingml.document"@ ==> (
        match r {
            Result::Ok(_) => true,
            Result::Err(e) => e matches ExtractError::OfficeError(_),
        }),
        !spec_plain_text_type(mime_type@) && mime_type@ != "application/pdf"@ && mime_type@
            != "application/vnd.openxmlformats-officedocument.wordprocessingml.document"@
            && mime_type@
            == "application/vnd.openxmlformats-officedocument.spreadsheetml.sheet"@ ==> (
        match r {
            Result::Ok(_) => true,
            Result::Err(e) => e matches ExtractError::OfficeError(_),
        }),
        !spec_plain_text_type(mime_type@) && mime_type@ != "application/pdf"@ && mime_type@
            != "application/vnd.openxmlformats-officedocument.wordprocessingml.document"@
            && mime_type@
            != "application/vnd.openxmlformats-officedocument.spreadsheetml.sheet"@ && mime_type@
            == "application/vnd.openxmlformats-officedocument.presentationml.presentation"@ ==> (
        match r {
            Result::Ok(_) => true,
            Result::Err(e) => e matches ExtractError::OfficeError(_),
        }),
        !spec_plain_text_type(mime_type@) && mime_type@ != "application/pdf"@ && mime_type@
            != "application/vnd.openxmlformats-officedocument.wordprocessingml.document"@
            && mime_type@
            != "application/vnd.openxmlformats-officedocument.spreadsheetml.sheet"@ && mime_type@
            != "application/vnd.openxmlformats-officedocument.presentationml.presentation"@
            && mime_type@ == "application/vnd.ms-excel"@ ==> (match r {
            Result::Ok(_) => true,
            Result::Err(e) => e matches ExtractError::OfficeError(_),
        }),

{
    if is_plain_text_type(mime_type) {
        return Ok(utf8_lossy(bytes));
    }
    if str_eq(mime_type, "application/pdf") {
        // The page-format parser aborts outright on malformed or unusual
        // documents, so the core never calls it; the caller extracts the
        // page format outside and is answered here with its format named.
        return Err(ExtractError::PdfError("the page format is extracted outside the core".to_owned()));
    }
    if str_eq(
        mime_type,
        "application/vnd.openxmlformats-officedocument.wordprocessingml.document",
    ) {
        return match zip_member_text(bytes, "word/document.xml") {
            Option::Some(xml) => {
                let text = office_xml_text(&chars_of(xml.as_str()));
                Ok(string_of(&text))
            },
            Option::None => Err(
                ExtractError::OfficeError("no document part in the archive".to_owned()),
            ),
        };
    }
    if str_eq(
        mime_type,
        "application/vnd.openxmlformats-officedocument.spreadsheetml.sheet",
    ) {
        return match xlsx_sheets(bytes) {
            Result::Ok(sheets) => Ok(assemble_sheets(&sheets)),
            Result::Err(m) => Err(ExtractError::OfficeError(m)),
        };
    }
    if str_eq(
        mime_type,
        "application/vnd.openxmlformats-officedocument.presentationml.presentation",
    ) {
        let mut parts: Vec<char> = Vec::new();
        let mut n: u64 = 1;
        while n < 10000
            invariant
                1 <= n <= 10000,
            decreases 10000 - n,
        {
            let mut name: Vec<char> = chars_of("ppt/slides/slide");
            push_all(&mut name, &crate::strutil::u64_dec_chars(n));
            push_all(&mut name, &chars_of(".xml"));
            let name_s = string_of(&name);
            match zip_member_text(bytes, name_s.as_str()) {
                Option::Some(xml) => {
                    let text = office_xml_text(&chars_of(xml.as_str()));
                    if text.len() > 0 {
                        if parts.len() > 0 {
                            parts.push('\n');
                            parts.push('\n');
                        }
                        push_all(&mut parts, &text);
                    }
                },
                Option::None => {
                    break;
                },
            }
            n = n + 1;
        }
        if parts.len() == 0 {
            return Err(
                ExtractError::OfficeError("no text content in the presentation".to_owned()),
            );
        }
        return Ok(string_of(&parts));
    }
    if str_eq(mime_type, "application/vnd.ms-excel") {
        return match xls_sheets(bytes) {
            Result::Ok(sheets) => Ok(assemble_sheets(&sheets)),
            Result::Err(m) => Err(ExtractError::OfficeError(m)),
        };
    }
    let mut msg = mime_type.to_owned();
    if str_eq(mime_type, "application/msword") {
        msg = "the legacy word-processor format is not supported".to_owned();
    }
    Err(ExtractError::UnsupportedFormat(msg))
}

} // verus!
