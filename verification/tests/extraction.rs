use clovalink::text_extract::{extract_text, is_extractable, ExtractError};

#[test]
fn test_plain_text_extraction() {
    let text = b"Hello, World!".to_vec();
    let result = extract_text(&text, "text/plain").unwrap();
    assert_eq!(result, "Hello, World!");
}

#[test]
fn test_unsupported_format() {
    let result = extract_text(&b"binary".to_vec(), "application/octet-stream");
    assert!(result.is_err());
}

#[test]
fn extractable_types_are_recognised() {
    assert!(is_extractable("text/plain"));
    assert!(is_extractable("application/pdf"));
    assert!(is_extractable(
        "application/vnd.openxmlformats-officedocument.wordprocessingml.document"
    ));
    assert!(!is_extractable("application/octet-stream"));
    assert!(!is_extractable("application/msword"));
}

#[test]
fn legacy_word_format_is_refused() {
    let result = extract_text(&b"\xd0\xcf\x11\xe0".to_vec(), "application/msword");
    match result {
        Err(ExtractError::UnsupportedFormat(_)) => {}
        _ => panic!("the legacy format must be refused"),
    }
}

#[test]
fn the_page_format_is_referred_outside() {
    let result = extract_text(&b"%PDF-1.4 ...".to_vec(), "application/pdf");
    match result {
        Err(ExtractError::PdfError(_)) => {}
        Ok(_) => panic!("the core never extracts the page format itself"),
        Err(_) => panic!("the error must name the format"),
    }
}

#[test]
fn word_document_text_is_drawn_from_the_archive() {
    // A minimal word-processor package: one archive member of markup.
    let mut buf = std::io::Cursor::new(Vec::new());
    {
        let mut zip = zip::ZipWriter::new(&mut buf);
        let options = zip::write::SimpleFileOptions::default();
        zip.start_file("word/document.xml", options).unwrap();
        std::io::Write::write_all(
            &mut zip,
            b"<w:document><w:p><w:t>Hello</w:t><w:t>Doc</w:t></w:p></w:document>",
        )
        .unwrap();
        zip.finish().unwrap();
    }
    let bytes = buf.into_inner();
    let result = extract_text(
        &bytes,
        "application/vnd.openxmlformats-officedocument.wordprocessingml.document",
    )
    .unwrap();
    assert_eq!(result, "Hello Doc\n");
}
