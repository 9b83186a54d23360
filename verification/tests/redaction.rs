use clovalink::redact::RedactionService;

#[test]
fn test_email_redaction() {
    let text = "Contact john@example.com for more info";
    let redacted = RedactionService::redact(text);
    assert!(redacted.contains("[REDACTED_EMAIL]"));
    assert!(!redacted.contains("john@example.com"));
}

#[test]
fn test_phone_redaction() {
    let text = "Call 555-123-4567 or (555) 123-4567";
    let redacted = RedactionService::redact(text);
    assert!(redacted.contains("[REDACTED_PHONE]"));
}

#[test]
fn test_ssn_redaction() {
    let text = "SSN: 123-45-6789";
    let redacted = RedactionService::redact(text);
    assert!(redacted.contains("[REDACTED_SSN]"));
}

#[test]
fn chunking_keeps_short_text_whole() {
    let chunks = RedactionService::chunk_text("a short note", 100);
    assert_eq!(chunks, vec!["a short note".to_string()]);
}

#[test]
fn chunking_breaks_long_text_into_non_blank_chunks() {
    let mut text = String::new();
    for _ in 0..30 {
        text.push_str("one paragraph of some length here\n\n");
    }
    let chunks = RedactionService::chunk_text(&text, 20);
    assert!(chunks.len() > 1);
    for c in &chunks {
        assert!(!c.trim().is_empty());
    }
}

#[test]
fn chunk_hash_is_the_standard_digest() {
    let hashed = RedactionService::hash_chunk("abc");
    assert_eq!(
        hashed,
        "ba7816bf8f01cfea414140de5dae2223b00361a396177a9cb410ff61f20015ad"
    );
}
