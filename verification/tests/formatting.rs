use clovalink::ai::AiError;
use clovalink::cronspec::{validate_cron, SchedulerError};
use clovalink::health::{format_uptime, get_uptime, mark_server_start, ServerClock};
use clovalink::pack::sanitize_zip_path;
use clovalink::textfmt::{
    format_action_display, format_bytes, format_size, get_content_type,
    sanitize_content_disposition, sanitize_filename, DispositionKind,
};

#[test]
fn filenames_lose_control_and_reserved_characters() {
    assert_eq!(sanitize_filename("report.pdf"), "report.pdf");
    assert_eq!(sanitize_filename("a/b\\c:d*e?f\"g<h>i|j"), "a_b_c_d_e_f_g_h_i_j");
    assert_eq!(sanitize_filename("  spaced  "), "spaced");
    assert_eq!(sanitize_filename("line\r\nbreak"), "linebreak");
}

#[test]
fn disposition_headers_cannot_be_injected() {
    assert_eq!(
        sanitize_content_disposition("notes.txt", DispositionKind::Attachment),
        "attachment; filename=\"notes.txt\""
    );
    assert_eq!(
        sanitize_content_disposition("bad\r\nheader.txt", DispositionKind::Inline),
        "inline; filename=\"badheader.txt\""
    );
    assert_eq!(
        sanitize_content_disposition("", DispositionKind::Attachment),
        "attachment; filename=\"download\""
    );
    let unicode = sanitize_content_disposition("r\u{00e9}sum\u{00e9}.pdf", DispositionKind::Attachment);
    assert_eq!(
        unicode,
        "attachment; filename=\"rsum.pdf\"; filename*=UTF-8''r%C3%A9sum%C3%A9.pdf"
    );
}

#[test]
fn archive_paths_cannot_slip() {
    assert_eq!(sanitize_zip_path("a/b.txt"), Some("a/b.txt".to_string()));
    assert_eq!(sanitize_zip_path("../../etc/passwd"), Some("etc/passwd".to_string()));
    assert_eq!(sanitize_zip_path("/abs/path.txt"), Some("abs/path.txt".to_string()));
    assert_eq!(sanitize_zip_path("a\\b\\c.txt"), Some("a/b/c.txt".to_string()));
    assert_eq!(sanitize_zip_path("./."), None);
    assert_eq!(sanitize_zip_path(""), None);
    assert_eq!(sanitize_zip_path("C:\\evil.txt"), None);
}

#[test]
fn content_types_come_from_extensions() {
    assert_eq!(get_content_type("slides.PDF"), "application/pdf");
    assert_eq!(get_content_type("photo.jpeg"), "image/jpeg");
    assert_eq!(get_content_type("notes.txt"), "text/plain");
    assert_eq!(get_content_type("archive.tar"), "application/x-tar");
    assert_eq!(get_content_type("mystery.bin"), "application/octet-stream");
}

#[test]
fn byte_counts_read_in_binary_units() {
    assert_eq!(format_bytes(512), "512 B");
    assert_eq!(format_bytes(1536), "1.50 KB");
    assert_eq!(format_bytes(1048576), "1.00 MB");
    assert_eq!(format_bytes(1073741824), "1.00 GB");
    assert_eq!(format_size(512), "512 B");
    assert_eq!(format_size(1536), "1.5 KB");
    assert_eq!(format_size(1572864), "1.5 MB");
}

#[test]
fn uptime_reads_from_the_largest_unit() {
    assert_eq!(format_uptime(5), "5s");
    assert_eq!(format_uptime(65), "1m 5s");
    assert_eq!(format_uptime(3665), "1h 1m 5s");
    assert_eq!(format_uptime(90061), "1d 1h 1m 1s");
}

#[test]
fn the_server_clock_marks_once() {
    let mut clock = ServerClock::new();
    mark_server_start(&mut clock, 100);
    mark_server_start(&mut clock, 900);
    assert_eq!(clock.started_at, Some(100));
    assert_eq!(get_uptime(&clock, 160), 60);
    assert_eq!(get_uptime(&clock, 50), 0);
}

#[test]
fn audit_actions_have_readable_labels() {
    assert_eq!(format_action_display("file_upload"), "Uploaded file");
    assert_eq!(format_action_display("file_permanent_delete"), "Permanently deleted file");
    assert_eq!(format_action_display("ai_summarize"), "Generated AI summary");
    assert_eq!(format_action_display("custom_webhook_fired"), "Custom Webhook Fired");
}

#[test]
fn cron_expressions_validate_through_the_grammar() {
    assert!(validate_cron("0 0 * * * *").is_ok());
    assert!(validate_cron("*/5 * * * * *").is_ok());
    match validate_cron("every now and then") {
        Err(SchedulerError::InvalidCron(m)) => assert_eq!(m, "every now and then"),
        _ => panic!("nonsense must be refused"),
    }
}

#[test]
fn provider_names_are_ranked_for_the_health_regime() {
    assert!(clovalink::ai::ProviderRegistry::is_hipaa_approved("OpenAI"));
    assert!(!clovalink::ai::ProviderRegistry::is_hipaa_approved("other"));
    assert_eq!(clovalink::ai::ProviderRegistry::available_providers(), vec!["openai"]);
}

#[test]
fn assistant_errors_classify_and_map_to_statuses() {
    assert!(AiError::Disabled.is_user_error());
    assert!(!AiError::InternalError.is_user_error());
    assert_eq!(AiError::Forbidden.status_code(), 403);
    assert_eq!(AiError::DailyLimitExceeded.status_code(), 429);
    assert_eq!(AiError::FileNotFound.status_code(), 404);
    assert_eq!(AiError::MaintenanceMode("down".to_string()).status_code(), 503);
}
