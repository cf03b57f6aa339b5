use spin_hub::hub_api::{truncate_to_word_boundary, IndexEntry};

fn entry_with_summary(summary: &str) -> IndexEntry {
    IndexEntry::new(
        "Some entry".to_string(),
        summary.to_string(),
        "Sample".to_string(),
        "Rust".to_string(),
        "someone".to_string(),
        vec![],
        String::new(),
        None,
        None,
    )
}

#[test]
fn truncation() {
    assert_eq!("Hello world", truncate_to_word_boundary("Hello world bibblybobbly", 15, 2));
    assert_eq!("Hello world", truncate_to_word_boundary("Hello world", 15, 2));
    assert_eq!("Hello", truncate_to_word_boundary("Hello world", 7, 2));
    assert_eq!("Hello", truncate_to_word_boundary("Hello world", 5, 2));
    assert_eq!("Hell", truncate_to_word_boundary("Hello world", 4, 2));
}

#[test]
fn truncation_trims_inner_whitespace_run() {
    assert_eq!("Hello", truncate_to_word_boundary("Hello   world bibbly", 9, 2));
}

#[test]
fn short_summary_keeps_short_text() {
    let e = entry_with_summary("A tidy little summary");
    assert_eq!(e.short_summary(), "A tidy little summary");
}

#[test]
fn short_summary_truncates_long_text() {
    let long = format!("{} {}", "a".repeat(55), "b".repeat(20));
    let e = entry_with_summary(&long);
    assert_eq!(e.short_summary(), format!("{}...", "a".repeat(55)));
}

#[test]
fn short_summary_cuts_hard_when_no_boundary() {
    let long = "x".repeat(80);
    let e = entry_with_summary(&long);
    assert_eq!(e.short_summary(), format!("{}...", "x".repeat(57)));
}
