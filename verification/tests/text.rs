use actor::text::{clean_display_name, normalize_outbound_text, truncate};

fn check_multibyte_cutoffs() {
    let cases = [
        ("abc回def", 4, "abc回..."),
        ("abéçd", 3, "abé..."),
        ("hi🙂there", 3, "hi🙂..."),
        ("abcمdef", 4, "abcم..."),
        ("abनमस्ते", 3, "abन..."),
    ];

    for (value, max, expected) in cases {
        assert!(
            !value.is_char_boundary(max),
            "{value:?} byte cutoff {max} should be inside a multibyte character"
        );
        assert_eq!(truncate(value, max), expected);
    }
}

fn check_untruncated() {
    let value = "回家";

    assert_eq!(truncate(value, 2), value);
    assert_eq!(truncate(value, 3), value);
}

fn review_payload(padding: usize) -> String {
    let summary = format!("{}{}", "a".repeat(padding), "回顧部署後續事項，保留繁體中文摘要。".repeat(20));
    format!(
        "{{\"conversation_summary\":{{\"conversation_id\":\"relay:local\",\"covered_message_ids\":[\"msg-traditional-chinese\"],\"summary\":\"{summary}\"}},\"memories\":[]}}"
    )
}

fn check_review_payload() {
    let payload = (0..3)
        .map(review_payload)
        .find(|payload| !payload.is_char_boundary(200))
        .expect("test payload should place byte 200 inside a multibyte character");

    let truncated = truncate(&payload, 200);

    assert!(truncated.ends_with("..."));
    assert!(truncated.is_char_boundary(truncated.len()));
}

#[test]
fn stream_truncate_handles_multilingual_multibyte_cutoff_boundaries() {
    check_multibyte_cutoffs();
}

#[test]
fn mod_truncate_handles_multilingual_multibyte_cutoff_boundaries() {
    check_multibyte_cutoffs();
}

#[test]
fn stream_truncate_keeps_untruncated_multibyte_text_without_ellipsis() {
    check_untruncated();
}

#[test]
fn mod_truncate_keeps_untruncated_multibyte_text_without_ellipsis() {
    check_untruncated();
}

#[test]
fn stream_truncate_handles_apply_review_payload_with_traditional_chinese_summary() {
    check_review_payload();
}

#[test]
fn mod_truncate_handles_apply_review_payload_with_traditional_chinese_summary() {
    check_review_payload();
}

#[test]
fn truncate_counts_characters_not_bytes() {
    assert_eq!(truncate("héllo", 5), "héllo");
    assert_eq!(truncate("héllo", 4), "héll...");
    assert_eq!(truncate("", 0), "");
    assert_eq!(truncate("a", 0), "...");
}

#[test]
fn outbound_text_replaces_dashes_with_commas() {
    assert_eq!(normalize_outbound_text("I can do that \u{2014} tomorrow"), "I can do that, tomorrow");
    assert_eq!(normalize_outbound_text("one\u{2013}two"), "one, two");
    assert_eq!(normalize_outbound_text("\u{2014}start"), " start");
    assert_eq!(normalize_outbound_text("end \u{2014}"), "end,");
    assert_eq!(normalize_outbound_text("plain"), "plain");
    assert_eq!(normalize_outbound_text("wait\u{2014}hold on"), "wait, hold on");
}

#[test]
fn display_names_collapse_whitespace() {
    assert_eq!(clean_display_name("  Ada   Lovelace \n"), "Ada Lovelace");
    assert_eq!(clean_display_name("   "), "");
    assert_eq!(clean_display_name("Single"), "Single");
}

#[test]
fn join_and_rfind() {
    let items = vec!["a".to_string(), "b".to_string(), "c".to_string()];
    assert_eq!(actor::text::join(&items, ", "), "a, b, c");
    assert_eq!(actor::text::join(&Vec::new(), ", "), "");
    let s: Vec<char> = "x\nMemory: a\nMemory: b".chars().collect();
    let p: Vec<char> = "\nMemory: ".chars().collect();
    assert_eq!(actor::text::rfind(&s, &p), Some(11));
}

#[test]
fn normalizing_outbound_text_twice_changes_nothing_more() {
    for text in ["wait\u{2014}hold on", "a \u{2013} b", "\u{2014}start", "end \u{2014}", "plain text"] {
        let once = normalize_outbound_text(text);
        assert_eq!(normalize_outbound_text(&once), once);
    }
    assert_eq!(normalize_outbound_text("plain text"), "plain text");
    assert_eq!(normalize_outbound_text("wait\u{2014}hold on"), "wait, hold on");
    assert_eq!(normalize_outbound_text("a \u{2013} b"), "a, b");
}
