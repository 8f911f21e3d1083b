use crabclaw::utils::safe_truncate;

#[test]
fn truncate_ascii_within_limit() {
    assert_eq!(safe_truncate("hello world", 100), "hello world");
}

#[test]
fn truncate_ascii_exact_boundary() {
    assert_eq!(safe_truncate("hello", 5), "hello");
}

#[test]
fn truncate_ascii_cuts() {
    assert_eq!(safe_truncate("hello world", 5), "hello");
}

#[test]
fn truncate_empty_string() {
    assert_eq!(safe_truncate("", 10), "");
}

#[test]
fn truncate_zero_max() {
    assert_eq!(safe_truncate("hello", 0), "");
}

#[test]
fn truncate_chinese_within_limit() {
    assert_eq!(safe_truncate("你好世界", 100), "你好世界");
}

#[test]
fn truncate_chinese_at_char_boundary() {
    assert_eq!(safe_truncate("你好世界", 6), "你好");
}

#[test]
fn truncate_chinese_mid_char() {
    assert_eq!(safe_truncate("你好世界", 4), "你");
    assert_eq!(safe_truncate("你好世界", 5), "你");
}

#[test]
fn truncate_chinese_exact_100_bytes() {
    let text: String = "你".repeat(34);
    let result = safe_truncate(&text, 100);
    assert_eq!(result.len(), 99);
    assert_eq!(result.chars().count(), 33);
}

#[test]
fn truncate_emoji() {
    assert_eq!(safe_truncate("🦀🦀🦀", 4), "🦀");
    assert_eq!(safe_truncate("🦀🦀🦀", 5), "🦀");
    assert_eq!(safe_truncate("🦀🦀🦀", 8), "🦀🦀");
}

#[test]
fn truncate_mixed_ascii_and_chinese() {
    assert_eq!(safe_truncate("hi你好", 5), "hi你");
    assert_eq!(safe_truncate("hi你好", 4), "hi");
    assert_eq!(safe_truncate("hi你好", 3), "hi");
    assert_eq!(safe_truncate("hi你好", 2), "hi");
}

#[test]
fn truncate_japanese_katakana() {
    assert_eq!(safe_truncate("カタカナ", 6), "カタ");
    assert_eq!(safe_truncate("カタカナ", 7), "カタ");
}

#[test]
fn truncate_result_never_exceeds_limit() {
    for max in 0..12 {
        let r = safe_truncate("aé你🦀b", max);
        assert!(r.len() <= max);
        assert!("aé你🦀b".starts_with(r));
    }
}
