use rtk_tracking::estimate_tokens;

#[test]
fn test_estimate_tokens() {
    assert_eq!(estimate_tokens(""), 0);
    assert_eq!(estimate_tokens("abcd"), 1); // 4 chars = 1 token
    assert_eq!(estimate_tokens("abcde"), 2); // 5 chars = ceil(1.25) = 2
    assert_eq!(estimate_tokens("a"), 1); // 1 char = ceil(0.25) = 1
    assert_eq!(estimate_tokens("12345678"), 2); // 8 chars = 2 tokens
}

#[test]
fn estimate_rounds_up_at_every_remainder() {
    assert_eq!(estimate_tokens("ab"), 1);
    assert_eq!(estimate_tokens("abc"), 1);
    assert_eq!(estimate_tokens("abcdef"), 2);
    assert_eq!(estimate_tokens("abcdefg"), 2);
    assert_eq!(estimate_tokens("abcdefghi"), 3);
}

#[test]
fn estimate_counts_characters() {
    // four characters, twelve bytes
    assert_eq!(estimate_tokens("日本語だ"), 1);
    // five characters, six bytes
    assert_eq!(estimate_tokens("héllo"), 2);
}

#[test]
fn estimate_of_long_text() {
    let text = "x".repeat(4001);
    assert_eq!(estimate_tokens(&text), 1001);
}
