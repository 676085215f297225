use eddiner::sanitize::{
    sanitize, sanitize_non_semi_closing_num_char_refs, sanitize_thread_name, TokenRemover,
};

#[test]
fn test_sanitize_non_semi_closing_num_char_refs() {
    let test_cases = [
        // Test case 1
        (
            "This is a text with &#32; spaces.",
            "This is a text with &#32; spaces.",
        ),
        // Test case 2
        (
            "&#32;Hello, &#xa;world!&#65;",
            "&#32;Hello, &#xa;world!&#65;",
        ),
        // Test case 3
        (
            "This is an invalid numeric reference: &#32.",
            "This is an invalid numeric reference: .",
        ),
        // Test case 4
        (
            "Invalid numeric references: &#32&#65&#xa.",
            "Invalid numeric references: .",
        ),
        // Test case 5
        (
            "Mix of valid and invalid: &#32&#65;&#xa&#98aてすと&#99;.",
            "Mix of valid and invalid: &#65;aてすと&#99;.",
        ),
        // Test case 6
        (
            "Mix of valid and invalid: &#32Hello, &#xa;&#65;world!",
            "Mix of valid and invalid: Hello, &#xa;&#65;world!",
        ),
        // Test case 7
        ("", ""),
        // Test case 8
        (
            "No numeric references here. だよね",
            "No numeric references here. だよね",
        ),
        // Test case 9
        ("&#32&#xa", ""),
        // Test case 10
        ("&#32;&#xa;", "&#32;&#xa;"),
    ];

    for (input, expected) in test_cases.iter() {
        assert_eq!(*expected, sanitize_non_semi_closing_num_char_refs(input));
    }
}

#[test]
fn open_refs_odd_inputs() {
    assert_eq!(sanitize_non_semi_closing_num_char_refs("#1 x"), "#1 x");
    assert_eq!(sanitize_non_semi_closing_num_char_refs("#12"), "#12");
    assert_eq!(sanitize_non_semi_closing_num_char_refs("&#&#1 "), "&#&#1 ");
    assert_eq!(sanitize_non_semi_closing_num_char_refs("&#;"), "&#;");
    assert_eq!(sanitize_non_semi_closing_num_char_refs("&#x;"), "&#x;");
    assert_eq!(sanitize_non_semi_closing_num_char_refs("&#x"), "");
    assert_eq!(sanitize_non_semi_closing_num_char_refs("a&#"), "a");
    assert_eq!(sanitize_non_semi_closing_num_char_refs("&&#1#5 "), "&#5 ");
    assert_eq!(sanitize_non_semi_closing_num_char_refs("&#xfg"), "g");
    assert_eq!(sanitize_non_semi_closing_num_char_refs("&#1f"), "f");
}

#[test]
fn sanitize_escapes() {
    assert_eq!(sanitize("<a href=\"x\">"), "&lt;a href=&quot;x&quot;&gt;");
    assert_eq!(sanitize("a\r\nb"), "a<br>b");
    assert_eq!(sanitize("a&#10;b"), "ab");
    assert_eq!(sanitize("&#&#10;10;"), "&#10;");
    assert_eq!(sanitize("&amp;"), "&amp;");
    assert_eq!(sanitize(""), "");
    assert_eq!(sanitize("&#1\r0;"), "");
}

#[test]
fn sanitize_is_idempotent_without_line_feeds() {
    for input in ["<b>\"x\"</b>", "plain", "a\rb", "&#10;&#10;", "あ<い>"] {
        let once = sanitize(input);
        assert_eq!(sanitize(&once), once);
    }
    // A line feed becomes markup that a second pass would escape.
    assert_eq!(sanitize(&sanitize("a\nb")), "a&lt;br&gt;b");
}

#[test]
fn thread_name_loses_line_feed_references() {
    assert_eq!(sanitize_thread_name("a&#xa;b"), "ab");
    assert_eq!(sanitize_thread_name("a&#XA;b&#x000A;c"), "abc");
    assert_eq!(sanitize_thread_name("a&#0010;b&#10;c"), "abc");
    assert_eq!(sanitize_thread_name("a&#100;b"), "a&#100;b");
    assert_eq!(sanitize_thread_name("a&#xab;b"), "a&#xab;b");
    assert_eq!(sanitize_thread_name("a&#x0;b"), "a&#x0;b");
    assert_eq!(sanitize_thread_name("<t>&#32x"), "&lt;t&gt;x");
    assert_eq!(sanitize_thread_name("a\nb"), "a<br>b");
    assert_eq!(sanitize_thread_name("&#x0a"), "");
}

#[test]
fn token_remover_blanks_names_with_tokens() {
    let remover = TokenRemover::new();
    let token = "0123456789abcdef0123456789abcdef";
    assert_eq!(remover.remove(token.to_string()), "");
    assert_eq!(remover.remove(format!("x {token} y")), "");
    assert_eq!(remover.remove("0123456789abcdef0123456789abc".to_string()), "0123456789abcdef0123456789abc");
    assert_eq!(
        remover.remove("0123456789ABCDEF0123456789ABCDEF".to_string()),
        "0123456789ABCDEF0123456789ABCDEF"
    );
    assert_eq!(
        remover.remove("0123456789abcde-0123456789abcde-".to_string()),
        "0123456789abcde-0123456789abcde-"
    );
    assert_eq!(remover.remove("名無し".to_string()), "名無し");
}
