use ai_semantic_cache::text::{
    collapse, decimal_text, ends_with, same_text, same_text_ignoring_case, to_lower,
    trim_trailing_slashes, white,
};

#[test]
fn white_space_is_that_of_unicode() {
    let mut c: u32 = 0;
    while c <= 0x10ffff {
        if let Some(ch) = char::from_u32(c) {
            assert_eq!(white(ch), ch.is_whitespace(), "{c:x}");
        }
        c += 1;
    }
}

#[test]
fn collapsing_is_splitting_and_joining() {
    for s in ["", " ", "a", " a ", "a  b\tc\n", "\u{2028}x\u{205f}y\u{200b}z\u{85}", "É é  ß"] {
        let want: Vec<&str> = s.split_whitespace().collect();
        assert_eq!(collapse(s), want.join(" "));
        assert_eq!(collapse(&collapse(s)), collapse(s));
    }
}

#[test]
fn slashes_are_trimmed() {
    assert_eq!(trim_trailing_slashes("/a//"), "/a");
    assert_eq!(trim_trailing_slashes("/"), "");
    assert_eq!(trim_trailing_slashes("a"), "a");
}

#[test]
fn suffixes_are_found() {
    assert!(ends_with("/v1/embeddings", "/embeddings"));
    assert!(ends_with("x", ""));
    assert!(!ends_with("gs", "/embeddings"));
    assert!(!ends_with("/embeddingz", "/embeddings"));
}

#[test]
fn case_is_that_of_ascii() {
    assert_eq!(to_lower("Set-COOKIE É@[`{"), "Set-COOKIE É@[`{".to_ascii_lowercase());
    assert!(same_text_ignoring_case("X-Cache", "x-cACHE"));
    assert!(!same_text_ignoring_case("É", "é"));
    assert!(!same_text_ignoring_case("a", "ab"));
}

#[test]
fn texts_are_compared_by_characters() {
    assert!(same_text("é", "\u{e9}"));
    assert!(!same_text("é", "e\u{301}"));
    assert!(!same_text("a", "b"));
}

#[test]
fn numbers_in_decimal() {
    for n in [0u128, 9, 10, 200, 65535, u128::MAX] {
        assert_eq!(decimal_text(n), n.to_string());
    }
}
