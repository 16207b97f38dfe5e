use right_panel::text::is_whitespace;
use right_panel::transform::transform;

#[test]
fn transform_upper_and_lower() {
    assert_eq!(transform("Hello, World", "upper"), "HELLO, WORLD");
    assert_eq!(transform("Hello, World", "lower"), "hello, world");
    assert_eq!(transform("straße", "upper"), "STRASSE");
}

#[test]
fn transform_title_keeps_spaces() {
    assert_eq!(transform("hello  wORLD", "title"), "Hello  World");
    assert_eq!(transform(" ab", "title"), " Ab");
    assert_eq!(transform("", "title"), "");
}

#[test]
fn transform_sentence() {
    assert_eq!(transform("hELLO. WORLD", "sentence"), "Hello. world");
    assert_eq!(transform("", "sentence"), "");
}

#[test]
fn transform_trim_lines() {
    assert_eq!(transform("  a   b \n\n c  d  \n", "trim"), "a b\n\nc d");
    assert_eq!(transform("a\r\nb", "trim"), "a\nb");
    assert_eq!(transform("\n\n  x\t\ty  \n\n", "trim"), "x y");
    assert_eq!(transform("", "trim"), "");
}

#[test]
fn transform_one_line() {
    assert_eq!(transform("  a \t b\n c ", "oneline"), "a b c");
    assert_eq!(transform("  a \t b\n c ", "plain"), "a b c");
    assert_eq!(transform(" \n ", "oneline"), "");
}

#[test]
fn transform_reverse_twice_is_identity() {
    assert_eq!(transform("abc", "reverse"), "cba");
    let once = transform("héllo wörld", "reverse");
    assert_eq!(transform(&once, "reverse"), "héllo wörld");
}

#[test]
fn transform_slug() {
    assert_eq!(transform("Hello, World! 2024", "slug"), "hello-world-2024");
    assert_eq!(transform("--A--b--", "slug"), "a-b");
    assert_eq!(transform("Ünïcode Tëxt", "slug"), "ünïcode-tëxt");
}

#[test]
fn transform_unknown_mode_keeps_text() {
    assert_eq!(transform("Some Text", "nope"), "Some Text");
    assert_eq!(transform("Some Text", ""), "Some Text");
}

#[test]
fn whitespace_matches_std() {
    for u in 0..=0x10FFFFu32 {
        if let Some(c) = char::from_u32(u) {
            assert_eq!(is_whitespace(c), c.is_whitespace(), "U+{u:04X}");
        }
    }
}
