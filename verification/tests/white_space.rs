use primer::white_space::{is_whitespace, trim_whitespace};

#[test]
fn is_whitespace_agrees_with_the_standard_library_on_every_character() {
    let mut code: u32 = 0;
    while code <= 0x10_ffff {
        if let Some(c) = char::from_u32(code) {
            assert_eq!(is_whitespace(c), c.is_whitespace());
        }
        code += 1;
    }
}

#[test]
fn is_whitespace_on_some_characters() {
    assert!(is_whitespace(' '));
    assert!(is_whitespace('\n'));
    assert!(is_whitespace('\t'));
    assert!(is_whitespace('\u{a0}'));
    assert!(is_whitespace('\u{3000}'));
    assert!(!is_whitespace('a'));
    assert!(!is_whitespace('0'));
    assert!(!is_whitespace('\u{8}'));
    assert!(!is_whitespace('\u{e}'));
    assert!(!is_whitespace('\u{200b}'));
    assert!(!is_whitespace('越'));
}

#[test]
fn trim_whitespace_takes_both_ends_off() {
    assert_eq!(trim_whitespace("  Hello, Rust World!  "), "Hello, Rust World!");
    assert_eq!(trim_whitespace("\t\n x y \r\n"), "x y");
    assert_eq!(trim_whitespace("\u{3000}wide\u{a0}"), "wide");
}

#[test]
fn trim_whitespace_leaves_the_inside_alone() {
    assert_eq!(trim_whitespace("a  b"), "a  b");
    assert_eq!(trim_whitespace("no-space"), "no-space");
    assert_eq!(trim_whitespace(" a \t b "), "a \t b");
}

#[test]
fn trim_whitespace_of_white_space_alone_is_empty() {
    assert_eq!(trim_whitespace(""), "");
    assert_eq!(trim_whitespace(" "), "");
    assert_eq!(trim_whitespace(" \t\n "), "");
}

#[test]
fn trim_whitespace_of_one_character() {
    assert_eq!(trim_whitespace("x"), "x");
    assert_eq!(trim_whitespace(" x"), "x");
    assert_eq!(trim_whitespace("x "), "x");
    assert_eq!(trim_whitespace(" é "), "é");
}

#[test]
fn trim_whitespace_agrees_with_trim() {
    let texts = [
        "",
        " ",
        "one",
        " one  two ",
        "\tone\ntwo\u{b}three\u{c}four\rfive\u{85}",
        "\u{2000}\u{2001}日本語 テキスト\u{2028}\u{2029}",
        "\u{200b} not white space \u{200b}",
        "🦀 ",
    ];
    for text in texts {
        assert_eq!(trim_whitespace(text), text.trim());
    }
}

