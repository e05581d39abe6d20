use primer::text::{
    calculate_length, change_string, count_words, get_first_word, process_text,
};

fn first_word_of(text: &str) -> String {
    get_first_word(&String::from(text)).to_string()
}

#[test]
fn get_first_word_of_a_sentence() {
    let sentence = String::from("Hello wonderful world");
    assert_eq!(get_first_word(&sentence), "Hello");
}

#[test]
fn get_first_word_without_a_space_is_the_whole_text() {
    let word = String::from("NoSpacesHere");
    assert_eq!(get_first_word(&word), "NoSpacesHere");
}

#[test]
fn get_first_word_of_an_empty_text() {
    assert_eq!(first_word_of(""), "");
}

#[test]
fn get_first_word_after_a_leading_space_is_empty() {
    assert_eq!(first_word_of(" leading"), "");
    assert_eq!(first_word_of("  "), "");
    assert_eq!(first_word_of(" "), "");
}

#[test]
fn get_first_word_with_a_trailing_space() {
    assert_eq!(first_word_of("word "), "word");
}

#[test]
fn get_first_word_ends_at_a_space_only() {
    assert_eq!(first_word_of("tab\there now"), "tab\there");
    assert_eq!(first_word_of("line\nbreak"), "line\nbreak");
    assert_eq!(first_word_of("no\u{a0}break space"), "no\u{a0}break");
    assert_eq!(first_word_of("wide\u{3000}space"), "wide\u{3000}space");
}

#[test]
fn get_first_word_with_characters_of_several_bytes() {
    assert_eq!(first_word_of("héllo wörld"), "héllo");
    assert_eq!(first_word_of("日本語 テキスト"), "日本語");
    assert_eq!(first_word_of("🦀🦀 crab"), "🦀🦀");
    assert_eq!(first_word_of("\u{120}\u{2020}\u{10020} x"), "\u{120}\u{2020}\u{10020}");
    assert_eq!(first_word_of("ĠĠĠ"), "ĠĠĠ");
}

#[test]
fn get_first_word_is_a_part_of_the_text_it_was_given() {
    let sentence = String::from("Hello wonderful world");
    let word = get_first_word(&sentence);
    assert_eq!(word.as_ptr(), sentence.as_ptr());
    assert_eq!(word.len(), 5);
}

#[test]
fn count_words_of_four_words() {
    assert_eq!(count_words("The quick brown fox"), 4);
}

#[test]
fn count_words_of_an_empty_text() {
    assert_eq!(count_words(""), 0);
}

#[test]
fn count_words_of_the_paragraph() {
    let paragraph = "The quick brown fox jumps over the lazy dog. The dog was sleeping.";
    assert_eq!(count_words(paragraph), 13);
}

#[test]
fn count_words_takes_a_run_of_white_space_as_one() {
    assert_eq!(count_words("a  b   c"), 3);
    assert_eq!(count_words("  a b  "), 2);
    assert_eq!(count_words("a\tb\nc\r\nd"), 4);
    assert_eq!(count_words("   "), 0);
    assert_eq!(count_words("\n"), 0);
    assert_eq!(count_words("word"), 1);
    assert_eq!(count_words(" word"), 1);
    assert_eq!(count_words("word "), 1);
}

#[test]
fn count_words_knows_the_white_space_beyond_ascii() {
    assert_eq!(count_words("a\u{a0}b"), 2);
    assert_eq!(count_words("a\u{3000}b\u{2003}c"), 3);
    assert_eq!(count_words("a\u{200b}b"), 1);
    assert_eq!(count_words("héllo wörld"), 2);
}

#[test]
fn count_words_agrees_with_split_whitespace() {
    let texts = [
        "",
        " ",
        "one",
        "one two",
        " one  two ",
        "\tone\ntwo\u{b}three\u{c}four\rfive",
        "a\u{85}b\u{a0}c\u{1680}d\u{2000}e\u{200a}f\u{2028}g\u{2029}h\u{202f}i\u{205f}j\u{3000}k",
        "a\u{180e}b\u{200b}c\u{feff}d",
        "日本語 テキスト",
        "  Hello, Rust World!  ",
    ];
    for text in texts {
        assert_eq!(count_words(text), text.split_whitespace().count());
    }
}

#[test]
fn process_text_trims_and_lowers() {
    assert_eq!(process_text("  Hello, Rust World!  "), "hello, rust world!");
}

#[test]
fn process_text_lowers_a_text_without_white_space_round_it() {
    assert_eq!(process_text("ABC"), "abc");
    assert_eq!(process_text("MiXeD 123"), "mixed 123");
}

#[test]
fn process_text_lowers_beyond_ascii() {
    assert_eq!(process_text(" ÀÉÎ "), "àéî");
    assert_eq!(process_text("ΟΔΥΣΣΕΥΣ"), "οδυσσευς");
    assert_eq!(process_text("\u{130}"), "i\u{307}");
}

#[test]
fn process_text_of_white_space_alone_is_empty() {
    assert_eq!(process_text(""), "");
    assert_eq!(process_text(" \n\t "), "");
}

#[test]
fn process_text_keeps_the_white_space_inside() {
    assert_eq!(process_text("  A  B  "), "a  b");
}

#[test]
fn calculate_length_counts_bytes() {
    assert_eq!(calculate_length(&String::from("I'm the original!")), 17);
    assert_eq!(calculate_length(&String::new()), 0);
    assert_eq!(calculate_length(&String::from("héllo")), 6);
    assert_eq!(calculate_length(&String::from("日本語")), 9);
    assert_eq!(calculate_length(&String::from("🦀")), 4);
}

#[test]
fn change_string_puts_the_world_behind() {
    let mut text = String::from("Hello");
    change_string(&mut text);
    assert_eq!(text, "Hello, World!");
}

#[test]
fn change_string_on_an_empty_text() {
    let mut text = String::new();
    change_string(&mut text);
    assert_eq!(text, ", World!");
}

#[test]
fn change_string_twice() {
    let mut text = String::from("Hi");
    change_string(&mut text);
    change_string(&mut text);
    assert_eq!(text, "Hi, World!, World!");
}
