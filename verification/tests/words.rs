use chat_relay::words::{
    chars_of, find_word, has_prefix, is_text, join_from, split_words, text_of, trim_text, Spacing,
};

#[test]
fn split_words_cuts_at_runs_of_whitespace() {
    assert_eq!(split_words("  a  bc\td\n", Spacing::Ascii), vec!["a", "bc", "d"]);
    assert_eq!(split_words("", Spacing::Ascii), Vec::<String>::new());
    assert_eq!(split_words(" \t ", Spacing::Ascii), Vec::<String>::new());
    assert_eq!(split_words("one", Spacing::Ascii), vec!["one"]);
}

#[test]
fn split_words_agrees_with_std() {
    let samples = [
        "reg -u alice -p pw1",
        "  leading and trailing  ",
        "tabs\tand\nnewlines\r\nand\x0cfeeds",
        "uni\u{a0}code\u{2003}space\u{3000}here",
        "caf\u{e9} na\u{ef}ve \u{1f600} end",
        "",
        "x",
    ];
    for sample in samples {
        let ascii: Vec<String> = sample.split_ascii_whitespace().map(|w| w.to_string()).collect();
        let unicode: Vec<String> = sample.split_whitespace().map(|w| w.to_string()).collect();
        assert_eq!(split_words(sample, Spacing::Ascii), ascii);
        assert_eq!(split_words(sample, Spacing::Unicode), unicode);
    }
}

#[test]
fn separators_agree_with_std_on_every_char() {
    let mut code: u32 = 0;
    while code <= 0x10ffff {
        if let Some(c) = char::from_u32(code) {
            assert_eq!(Spacing::Ascii.is_separator(c), c.is_ascii_whitespace());
            assert_eq!(Spacing::Unicode.is_separator(c), c.is_whitespace());
        }
        code += 1;
    }
}

#[test]
fn join_from_puts_one_space_between_words() {
    let list = vec!["a".to_string(), "b".to_string(), "c".to_string()];
    assert_eq!(join_from(&list, 0), "a b c");
    assert_eq!(join_from(&list, 1), "b c");
    assert_eq!(join_from(&list, 2), "c");
    assert_eq!(join_from(&list, 3), "");
}

#[test]
fn splitting_a_joined_list_gives_the_list_back() {
    let list = vec!["hello".to_string(), "to".to_string(), "two".to_string()];
    assert_eq!(split_words(&join_from(&list, 0), Spacing::Ascii), list);
}

#[test]
fn trim_text_agrees_with_std() {
    let samples = ["  quit \n", "quit", "", "   ", "\u{a0}a b\u{3000}", " file -u bob a.txt\r\n"];
    for sample in samples {
        assert_eq!(trim_text(sample, Spacing::Unicode), sample.trim());
    }
    assert_eq!(trim_text("\u{a0}a ", Spacing::Ascii), "\u{a0}a");
}

#[test]
fn find_word_gives_the_first_place_or_the_length() {
    let list = vec!["-u".to_string(), "-t".to_string(), "x".to_string(), "-t".to_string()];
    assert_eq!(find_word(&list, "-t"), 1);
    assert_eq!(find_word(&list, "-u"), 0);
    assert_eq!(find_word(&list, "y"), 4);
}

#[test]
fn text_helpers_work_on_characters_not_bytes() {
    let chars = chars_of("na\u{ef}ve");
    assert_eq!(chars.len(), 5);
    assert_eq!(text_of(&chars, 1, 4), "a\u{ef}v");
    assert!(is_text("caf\u{e9}", "caf\u{e9}"));
    assert!(!is_text("cafe", "caf\u{e9}"));
    assert!(has_prefix("Filename: a.txt", "Filename:"));
    assert!(!has_prefix("Filename", "Filename:"));
    assert!(has_prefix("abc", ""));
}
