use estrange::text::{
    chars_of, clean_edited_text, contains_ignoring_case, fold_char, hex_encode, is_whitespace,
    trim_text, word_count,
};

fn chars(s: &str) -> Vec<char> {
    s.chars().collect()
}

fn reference_clean(content: &str) -> String {
    content
        .lines()
        .filter(|line| !line.trim_start().starts_with('#'))
        .collect::<Vec<_>>()
        .join("\n")
        .trim()
        .to_string()
}

#[test]
fn chars_of_keeps_every_character() {
    assert_eq!(chars_of("héllo ✨"), chars("héllo ✨"));
    assert_eq!(chars_of(""), Vec::<char>::new());
}

#[test]
fn whitespace_agrees_with_the_standard_library_on_every_character() {
    let mut n: u32 = 0;
    while n <= 0x10FFFF {
        if let Some(c) = char::from_u32(n) {
            assert_eq!(is_whitespace(c), c.is_whitespace(), "code point {:#x}", n);
        }
        n += 1;
    }
}

#[test]
fn word_count_counts_runs_of_non_whitespace() {
    assert_eq!(word_count(""), 0);
    assert_eq!(word_count("   \t\n "), 0);
    assert_eq!(word_count("one"), 1);
    assert_eq!(word_count("  two   words  "), 2);
    assert_eq!(word_count("Viridian-grey, the color of..."), 4);
    assert_eq!(word_count("a\u{00A0}b\u{3000}c\nd"), 4);
}

#[test]
fn word_count_agrees_with_split_whitespace() {
    let samples = [
        "",
        " ",
        "x",
        " lead",
        "trail ",
        "tab\tseparated\twords",
        "multi\n\nline\r\ntext here",
        "unicode \u{2003}spaces\u{2028}count",
    ];
    for s in samples {
        assert_eq!(word_count(s), s.split_whitespace().count(), "{:?}", s);
    }
}

#[test]
fn fold_char_lowers_only_ascii_capitals() {
    assert_eq!(fold_char('A'), 'a');
    assert_eq!(fold_char('Z'), 'z');
    assert_eq!(fold_char('q'), 'q');
    assert_eq!(fold_char('@'), '@');
    assert_eq!(fold_char('['), '[');
    assert_eq!(fold_char('É'), 'É');
    assert_eq!(fold_char('7'), '7');
}

#[test]
fn contains_ignoring_case_finds_substrings() {
    assert!(contains_ignoring_case(&chars("Describe a COLOR"), &chars("color")));
    assert!(contains_ignoring_case(&chars("describe a color"), &chars("A CoL")));
    assert!(contains_ignoring_case(&chars("abc"), &chars("abc")));
    assert!(contains_ignoring_case(&chars("abc"), &chars("c")));
    assert!(!contains_ignoring_case(&chars("abc"), &chars("abcd")));
    assert!(!contains_ignoring_case(&chars("abc"), &chars("ac")));
    assert!(!contains_ignoring_case(&chars(""), &chars("a")));
}

#[test]
fn empty_needle_is_found_everywhere() {
    assert!(contains_ignoring_case(&chars("abc"), &chars("")));
    assert!(contains_ignoring_case(&chars(""), &chars("")));
}

#[test]
fn hex_encode_writes_two_lowercase_digits_per_byte() {
    assert_eq!(hex_encode(&vec![]), "");
    assert_eq!(hex_encode(&vec![0x00, 0x0f, 0xa5, 0xff]), "000fa5ff");
    assert_eq!(hex_encode(&vec![0x12, 0x34, 0xab, 0xcd, 0xef]), "1234abcdef");
}

#[test]
fn trim_text_agrees_with_the_standard_library() {
    let samples = ["", "   ", "a", "  a b  ", "\t\nx y\r\n", "\u{3000}wide\u{00A0}", "no-trim"];
    for s in samples {
        assert_eq!(trim_text(s), s.trim(), "{:?}", s);
    }
}

#[test]
fn clean_edited_text_drops_comment_lines() {
    let content = "# Creative Response Entry\n# Disruption: x\n\nMy answer\nspans lines\n   # indented comment\nend\n";
    assert_eq!(clean_edited_text(content), "My answer\nspans lines\nend");
}

#[test]
fn clean_edited_text_of_only_comments_is_empty() {
    assert_eq!(clean_edited_text("# one\n# two\n\n"), "");
    assert_eq!(clean_edited_text(""), "");
    assert_eq!(clean_edited_text("#"), "");
}

#[test]
fn clean_edited_text_agrees_with_the_line_iterator() {
    let samples = [
        "",
        "\n",
        "a",
        "a\n",
        "a\n\n",
        "a\r\nb\r\n",
        "a\rb\n",
        "a\n#c\nb",
        "#c\r\na\r",
        "  #c\n  a  \n\n  b  \n",
        "x\n\n\ny",
        "\r\n\r\nz\r\n#\r\n",
        "tail\r",
        "#only",
        "a\n # c \n\nb\n#d",
    ];
    for s in samples {
        assert_eq!(clean_edited_text(s), reference_clean(s), "{:?}", s);
    }
}
