use wurst_deps::text::{
    char_is_whitespace, chars_of, decimal_text, insert_newlines, optional_to_string_or_empty,
    pad_right, string_of, truncate_line, DESCRIPTION_WIDTH, ELLIPSIS, LINE_BREAK,
};

/// Wrapping as a fold over the characters, for texts in which every
/// character is one byte long.
fn wrapped_by_fold(s: &str, interval: usize) -> String {
    let mut out = String::new();
    let mut count = 0;
    for ch in s.chars() {
        if count >= interval && ch.is_whitespace() {
            out.push('\n');
            count = 0;
        } else {
            out.push(ch);
            count += 1;
        }
    }
    out
}

fn cut_by_iterators(s: &str) -> String {
    s.chars()
        .enumerate()
        .map(|(idx, chr)| if idx == 59 { '\u{2026}' } else { chr })
        .take(60)
        .collect::<String>()
}

#[test]
fn whitespace_is_the_unicode_property_for_every_char() {
    let mut code: u32 = 0;
    while code <= 0x10FFFF {
        if let Some(c) = char::from_u32(code) {
            assert_eq!(char_is_whitespace(c), c.is_whitespace(), "U+{:04X}", code);
        }
        code += 1;
    }
}

#[test]
fn line_break_and_ellipsis_are_what_they_are() {
    assert_eq!(LINE_BREAK, '\n');
    assert_eq!(ELLIPSIS, '\u{2026}');
    assert_eq!(DESCRIPTION_WIDTH, 60);
}

#[test]
fn chars_and_string_round_trip() {
    let text = "a\u{e9}\u{2026} z";
    assert_eq!(chars_of(text), vec!['a', '\u{e9}', '\u{2026}', ' ', 'z']);
    assert_eq!(string_of(&chars_of(text)), text);
    assert_eq!(chars_of(""), Vec::<char>::new());
}

#[test]
fn wrap_breaks_at_first_whitespace_at_or_after_interval() {
    assert_eq!(insert_newlines("ab cd", 2), "ab\ncd");
    assert_eq!(insert_newlines("ab cd", 3), "ab cd");
    assert_eq!(insert_newlines("abc def ghi", 3), "abc\ndef\nghi");
    assert_eq!(insert_newlines("a b c d e f", 3), "a b\nc d\ne f");
}

#[test]
fn wrap_never_splits_a_word() {
    assert_eq!(insert_newlines("abcdefgh ij", 3), "abcdefgh\nij");
    assert_eq!(insert_newlines("abcdefgh", 3), "abcdefgh");
}

#[test]
fn wrap_keeps_length_and_changes_only_whitespace() {
    let text = "The quick brown fox jumps over the lazy dog and keeps running through the forest until night falls";
    let out = insert_newlines(text, 10);
    assert_eq!(out.chars().count(), text.chars().count());
    for (a, b) in text.chars().zip(out.chars()) {
        assert!(a == b || (a.is_whitespace() && b == '\n'));
    }
}

#[test]
fn wrap_at_sixty_gives_expected_text() {
    let text = "A library that wraps several native functions in one convenient package for maps";
    let out = insert_newlines(text, 60);
    assert_eq!(
        out,
        "A library that wraps several native functions in one convenient\npackage for maps"
    );
}

#[test]
fn wrap_line_is_exactly_sixty_where_whitespace_stands_at_sixty() {
    let first = "x".repeat(60);
    let text = format!("{} {} tail", first, first);
    let out = insert_newlines(&text, 60);
    assert_eq!(out, format!("{}\n{}\ntail", first, first));
    for line in out.split('\n') {
        assert!(line.chars().count() <= 60);
    }
}

#[test]
fn wrap_after_a_long_word_breaks_at_its_end() {
    let word = "y".repeat(75);
    let text = format!("{} and more", word);
    assert_eq!(insert_newlines(&text, 60), format!("{}\nand more", word));
}

#[test]
fn wrap_short_and_empty_text_unchanged() {
    assert_eq!(insert_newlines("", 60), "");
    assert_eq!(insert_newlines("short text", 60), "short text");
    let sixty = "z".repeat(60);
    assert_eq!(insert_newlines(&sixty, 60), sixty);
}

#[test]
fn wrap_with_interval_zero_turns_every_whitespace_into_a_break() {
    assert_eq!(insert_newlines("a b\tc", 0), "a\nb\nc");
}

#[test]
fn wrap_counts_an_earlier_line_break_as_a_character() {
    assert_eq!(insert_newlines("ab\ncd ef", 4), "ab\ncd\nef");
    assert_eq!(insert_newlines("ab\ncd ef", 6), "ab\ncd ef");
}

#[test]
fn wrap_counts_characters() {
    assert_eq!(insert_newlines("\u{e9}\u{e9} \u{e9}\u{e9} \u{e9}", 5), "\u{e9}\u{e9} \u{e9}\u{e9}\n\u{e9}");
}

#[test]
fn wrap_agrees_with_the_fold() {
    let samples = [
        "",
        "one",
        "one two three four five six seven eight nine ten eleven twelve thirteen",
        "tabs\tand\nnewlines and   runs   of   spaces in a text that goes on and on and on",
        "averyveryveryveryveryveryveryveryveryveryveryveryveryveryverylongword then words",
    ];
    for sample in samples {
        for interval in [0usize, 1, 5, 20, 60, 200] {
            assert_eq!(insert_newlines(sample, interval), wrapped_by_fold(sample, interval));
        }
    }
}

#[test]
fn truncate_long_text_is_sixty_characters_ending_in_the_marker() {
    let text = "A library that wraps several native functions in one convenient package for maps";
    let out = truncate_line(text, 60);
    assert_eq!(out.chars().count(), 60);
    assert_eq!(out.chars().nth(59), Some('\u{2026}'));
    assert_eq!(
        out,
        "A library that wraps several native functions in one conven\u{2026}"
    );
}

#[test]
fn truncate_text_of_exactly_the_width_ends_in_the_marker() {
    let text = "q".repeat(60);
    let out = truncate_line(&text, 60);
    assert_eq!(out, format!("{}\u{2026}", "q".repeat(59)));
}

#[test]
fn truncate_short_text_unchanged() {
    assert_eq!(truncate_line("", 60), "");
    assert_eq!(truncate_line("short", 60), "short");
    let text = "r".repeat(59);
    assert_eq!(truncate_line(&text, 60), text);
}

#[test]
fn truncate_small_widths() {
    assert_eq!(truncate_line("abcdef", 3), "ab\u{2026}");
    assert_eq!(truncate_line("abcdef", 1), "\u{2026}");
    assert_eq!(truncate_line("abcdef", 0), "");
}

#[test]
fn truncate_agrees_with_the_iterators() {
    let long = "w".repeat(200);
    let samples = [
        "",
        "one",
        "one two three four five six seven eight nine ten eleven twelve thirteen",
        "\u{e9}t\u{e9} \u{2026} and some more text that runs past the sixtieth character of the line",
        long.as_str(),
    ];
    for sample in samples {
        assert_eq!(truncate_line(sample, 60), cut_by_iterators(sample));
    }
}

#[test]
fn truncate_is_the_same_before_and_after_wrapping() {
    let text = "one two three four five six seven eight nine ten eleven twelve thirteen fourteen";
    assert_eq!(truncate_line(&insert_newlines(text, 60), 60), truncate_line(text, 60));
}

#[test]
fn pad_right_fills_with_spaces() {
    assert_eq!(pad_right("ab", 4), "ab  ");
    assert_eq!(pad_right("abcd", 4), "abcd");
    assert_eq!(pad_right("abcdef", 4), "abcdef");
    assert_eq!(pad_right("", 0), "");
    assert_eq!(pad_right("URL", 60), format!("{:60}", "URL"));
    assert_eq!(pad_right("\u{e9}\u{e9}", 5), format!("{:5}", "\u{e9}\u{e9}"));
}

#[test]
fn decimal_text_is_the_decimal_notation() {
    assert_eq!(decimal_text(0), "0");
    assert_eq!(decimal_text(7), "7");
    assert_eq!(decimal_text(10), "10");
    assert_eq!(decimal_text(105), "105");
    assert_eq!(decimal_text(1234567890), "1234567890");
    assert_eq!(decimal_text(u64::MAX), "18446744073709551615");
    for n in [9u64, 11, 99, 100, 101, 999, 1000, 4294967295, 4294967296] {
        assert_eq!(decimal_text(n), n.to_string());
    }
}

#[test]
fn optional_text_or_empty() {
    assert_eq!(optional_to_string_or_empty(Some(String::from("text"))), "text");
    assert_eq!(optional_to_string_or_empty(Some(String::new())), "");
    assert_eq!(optional_to_string_or_empty(None), "");
}
