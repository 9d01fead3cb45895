use csv_import::text::{
    chars_of, contains, copy_strings, decimal_text, split_lines, text_of, trim, white_space,
};

#[test]
fn white_space_agrees_with_std_on_every_character() {
    for code in 0u32..=0x10ffff {
        if let Some(c) = char::from_u32(code) {
            assert_eq!(white_space(c), c.is_whitespace(), "{:x}", code);
        }
    }
}

#[test]
fn trimming_agrees_with_std() {
    for text in [
        "", " ", "a", " a", "a ", " a b ", "\t\r\n x\u{3000}", "\u{a0}\u{2003}é\u{202f}", "\u{200b}x",
        "   \u{85}",
    ] {
        assert_eq!(trim(text), text.trim());
    }
}

#[test]
fn trimming_twice_is_trimming_once() {
    let once = trim("  \u{2009} Blue in Green \n");
    assert_eq!(once, "Blue in Green");
    assert_eq!(trim(&once), once);
}

#[test]
fn lines_agree_with_std() {
    for text in [
        "", "\n", "a", "a\n", "a\nb", "a\r\nb\r\n", "a\rb", "a\r", "\r\n", "\n\n", "a\n\r", "a\r\r\nb",
        "é\nü\r\n",
    ] {
        let expected: Vec<String> = text.lines().map(String::from).collect();
        assert_eq!(split_lines(text), expected, "{:?}", text);
    }
}

#[test]
fn final_line_ending_is_optional() {
    assert_eq!(split_lines("one\ntwo"), split_lines("one\r\ntwo\r\n"));
    assert_eq!(split_lines("one\ntwo").len(), 2);
}

#[test]
fn containing_agrees_with_std() {
    let texts = ["", "a", "ab", "aab", "abab", "track name", "the track", "café", "fé"];
    for whole in texts {
        for part in texts {
            assert_eq!(contains(whole, part), whole.contains(part), "{:?} {:?}", whole, part);
        }
    }
}

#[test]
fn decimal_numbers() {
    for n in [0usize, 7, 9, 10, 42, 100, 1009, 65535, usize::MAX] {
        assert_eq!(decimal_text(n), n.to_string());
    }
}

#[test]
fn characters_and_pieces_of_text() {
    let chars = chars_of("naïve");
    assert_eq!(chars, vec!['n', 'a', 'ï', 'v', 'e']);
    assert_eq!(text_of(&chars, 1, 4), "aïv");
    assert_eq!(text_of(&chars, 2, 2), "");
}

#[test]
fn copied_strings_are_the_same() {
    let strings = vec!["a".to_string(), "".to_string(), "b".to_string()];
    assert_eq!(copy_strings(&strings), strings);
}
