use hack_asm::parsing::symbol::{char_is_symbol_char, char_is_symbol_start};
use hack_asm::text::{
    char_is_whitespace, is_letter, contains_char, copy_range, starts_with_at, to_chars, to_string,
};

#[test]
fn white_space_is_what_unicode_calls_white_space() {
    for code in 0..=0x10FFFFu32 {
        if let Some(c) = char::from_u32(code) {
            assert_eq!(char_is_whitespace(c), c.is_whitespace(), "U+{:04X}", code);
        }
    }
}

#[test]
fn symbols_are_made_of_letters_digits_and_four_signs() {
    for code in 0..=0x10FFFFu32 {
        if let Some(c) = char::from_u32(code) {
            assert_eq!(char_is_symbol_start(c), c.is_ascii_alphabetic(), "U+{:04X}", code);
            assert_eq!(
                char_is_symbol_char(c),
                c.is_ascii_alphanumeric() || "_.$:".contains(c),
                "U+{:04X}",
                code
            );
        }
    }
}

#[test]
fn a_text_is_the_sequence_of_its_characters() {
    assert_eq!(to_chars(""), Vec::<char>::new());
    assert_eq!(to_chars("a€b"), vec!['a', '€', 'b']);
    let chars = to_chars("héllo wörld");
    assert_eq!(chars.len(), 11);
    assert_eq!(to_string(&chars, 0, chars.len()), "héllo wörld");
    assert_eq!(to_string(&chars, 1, 5), "éllo");
    assert_eq!(to_string(&chars, 4, 4), "");
    assert_eq!(copy_range(&chars, 6, 11), vec!['w', 'ö', 'r', 'l', 'd']);
    assert_eq!(copy_range(&chars, 11, 11), Vec::<char>::new());
}

#[test]
fn a_text_begins_with_its_prefixes() {
    let hay = to_chars("abcabc");
    assert!(starts_with_at(&hay, 0, &to_chars("abc")));
    assert!(starts_with_at(&hay, 3, &to_chars("abc")));
    assert!(starts_with_at(&hay, 2, &to_chars("")));
    assert!(starts_with_at(&hay, 6, &to_chars("")));
    assert!(!starts_with_at(&hay, 1, &to_chars("abc")));
    assert!(!starts_with_at(&hay, 4, &to_chars("bca")));
    assert!(!starts_with_at(&hay, 6, &to_chars("a")));
    assert!(starts_with_at(&hay, 0, &to_chars("abcabc")));
    assert!(!starts_with_at(&hay, 0, &to_chars("abcabcd")));
}

#[test]
fn a_character_occurs_in_a_set_or_not() {
    let set = to_chars("ABC");
    assert!(contains_char(&set, 'A'));
    assert!(contains_char(&set, 'C'));
    assert!(!contains_char(&set, 'D'));
    assert!(!contains_char(&to_chars(""), 'A'));
}

#[test]
fn a_letter_is_its_capital_or_its_small_form() {
    for letter in 'A'..='Z' {
        for code in 0..=0x10FFFFu32 {
            if let Some(c) = char::from_u32(code) {
                assert_eq!(is_letter(c, letter), c.to_ascii_uppercase() == letter);
            }
        }
    }
}
