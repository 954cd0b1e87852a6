use rana::alphabet::{is_bech32_symbol, is_bech32_text, is_hex_digit, is_hex_text};
use regex::Regex;

#[test]
fn hex_alphabet_is_lowercase_hexadecimal() {
    for c in "0123456789abcdef".chars() {
        assert!(is_hex_digit(c));
    }
    for c in "ABCDEFgxyz -_/:@`\u{e9}".chars() {
        assert!(!is_hex_digit(c));
    }
}

#[test]
fn encoded_alphabet_has_32_symbols_without_1_b_i_o() {
    let symbols = "023456789acdefghjklmnpqrstuvwxyz";
    assert_eq!(symbols.chars().count(), 32);
    let mut count = 0;
    for code in 0..=0x7fu8 {
        let c = char::from(code);
        assert_eq!(is_bech32_symbol(c), symbols.contains(c));
        if is_bech32_symbol(c) {
            count += 1;
        }
    }
    assert_eq!(count, 32);
    for c in "1bio".chars() {
        assert!(!is_bech32_symbol(c));
    }
    assert!(!is_bech32_symbol('\u{e9}'));
}

#[test]
fn hex_text_accepts_the_empty_text() {
    assert!(is_hex_text(""));
    assert!(is_bech32_text(""));
}

#[test]
fn hex_text_rejects_a_single_foreign_character() {
    assert!(is_hex_text("00ab"));
    assert!(!is_hex_text("00ag"));
    assert!(!is_hex_text("g"));
    assert!(!is_hex_text("00AB"));
    assert!(!is_hex_text("00ab\n"));
    assert!(is_bech32_text("cafe"));
    assert!(!is_bech32_text("babe"));
    assert!(!is_bech32_text("caf\u{e9}"));
}

#[test]
fn alphabets_agree_with_the_patterns_they_stand_for() {
    let hex = Regex::new(r"^([0-9a-f]*)$").unwrap();
    let encoded = Regex::new(r"^([02-9ac-hj-np-z]*)$").unwrap();
    let samples = [
        "", "0", "f", "g", "00ab", "00ag", "cafe", "babe", "n0str", "1", "o", "i", "b", "z9",
        "ABC", "a b", "ab\n", "\nab", "\u{e9}", "deadbeef", "023456789acdefghjklmnpqrstuvwxyz",
        "0123456789abcdef", "q-", "aa,aa",
    ];
    for s in samples {
        assert_eq!(is_hex_text(s), hex.is_match(s), "hex {s:?}");
        assert_eq!(is_bech32_text(s), encoded.is_match(s), "encoded {s:?}");
    }
}
