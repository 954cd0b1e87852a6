use rana::text::{chars_of, count_common_prefix, ends_with, starts_with};

fn text_chars(s: &str) -> Vec<char> {
    s.chars().collect()
}

#[test]
fn chars_of_gives_the_characters_in_order() {
    assert_eq!(chars_of(""), text_chars(""));
    assert_eq!(chars_of("npub1cafe"), text_chars("npub1cafe"));
    assert_eq!(chars_of("caf\u{e9}\u{1f438}"), vec!['c', 'a', 'f', '\u{e9}', '\u{1f438}']);
}

#[test]
fn common_prefix_is_counted_up_to_the_first_difference() {
    assert_eq!(count_common_prefix(&text_chars("abcdef"), &text_chars("abcxyz")), 3);
    assert_eq!(count_common_prefix(&text_chars("abc"), &text_chars("abc")), 3);
    assert_eq!(count_common_prefix(&text_chars("abc"), &text_chars("abcd")), 3);
    assert_eq!(count_common_prefix(&text_chars("abcd"), &text_chars("abc")), 3);
    assert_eq!(count_common_prefix(&text_chars("xbc"), &text_chars("abc")), 0);
    assert_eq!(count_common_prefix(&text_chars(""), &text_chars("abc")), 0);
    assert_eq!(count_common_prefix(&text_chars("abc"), &text_chars("")), 0);
}

#[test]
fn starts_and_ends_agree_with_std() {
    let texts = ["", "a", "ab", "abc", "abcabc", "npub1cafe00babe", "babe", "cafe"];
    for text in texts {
        for part in texts {
            let t = text_chars(text);
            let p = text_chars(part);
            assert_eq!(starts_with(&t, &p), text.starts_with(part), "{text:?} starts with {part:?}");
            assert_eq!(ends_with(&t, &p), text.ends_with(part), "{text:?} ends with {part:?}");
        }
    }
}
