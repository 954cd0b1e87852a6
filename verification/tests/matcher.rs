use rana::matcher::{
    classify_similarity, find_prefix, find_suffix, match_difficulty, match_hex_prefix, match_pair,
    match_suffix, strip_tag, tagged_body, MatchOutcome,
};
use rana::similarity::Similarity;

fn matcher_strings(items: &[&str]) -> Vec<String> {
    items.iter().map(|s| s.to_string()).collect()
}

fn matcher_exact(label: &str, leading_zero_bits: u8) -> MatchOutcome {
    MatchOutcome::ExactMatch { label: label.to_string(), leading_zero_bits }
}

#[test]
fn difficulty_equal_to_the_best_does_not_match() {
    for best in [0u8, 1, 10, 200, 254] {
        assert_eq!(match_difficulty(best, best), MatchOutcome::NoMatch);
        assert_eq!(match_difficulty(best + 1, best), matcher_exact("", best + 1));
    }
    assert_eq!(match_difficulty(255, 255), MatchOutcome::NoMatch);
    assert_eq!(match_difficulty(0, 0), MatchOutcome::NoMatch);
    assert_eq!(match_difficulty(9, 10), MatchOutcome::NoMatch);
    assert_eq!(match_difficulty(255, 0), matcher_exact("", 255));
}

#[test]
fn hex_prefix_matches_the_start_of_the_key() {
    let key = "00abcdef0123456789abcdef0123456789abcdef0123456789abcdef01234567";
    assert_eq!(match_hex_prefix(key, "00ab"), matcher_exact("", 0));
    assert_eq!(match_hex_prefix(key, "0"), matcher_exact("", 0));
    assert_eq!(match_hex_prefix(key, key), matcher_exact("", 0));
    assert_eq!(match_hex_prefix(key, ""), matcher_exact("", 0));
}

#[test]
fn hex_prefix_does_not_match_another_start() {
    let key = "00ac0def0123456789abcdef0123456789abcdef0123456789abcdef01234567";
    assert_eq!(match_hex_prefix(key, "00ab"), MatchOutcome::NoMatch);
    assert_eq!(match_hex_prefix(key, "0ac"), MatchOutcome::NoMatch);
    assert_eq!(match_hex_prefix(key, "00AC"), MatchOutcome::NoMatch);
    assert_eq!(match_hex_prefix("00a", "00ab"), MatchOutcome::NoMatch);
    assert_eq!(match_hex_prefix("", "0"), MatchOutcome::NoMatch);
}

#[test]
fn tag_is_stripped_from_encoded_keys() {
    assert_eq!(strip_tag("npub1cafe0000babe"), "cafe0000babe");
    assert_eq!(strip_tag("npub1"), "");
    assert_eq!(strip_tag("npub"), "");
    assert_eq!(strip_tag("nsec1cafe"), "");
    assert_eq!(strip_tag(""), "");
    assert_eq!(strip_tag("xnpub1cafe"), "");
}

#[test]
fn missing_tag_is_told_from_an_empty_body() {
    assert_eq!(tagged_body("npub1cafe"), Some("cafe"));
    assert_eq!(tagged_body("npub1"), Some(""));
    assert_eq!(tagged_body("npub"), None);
    assert_eq!(tagged_body("cafe"), None);
    assert_eq!(tagged_body(""), None);
    assert_eq!(find_prefix("cafe", &matcher_strings(&["", "cafe"])), None);
    assert_eq!(find_prefix("npub1cafe", &matcher_strings(&["", "cafe"])), Some(0));
}

#[test]
fn prefix_and_suffix_are_both_required() {
    let prefixes = matcher_strings(&["cafe"]);
    let suffixes = matcher_strings(&["babe"]);
    assert_eq!(
        match_pair("npub1cafe0123456789babe", &prefixes, &suffixes),
        matcher_exact("cafe...babe", 0)
    );
    assert_eq!(match_pair("npub1cafe0123456789dead", &prefixes, &suffixes), MatchOutcome::NoMatch);
    assert_eq!(match_pair("npub1dead0123456789babe", &prefixes, &suffixes), MatchOutcome::NoMatch);
    assert_eq!(match_pair("npub1dead0123456789dead", &prefixes, &suffixes), MatchOutcome::NoMatch);
    assert_eq!(match_pair("cafe0123456789babe", &prefixes, &suffixes), MatchOutcome::NoMatch);
}

#[test]
fn first_fitting_pair_gives_the_label() {
    let prefixes = matcher_strings(&["dead", "ca", "cafe"]);
    let suffixes = matcher_strings(&["zz", "abe", "babe", "e"]);
    assert_eq!(
        match_pair("npub1cafe0123456789babe", &prefixes, &suffixes),
        matcher_exact("ca...abe", 0)
    );
    assert_eq!(find_prefix("npub1cafe0123456789babe", &prefixes), Some(1));
    assert_eq!(find_suffix("npub1cafe0123456789babe", &suffixes), Some(1));
    assert_eq!(find_prefix("npub1beef", &prefixes), None);
    assert_eq!(find_suffix("npub1beef", &matcher_strings(&["zz"])), None);
    assert_eq!(find_prefix("npub1beef", &matcher_strings(&[])), None);
    assert_eq!(find_suffix("npub1beef", &matcher_strings(&[])), None);
}

#[test]
fn prefix_may_overlap_suffix() {
    let prefixes = matcher_strings(&["cafe"]);
    let suffixes = matcher_strings(&["afe"]);
    assert_eq!(match_pair("npub1cafe", &prefixes, &suffixes), matcher_exact("cafe...afe", 0));
}

#[test]
fn suffix_alone_matches_the_end_of_the_key() {
    let suffixes = matcher_strings(&["dead", "babe", "e"]);
    assert_eq!(match_suffix("npub1cafe0123456789babe", &suffixes), matcher_exact("babe", 0));
    assert_eq!(match_suffix("npub1cafe0123456789dead", &suffixes), matcher_exact("dead", 0));
    assert_eq!(match_suffix("npub1cafe0123456789cafe", &suffixes), matcher_exact("e", 0));
    assert_eq!(match_suffix("npub1cafe0123456789", &suffixes), MatchOutcome::NoMatch);
    assert_eq!(match_suffix("be", &matcher_strings(&["babe"])), MatchOutcome::NoMatch);
    assert_eq!(match_suffix("npub1cafe", &matcher_strings(&[])), MatchOutcome::NoMatch);
}

#[test]
fn similarity_is_reported_by_band() {
    let exact = Similarity { matching: 4, total: 4 };
    let near = Similarity { matching: 3, total: 4 };
    let far = Similarity { matching: 2, total: 4 };
    assert_eq!(classify_similarity(exact, "cafe", "cafe01"), matcher_exact("cafe", 0));
    assert_eq!(
        classify_similarity(near, "cafe", "caf001"),
        MatchOutcome::NearMatch {
            similarity: near,
            target: "cafe".to_string(),
            body: "caf001".to_string()
        }
    );
    assert_eq!(classify_similarity(far, "cafe", "ca0001"), MatchOutcome::NoMatch);
    assert_eq!(classify_similarity(Similarity::zero(), "cafe", "000001"), MatchOutcome::NoMatch);
}
