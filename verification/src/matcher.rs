//! Deciding whether one candidate satisfies the criteria of a session.

use vstd::prelude::*;
use crate::cli::texts;
use crate::similarity::{similarity_of, Similarity};
use crate::text::{
    chars_of,
    ends_with,
    lemma_prefix_iff_common_prefix,
    starts_with,
};

verus! {

/// The result of holding one candidate against the criteria.
#[derive(Debug, PartialEq, Eq)]
pub enum MatchOutcome {
    /// The candidate is of no interest.
    NoMatch,
    /// The encoded key, whose part after the tag is `body`, resembles the
    /// prefix `target` closely, without reproducing all of it.
    NearMatch { similarity: Similarity, target: String, body: String },
    /// The candidate satisfies the criteria. `label` names the pattern that
    /// it matched, if it matched one of the encoded form;
    /// `leading_zero_bits` is its count in a search by difficulty, else zero.
    ExactMatch { label: String, leading_zero_bits: u8 },
}

/// An outcome, as plain values.
pub enum OutcomeView {
    NoMatch,
    NearMatch { similarity: Similarity, target: Seq<char>, body: Seq<char> },
    ExactMatch { label: Seq<char>, leading_zero_bits: u8 },
}

impl View for MatchOutcome {
    type V = OutcomeView;

    open spec fn view(&self) -> OutcomeView {
        match self {
            MatchOutcome::NoMatch => OutcomeView::NoMatch,
            MatchOutcome::NearMatch { similarity, target, body } => OutcomeView::NearMatch {
                similarity: *similarity,
                target: target@,
                body: body@,
            },
            MatchOutcome::ExactMatch { label, leading_zero_bits } => OutcomeView::ExactMatch {
                label: label@,
                leading_zero_bits: *leading_zero_bits,
            },
        }
    }
}

/// The tag that every encoded public key starts with.
pub open spec fn npub_tag() -> Seq<char> {
    seq!['n', 'p', 'u', 'b', '1']
}

/// What separates prefix and suffix in the label of a match on both.
pub open spec fn label_gap() -> Seq<char> {
    seq!['.', '.', '.']
}

/// The encoded key without its tag; empty where the tag is missing.
pub open spec fn npub_body(encoded: Seq<char>) -> Seq<char> {
    if npub_tag().is_prefix_of(encoded) {
        encoded.skip(npub_tag().len() as int)
    } else {
        Seq::<char>::empty()
    }
}

/// In a search by difficulty a candidate matches when its count of leading
/// zero bits is strictly greater than the best count so far.
pub open spec fn difficulty_outcome(z: u8, best: u8) -> OutcomeView {
    if z > best {
        OutcomeView::ExactMatch { label: Seq::<char>::empty(), leading_zero_bits: z }
    } else {
        OutcomeView::NoMatch
    }
}

/// In a search by hexadecimal prefix a candidate matches when the
/// hexadecimal form of its public key starts with the prefix.
pub open spec fn hex_prefix_outcome(hex: Seq<char>, prefix: Seq<char>) -> OutcomeView {
    if prefix.is_prefix_of(hex) {
        OutcomeView::ExactMatch { label: Seq::<char>::empty(), leading_zero_bits: 0 }
    } else {
        OutcomeView::NoMatch
    }
}

/// The encoded key starts with the tag followed by `prefix`.
pub open spec fn prefix_hit(encoded: Seq<char>, prefix: Seq<char>) -> bool {
    (npub_tag() + prefix).is_prefix_of(encoded)
}

/// The encoded key ends with `suffix`.
pub open spec fn suffix_hit(encoded: Seq<char>, suffix: Seq<char>) -> bool {
    suffix.is_suffix_of(encoded)
}

/// Position of the first prefix at or after `from` that the encoded key
/// starts with, after its tag.
pub open spec fn first_prefix_hit(encoded: Seq<char>, prefixes: Seq<Seq<char>>, from: int) -> Option<
    int,
>
    decreases prefixes.len() - from,
{
    if from < 0 || from >= prefixes.len() {
        None
    } else if prefix_hit(encoded, prefixes[from]) {
        Some(from)
    } else {
        first_prefix_hit(encoded, prefixes, from + 1)
    }
}

/// Position of the first suffix at or after `from` that the encoded key ends
/// with.
pub open spec fn first_suffix_hit(encoded: Seq<char>, suffixes: Seq<Seq<char>>, from: int) -> Option<
    int,
>
    decreases suffixes.len() - from,
{
    if from < 0 || from >= suffixes.len() {
        None
    } else if suffix_hit(encoded, suffixes[from]) {
        Some(from)
    } else {
        first_suffix_hit(encoded, suffixes, from + 1)
    }
}

/// In a search by both prefixes and suffixes a candidate matches when its
/// encoded key starts with a prefix and ends with a suffix; the label joins
/// the first such prefix and the first such suffix.
pub open spec fn pair_outcome(
    encoded: Seq<char>,
    prefixes: Seq<Seq<char>>,
    suffixes: Seq<Seq<char>>,
) -> OutcomeView {
    match (first_prefix_hit(encoded, prefixes, 0), first_suffix_hit(encoded, suffixes, 0)) {
        (Some(i), Some(j)) => OutcomeView::ExactMatch {
            label: prefixes[i] + label_gap() + suffixes[j],
            leading_zero_bits: 0,
        },
        _ => OutcomeView::NoMatch,
    }
}

/// In a search by suffixes alone a candidate matches when its encoded key
/// ends with a suffix; the label is the first such suffix.
pub open spec fn suffix_outcome(encoded: Seq<char>, suffixes: Seq<Seq<char>>) -> OutcomeView {
    match first_suffix_hit(encoded, suffixes, 0) {
        Some(j) => OutcomeView::ExactMatch { label: suffixes[j], leading_zero_bits: 0 },
        None => OutcomeView::NoMatch,
    }
}

/// What a score that has just become the best one is reported as: an exact
/// match at 100 percent, a near match from 75 percent on, nothing below.
pub open spec fn fuzzy_outcome(score: Similarity, target: Seq<char>, body: Seq<char>) -> OutcomeView {
    if score.is_exact_spec() {
        OutcomeView::ExactMatch { label: target, leading_zero_bits: 0 }
    } else if score.is_near_spec() {
        OutcomeView::NearMatch { similarity: score, target, body }
    } else {
        OutcomeView::NoMatch
    }
}

/// A candidate with exactly the best count of leading zero bits does not
/// match; one with a single bit more does.
pub proof fn lemma_difficulty_is_strict(best: u8)
    ensures
        difficulty_outcome(best, best) is NoMatch,
        best < u8::MAX ==> difficulty_outcome((best + 1) as u8, best) is ExactMatch,
        forall|z: u8| difficulty_outcome(z, best) is ExactMatch <==> z > best,
{
}

/// What is found at or after `from` is the first hit there: it is a hit, and
/// nothing between `from` and it is one.
pub proof fn lemma_first_prefix_hit(encoded: Seq<char>, prefixes: Seq<Seq<char>>, from: int)
    requires
        0 <= from,
    ensures
        match first_prefix_hit(encoded, prefixes, from) {
            Some(i) => from <= i < prefixes.len() && prefix_hit(encoded, prefixes[i]) && forall|
                k: int,
            |
                from <= k < i ==> !prefix_hit(encoded, #[trigger] prefixes[k]),
            None => forall|k: int|
                from <= k < prefixes.len() ==> !prefix_hit(encoded, #[trigger] prefixes[k]),
        },
    decreases prefixes.len() - from,
{
    if from < prefixes.len() && !prefix_hit(encoded, prefixes[from]) {
        lemma_first_prefix_hit(encoded, prefixes, from + 1);
    }
}

/// What is found at or after `from` is the first hit there: it is a hit, and
/// nothing between `from` and it is one.
pub proof fn lemma_first_suffix_hit(encoded: Seq<char>, suffixes: Seq<Seq<char>>, from: int)
    requires
        0 <= from,
    ensures
        match first_suffix_hit(encoded, suffixes, from) {
            Some(j) => from <= j < suffixes.len() && suffix_hit(encoded, suffixes[j]) && forall|
                k: int,
            |
                from <= k < j ==> !suffix_hit(encoded, #[trigger] suffixes[k]),
            None => forall|k: int|
                from <= k < suffixes.len() ==> !suffix_hit(encoded, #[trigger] suffixes[k]),
        },
    decreases suffixes.len() - from,
{
    if from < suffixes.len() && !suffix_hit(encoded, suffixes[from]) {
        lemma_first_suffix_hit(encoded, suffixes, from + 1);
    }
}

/// A match on both lists is on the first pair, in the order of the
/// configuration, whose prefix and suffix both fit: no pair with an earlier
/// prefix fits, nor one with the same prefix and an earlier suffix. Where no
/// pair fits at all, there is no match.
pub proof fn lemma_pair_is_first_in_order(
    encoded: Seq<char>,
    prefixes: Seq<Seq<char>>,
    suffixes: Seq<Seq<char>>,
)
    ensures
        match (first_prefix_hit(encoded, prefixes, 0), first_suffix_hit(encoded, suffixes, 0)) {
            (Some(i), Some(j)) => {
                &&& 0 <= i < prefixes.len() && 0 <= j < suffixes.len()
                &&& prefix_hit(encoded, prefixes[i]) && suffix_hit(encoded, suffixes[j])
                &&& forall|a: int, b: int|
                    0 <= a < prefixes.len() && 0 <= b < suffixes.len() && (a < i || (a == i && b
                        < j)) ==> !(prefix_hit(encoded, #[trigger] prefixes[a]) && suffix_hit(
                        encoded,
                        #[trigger] suffixes[b],
                    ))
            },
            _ => forall|a: int, b: int|
                0 <= a < prefixes.len() && 0 <= b < suffixes.len() ==> !(prefix_hit(
                    encoded,
                    #[trigger] prefixes[a],
                ) && suffix_hit(encoded, #[trigger] suffixes[b])),
        },
{
    lemma_first_prefix_hit(encoded, prefixes, 0);
    lemma_first_suffix_hit(encoded, suffixes, 0);
}

/// Where both prefixes and suffixes are asked for, a key matches exactly
/// when it fits a prefix and fits a suffix: one that fits a prefix only, or a
/// suffix only, does not match.
pub proof fn lemma_pair_needs_both(
    encoded: Seq<char>,
    prefixes: Seq<Seq<char>>,
    suffixes: Seq<Seq<char>>,
)
    ensures
        pair_outcome(encoded, prefixes, suffixes) is ExactMatch <==> (exists|i: int|
            0 <= i < prefixes.len() && prefix_hit(encoded, #[trigger] prefixes[i])) && (exists|
            j: int,
        |
            0 <= j < suffixes.len() && suffix_hit(encoded, #[trigger] suffixes[j])),
        !(pair_outcome(encoded, prefixes, suffixes) is NearMatch),
{
    lemma_first_prefix_hit(encoded, prefixes, 0);
    lemma_first_suffix_hit(encoded, suffixes, 0);
}

/// The report on a score follows its percentage: an exact match at 100
/// percent, a near match from 75 to 99 percent, none below 75 percent.
pub proof fn lemma_fuzzy_outcome_bands(score: Similarity, target: Seq<char>, body: Seq<char>)
    requires
        score.wf(),
    ensures
        fuzzy_outcome(score, target, body) is ExactMatch <==> score.percent_spec() == 100,
        fuzzy_outcome(score, target, body) is NearMatch <==> 75 <= score.percent_spec() < 100,
        fuzzy_outcome(score, target, body) is NoMatch <==> score.percent_spec() < 75,
{
    crate::similarity::lemma_bands_by_percent(score);
}

/// The encoded key starts with the tag and a prefix exactly when it starts
/// with the tag and its body starts with the prefix.
pub proof fn lemma_prefix_hit_by_body(encoded: Seq<char>, prefix: Seq<char>)
    ensures
        prefix_hit(encoded, prefix) <==> npub_tag().is_prefix_of(encoded) && prefix.is_prefix_of(
            npub_body(encoded),
        ),
{
    let tag = npub_tag();
    let whole = tag + prefix;
    if prefix_hit(encoded, prefix) {
        let head = encoded.subrange(0, whole.len() as int);
        assert(tag =~= encoded.subrange(0, tag.len() as int)) by {
            assert forall|k: int| 0 <= k < tag.len() implies tag[k] == encoded[k] by {
                assert(whole[k] == head[k]);
            }
        }
        let body = npub_body(encoded);
        assert(prefix =~= body.subrange(0, prefix.len() as int)) by {
            assert forall|k: int| 0 <= k < prefix.len() implies prefix[k] == body[k] by {
                assert(whole[tag.len() + k] == head[tag.len() + k]);
            }
        }
    }
    if tag.is_prefix_of(encoded) && prefix.is_prefix_of(npub_body(encoded)) {
        let body = npub_body(encoded);
        assert(whole =~= encoded.subrange(0, whole.len() as int)) by {
            assert forall|k: int| 0 <= k < whole.len() implies whole[k] == encoded[k] by {
                if k < tag.len() {
                    assert(encoded.subrange(0, tag.len() as int)[k] == encoded[k]);
                } else {
                    assert(body.subrange(0, prefix.len() as int)[k - tag.len()] == body[k
                        - tag.len()]);
                }
            }
        }
    }
}

/// A prefix that is not empty scores 100 percent against the body of an
/// encoded key exactly when the key starts with the tag and that prefix.
pub proof fn lemma_exact_score_is_prefix_hit(encoded: Seq<char>, prefix: Seq<char>)
    requires
        0 < prefix.len() <= usize::MAX,
    ensures
        similarity_of(prefix, npub_body(encoded)).is_exact_spec() <==> prefix_hit(encoded, prefix),
{
    lemma_prefix_hit_by_body(encoded, prefix);
    lemma_prefix_iff_common_prefix(prefix, npub_body(encoded));
    crate::text::lemma_common_prefix_len_props(prefix, npub_body(encoded));
}

/// Holds a count of leading zero bits against the best count so far.
pub fn match_difficulty(z: u8, best: u8) -> (outcome: MatchOutcome)
    ensures
        outcome@ == difficulty_outcome(z, best),
{
    if z > best {
        MatchOutcome::ExactMatch { label: String::new(), leading_zero_bits: z }
    } else {
        MatchOutcome::NoMatch
    }
}

/// Holds the hexadecimal form of a public key against the wanted prefix.
pub fn match_hex_prefix(hex: &str, prefix: &str) -> (outcome: MatchOutcome)
    ensures
        outcome@ == hex_prefix_outcome(hex@, prefix@),
{
    let text = chars_of(hex);
    let wanted = chars_of(prefix);
    if starts_with(text.as_slice(), wanted.as_slice()) {
        MatchOutcome::ExactMatch { label: String::new(), leading_zero_bits: 0 }
    } else {
        MatchOutcome::NoMatch
    }
}

/// The encoded key without its tag, or `None` where the tag is missing.
pub fn tagged_body(encoded: &str) -> (body: Option<&str>)
    ensures
        body is Some <==> npub_tag().is_prefix_of(encoded@),
        body matches Some(b) ==> b@ == npub_body(encoded@),
{
    proof {
        reveal_strlit("npub1");
        assert("npub1"@ =~= npub_tag());
    }
    let text = chars_of(encoded);
    let tag = chars_of("npub1");
    if starts_with(text.as_slice(), tag.as_slice()) {
        Some(encoded.substring_char(tag.len(), text.len()))
    } else {
        None
    }
}

/// The encoded key without its tag; empty where the tag is missing.
pub fn strip_tag(encoded: &str) -> (body: &str)
    ensures
        body@ == npub_body(encoded@),
{
    proof {
        reveal_strlit("");
        assert(""@ =~= Seq::<char>::empty());
    }
    match tagged_body(encoded) {
        Some(body) => body,
        None => "",
    }
}

/// Finds the first prefix that the encoded key starts with, after its tag.
pub fn find_prefix(encoded: &str, prefixes: &Vec<String>) -> (found: Option<usize>)
    ensures
        match found {
            Some(i) => first_prefix_hit(encoded@, texts(prefixes@), 0) == Some(i as int),
            None => first_prefix_hit(encoded@, texts(prefixes@), 0) is None,
        },
{
    let body = match tagged_body(encoded) {
        Some(body) => chars_of(body),
        None => {
            proof {
                assert forall|k: int| 0 <= k < texts(prefixes@).len() implies !prefix_hit(
                    encoded@,
                    #[trigger] texts(prefixes@)[k],
                ) by {
                    lemma_prefix_hit_by_body(encoded@, texts(prefixes@)[k]);
                }
                lemma_first_prefix_hit(encoded@, texts(prefixes@), 0);
            }
            return None;
        },
    };
    let mut i: usize = 0;
    while i < prefixes.len()
        invariant
            i <= prefixes.len(),
            npub_tag().is_prefix_of(encoded@),
            body@ == npub_body(encoded@),
            first_prefix_hit(encoded@, texts(prefixes@), 0) == first_prefix_hit(
                encoded@,
                texts(prefixes@),
                i as int,
            ),
        decreases prefixes.len() - i,
    {
        let wanted = chars_of(prefixes[i].as_str());
        proof {
            assert(texts(prefixes@)[i as int] == prefixes@[i as int]@);
            lemma_prefix_hit_by_body(encoded@, wanted@);
        }
        if starts_with(body.as_slice(), wanted.as_slice()) {
            return Some(i);
        }
        i = i + 1;
    }
    None
}

/// Finds the first suffix that the encoded key ends with.
pub fn find_suffix(encoded: &str, suffixes: &Vec<String>) -> (found: Option<usize>)
    ensures
        match found {
            Some(j) => first_suffix_hit(encoded@, texts(suffixes@), 0) == Some(j as int),
            None => first_suffix_hit(encoded@, texts(suffixes@), 0) is None,
        },
{
    let text = chars_of(encoded);
    let mut j: usize = 0;
    while j < suffixes.len()
        invariant
            j <= suffixes.len(),
            text@ == encoded@,
            first_suffix_hit(encoded@, texts(suffixes@), 0) == first_suffix_hit(
                encoded@,
                texts(suffixes@),
                j as int,
            ),
        decreases suffixes.len() - j,
    {
        let wanted = chars_of(suffixes[j].as_str());
        proof {
            assert(texts(suffixes@)[j as int] == suffixes@[j as int]@);
        }
        if ends_with(text.as_slice(), wanted.as_slice()) {
            return Some(j);
        }
        j = j + 1;
    }
    None
}

/// Holds an encoded key against the wanted prefixes and suffixes, where both
/// are asked for.
pub fn match_pair(encoded: &str, prefixes: &Vec<String>, suffixes: &Vec<String>) -> (outcome:
    MatchOutcome)
    ensures
        outcome@ == pair_outcome(encoded@, texts(prefixes@), texts(suffixes@)),
{
    proof {
        reveal_strlit("...");
        assert("..."@ =~= label_gap());
        lemma_first_prefix_hit(encoded@, texts(prefixes@), 0);
        lemma_first_suffix_hit(encoded@, texts(suffixes@), 0);
    }
    match find_prefix(encoded, prefixes) {
        None => MatchOutcome::NoMatch,
        Some(i) => match find_suffix(encoded, suffixes) {
            None => MatchOutcome::NoMatch,
            Some(j) => {
                let label = prefixes[i].clone().concat("...").concat(suffixes[j].as_str());
                proof {
                    assert(texts(prefixes@)[i as int] == prefixes@[i as int]@);
                    assert(texts(suffixes@)[j as int] == suffixes@[j as int]@);
                }
                MatchOutcome::ExactMatch { label, leading_zero_bits: 0 }
            },
        },
    }
}

/// Holds an encoded key against the wanted suffixes, where no prefix is
/// asked for.
pub fn match_suffix(encoded: &str, suffixes: &Vec<String>) -> (outcome: MatchOutcome)
    ensures
        outcome@ == suffix_outcome(encoded@, texts(suffixes@)),
{
    proof {
        lemma_first_suffix_hit(encoded@, texts(suffixes@), 0);
    }
    match find_suffix(encoded, suffixes) {
        None => MatchOutcome::NoMatch,
        Some(j) => {
            proof {
                assert(texts(suffixes@)[j as int] == suffixes@[j as int]@);
            }
            MatchOutcome::ExactMatch { label: suffixes[j].clone(), leading_zero_bits: 0 }
        },
    }
}

/// Says what a score that has just become the best one is reported as.
pub fn classify_similarity(score: Similarity, target: &str, body: &str) -> (outcome: MatchOutcome)
    ensures
        outcome@ == fuzzy_outcome(score, target@, body@),
{
    if score.is_exact() {
        MatchOutcome::ExactMatch { label: target.to_owned(), leading_zero_bits: 0 }
    } else if score.is_near() {
        MatchOutcome::NearMatch { similarity: score, target: target.to_owned(), body: body.to_owned() }
    } else {
        MatchOutcome::NoMatch
    }
}

} // verus!
