//! What the operator asks for, and the rules that a request must meet before
//! any search starts.

use vstd::prelude::*;
use vstd::utf8::{encode_utf8, is_ascii_chars, is_ascii_chars_encode_utf8};
use crate::alphabet::{all_bech32, all_hex, is_bech32_text, is_hex_text};
use crate::text::chars_of;

verus! {

/// The longest hexadecimal prefix that can be asked for.
pub const MAX_HEX_PREFIX_LEN: usize = 64;

/// The longest prefix or suffix of the encoded form that can be asked for.
pub const MAX_AFFIX_LEN: usize = 59;

/// The operator's request, as given on the command line.
#[derive(Clone, Debug)]
pub struct CLIArgs {
    /// Number of leading bits that should be zero; 0 asks for none.
    pub difficulty: u8,
    /// Wanted prefix of the public key in hexadecimal.
    pub vanity_prefix: String,
    /// Wanted prefixes of the encoded public key, separated by commas.
    pub vanity_npub_prefixes_raw_input: String,
    /// Wanted suffixes of the encoded public key, separated by commas.
    pub vanity_npub_suffixes_raw_input: String,
    /// Number of workers.
    pub num_cores: usize,
    /// A mnemonic phrase whose key pair is to be shown.
    pub mnemonic: String,
    /// Number of words of the mnemonic phrases to draw keys from; 0 draws
    /// keys from randomness.
    pub word_count: usize,
    /// Passphrase that goes with the mnemonic phrases.
    pub mnemonic_passphrase: String,
    /// Keep the difficulty at its configured value instead of raising it with
    /// every find.
    pub no_scaling: bool,
    /// Show the secret key of a find as a QR code.
    pub qr: bool,
    /// Show the keys that did not match, too.
    pub verbose_output: bool,
}

/// Why a request is refused.
#[derive(Clone, Copy, Debug, PartialEq, Eq, Structural)]
pub enum ConfigError {
    /// More than one of difficulty, hexadecimal prefix and encoded prefixes
    /// or suffixes is asked for.
    MultipleRequirements,
    /// The hexadecimal prefix is longer than 64 bytes.
    HexPrefixTooLong,
    /// The hexadecimal prefix holds something else than `0-9a-f`.
    HexPrefixInvalidChar,
    /// An encoded prefix holds a character outside the encoded alphabet.
    NpubPrefixInvalidChar,
    /// An encoded prefix is longer than 59 bytes.
    NpubPrefixTooLong,
    /// An encoded suffix holds a character outside the encoded alphabet.
    NpubSuffixInvalidChar,
    /// An encoded suffix is longer than 59 bytes.
    NpubSuffixTooLong,
    /// No worker is asked for.
    NoCores,
    /// More workers are asked for than the machine can run in parallel.
    TooManyCores { available: usize, requested: usize },
}

/// What is wrong with one encoded prefix or suffix.
#[derive(Clone, Copy, Debug, PartialEq, Eq, Structural)]
pub enum AffixFault {
    /// It holds a character outside the encoded alphabet.
    InvalidChar,
    /// It is longer than 59 bytes.
    TooLong,
}

/// The character sequences of a list of strings.
pub open spec fn texts(list: Seq<String>) -> Seq<Seq<char>> {
    Seq::new(list.len(), |i: int| list[i]@)
}

/// Length of `s` in bytes, as the operator's text is stored.
pub open spec fn utf8_len(s: Seq<char>) -> nat {
    encode_utf8(s).len()
}

/// Position of the first comma of `s`, or its length if it has none.
pub open spec fn first_comma(s: Seq<char>) -> nat
    decreases s.len(),
{
    if s.len() == 0 || s[0] == ',' {
        0
    } else {
        1 + first_comma(s.drop_first())
    }
}

/// The patterns of a comma-separated list: the text before the first comma,
/// unless it is empty, followed by the patterns of the text after that comma.
pub open spec fn split_patterns_spec(s: Seq<char>) -> Seq<Seq<char>>
    decreases s.len(),
{
    if s.len() == 0 {
        Seq::<Seq<char>>::empty()
    } else {
        let k = first_comma(s);
        let rest = if k < s.len() {
            split_patterns_spec(s.skip(k as int + 1))
        } else {
            Seq::<Seq<char>>::empty()
        };
        if k == 0 {
            rest
        } else {
            seq![s.take(k as int)] + rest
        }
    }
}

/// `k` is the position of the first comma of `s` when no comma stands before
/// it and either `s` ends there or a comma stands there.
pub proof fn lemma_first_comma_is(s: Seq<char>, k: int)
    requires
        0 <= k <= s.len(),
        forall|j: int| 0 <= j < k ==> s[j] != ',',
        k == s.len() || s[k] == ',',
    ensures
        first_comma(s) == k,
    decreases k,
{
    if k > 0 {
        let rest = s.drop_first();
        assert forall|j: int| 0 <= j < k - 1 implies rest[j] != ',' by {
            assert(rest[j] == s[j + 1]);
        }
        if k < s.len() {
            assert(rest[k - 1] == s[k]);
        }
        lemma_first_comma_is(rest, k - 1);
    }
}

/// No comma stands before the first comma, which lies within the text.
pub proof fn lemma_first_comma_props(s: Seq<char>)
    ensures
        first_comma(s) <= s.len(),
        forall|j: int| 0 <= j < first_comma(s) ==> s[j] != ',',
        first_comma(s) < s.len() ==> s[first_comma(s) as int] == ',',
    decreases s.len(),
{
    if s.len() == 0 || s[0] == ',' {
    } else {
        let rest = s.drop_first();
        lemma_first_comma_props(rest);
        assert forall|j: int| 0 <= j < first_comma(s) implies s[j] != ',' by {
            if j > 0 {
                assert(rest[j - 1] == s[j]);
            }
        }
        if first_comma(s) < s.len() {
            assert(rest[first_comma(rest) as int] == s[first_comma(s) as int]);
        }
    }
}

/// No pattern of a comma-separated list is empty, and none holds a comma.
pub proof fn lemma_split_patterns_pieces(s: Seq<char>)
    ensures
        forall|i: int|
            0 <= i < split_patterns_spec(s).len() ==> (#[trigger] split_patterns_spec(s)[i]).len()
                > 0,
        forall|i: int, j: int|
            0 <= i < split_patterns_spec(s).len() && 0 <= j < split_patterns_spec(s)[i].len()
                ==> #[trigger] split_patterns_spec(s)[i][j] != ',',
    decreases s.len(),
{
    if s.len() > 0 {
        let k = first_comma(s);
        lemma_first_comma_props(s);
        let rest = if k < s.len() {
            split_patterns_spec(s.skip(k as int + 1))
        } else {
            Seq::<Seq<char>>::empty()
        };
        if k < s.len() {
            lemma_split_patterns_pieces(s.skip(k as int + 1));
        }
        let all = split_patterns_spec(s);
        assert forall|i: int| 0 <= i < all.len() implies (#[trigger] all[i]).len() > 0 && (forall|
            j: int,
        |
            0 <= j < all[i].len() ==> #[trigger] all[i][j] != ',') by {
            if k == 0 {
                assert(all[i] == rest[i]);
            } else if i == 0 {
                assert(all[0] == s.take(k as int));
            } else {
                assert(all[i] == rest[i - 1]);
            }
        }
    }
}

/// A text without commas is its own single pattern, unless it is empty.
pub proof fn lemma_split_patterns_single(s: Seq<char>)
    requires
        s.len() > 0,
        forall|j: int| 0 <= j < s.len() ==> s[j] != ',',
    ensures
        split_patterns_spec(s) == seq![s],
{
    lemma_first_comma_is(s, s.len() as int);
    assert(s.take(s.len() as int) =~= s);
    assert(seq![s] + Seq::<Seq<char>>::empty() =~= seq![s]);
}

/// Splits a comma-separated list into its patterns, leaving out empty ones.
pub fn split_patterns(raw: &str) -> (list: Vec<String>)
    ensures
        texts(list@) == split_patterns_spec(raw@),
{
    let chars = chars_of(raw);
    let n = chars.len();
    let mut list: Vec<String> = Vec::new();
    let mut start: usize = 0;
    let mut pos: usize = 0;
    assert(raw@.skip(0) =~= raw@);
    assert(texts(list@) + split_patterns_spec(raw@) =~= split_patterns_spec(raw@));
    while pos < n
        invariant
            chars@ == raw@,
            n == chars.len(),
            start <= pos <= n,
            forall|j: int| start <= j < pos ==> raw@[j] != ',',
            split_patterns_spec(raw@) == texts(list@) + split_patterns_spec(
                raw@.skip(start as int),
            ),
        decreases n - pos,
    {
        if chars[pos] == ',' {
            let ghost tail = raw@.skip(start as int);
            let ghost before = texts(list@);
            proof {
                assert forall|j: int| 0 <= j < pos - start implies tail[j] != ',' by {
                    assert(tail[j] == raw@[start + j]);
                }
                assert(tail[pos - start] == raw@[pos as int]);
                lemma_first_comma_is(tail, pos - start);
                assert(tail.skip(pos - start + 1) =~= raw@.skip(pos + 1));
                assert(tail.take(pos - start) =~= raw@.subrange(start as int, pos as int));
            }
            if start < pos {
                let piece = raw.substring_char(start, pos).to_owned();
                list.push(piece);
                proof {
                    assert(texts(list@) =~= before + seq![raw@.subrange(start as int, pos as int)]);
                    assert(split_patterns_spec(raw@) =~= texts(list@) + split_patterns_spec(
                        raw@.skip(pos + 1),
                    ));
                }
            }
            start = pos + 1;
        }
        pos = pos + 1;
    }
    let ghost tail = raw@.skip(start as int);
    let ghost before = texts(list@);
    if start < n {
        proof {
            assert forall|j: int| 0 <= j < n - start implies tail[j] != ',' by {
                assert(tail[j] == raw@[start + j]);
            }
            lemma_split_patterns_single(tail);
            assert(tail =~= raw@.subrange(start as int, n as int));
        }
        let piece = raw.substring_char(start, n).to_owned();
        list.push(piece);
        proof {
            assert(texts(list@) =~= before + seq![tail]);
        }
    } else {
        assert(before + Seq::<Seq<char>>::empty() =~= before);
    }
    list
}

/// How many kinds of requirement are asked for: a difficulty, a hexadecimal
/// prefix, and prefixes or suffixes of the encoded form.
pub open spec fn requirement_count(
    difficulty: u8,
    prefix: Seq<char>,
    prefixes: Seq<Seq<char>>,
    suffixes: Seq<Seq<char>>,
) -> nat {
    let by_difficulty: nat = if difficulty > 0 {
        1
    } else {
        0
    };
    let by_hex: nat = if prefix.len() > 0 {
        1
    } else {
        0
    };
    let by_affix: nat = if prefixes.len() > 0 || suffixes.len() > 0 {
        1
    } else {
        0
    };
    by_difficulty + by_hex + by_affix
}

/// What is wrong with the encoded prefix or suffix `p`, if anything. A wrong
/// character is found before an excessive length.
pub open spec fn affix_fault(p: Seq<char>) -> Option<AffixFault> {
    if !all_bech32(p) {
        Some(AffixFault::InvalidChar)
    } else if utf8_len(p) > MAX_AFFIX_LEN {
        Some(AffixFault::TooLong)
    } else {
        None
    }
}

/// The fault of the first faulty entry of `list`, if any entry is faulty.
pub open spec fn first_affix_fault(list: Seq<Seq<char>>) -> Option<AffixFault>
    decreases list.len(),
{
    if list.len() == 0 {
        None
    } else if affix_fault(list[0]) is Some {
        affix_fault(list[0])
    } else {
        first_affix_fault(list.drop_first())
    }
}

/// The verdict on the patterns of a request. The rules are tried in a fixed
/// order, and the first one broken gives the error.
pub open spec fn patterns_outcome(
    difficulty: u8,
    prefix: Seq<char>,
    prefixes: Seq<Seq<char>>,
    suffixes: Seq<Seq<char>>,
) -> Result<(), ConfigError> {
    if requirement_count(difficulty, prefix, prefixes, suffixes) > 1 {
        Err(ConfigError::MultipleRequirements)
    } else if utf8_len(prefix) > MAX_HEX_PREFIX_LEN {
        Err(ConfigError::HexPrefixTooLong)
    } else if !all_hex(prefix) {
        Err(ConfigError::HexPrefixInvalidChar)
    } else if first_affix_fault(prefixes) == Some(AffixFault::InvalidChar) {
        Err(ConfigError::NpubPrefixInvalidChar)
    } else if first_affix_fault(prefixes) == Some(AffixFault::TooLong) {
        Err(ConfigError::NpubPrefixTooLong)
    } else if first_affix_fault(suffixes) == Some(AffixFault::InvalidChar) {
        Err(ConfigError::NpubSuffixInvalidChar)
    } else if first_affix_fault(suffixes) == Some(AffixFault::TooLong) {
        Err(ConfigError::NpubSuffixTooLong)
    } else {
        Ok(())
    }
}

/// The verdict on the number of workers, on a machine that can run
/// `available` of them in parallel.
pub open spec fn cores_outcome(num_cores: usize, available: usize) -> Result<(), ConfigError> {
    if num_cores == 0 {
        Err(ConfigError::NoCores)
    } else if num_cores > available {
        Err(ConfigError::TooManyCores { available, requested: num_cores })
    } else {
        Ok(())
    }
}

/// The verdict on a whole request: that on its patterns, then that on its
/// number of workers.
pub open spec fn validation_outcome(
    difficulty: u8,
    prefix: Seq<char>,
    prefixes: Seq<Seq<char>>,
    suffixes: Seq<Seq<char>>,
    num_cores: usize,
    available: usize,
) -> Result<(), ConfigError> {
    match patterns_outcome(difficulty, prefix, prefixes, suffixes) {
        Err(e) => Err(e),
        Ok(_) => cores_outcome(num_cores, available),
    }
}

/// The patterns of a request that is accepted: at most one kind of
/// requirement, a hexadecimal prefix of at most 64 lowercase hexadecimal
/// digits, and encoded prefixes and suffixes of at most 59 characters of the
/// encoded alphabet each.
pub open spec fn patterns_valid(
    difficulty: u8,
    prefix: Seq<char>,
    prefixes: Seq<Seq<char>>,
    suffixes: Seq<Seq<char>>,
) -> bool {
    &&& requirement_count(difficulty, prefix, prefixes, suffixes) <= 1
    &&& prefix.len() <= MAX_HEX_PREFIX_LEN
    &&& all_hex(prefix)
    &&& affixes_valid(prefixes)
    &&& affixes_valid(suffixes)
}

/// Every entry is written in the encoded alphabet and at most 59 characters
/// long.
pub open spec fn affixes_valid(list: Seq<Seq<char>>) -> bool {
    forall|i: int|
        0 <= i < list.len() ==> all_bech32(#[trigger] list[i]) && list[i].len() <= MAX_AFFIX_LEN
}

/// Text in either alphabet takes one byte for each character.
pub proof fn lemma_alphabet_text_len(s: Seq<char>)
    requires
        all_hex(s) || all_bech32(s),
    ensures
        utf8_len(s) == s.len(),
        is_ascii_chars(s),
{
    assert(is_ascii_chars(s)) by {
        assert forall|i: int| 0 <= i < s.len() implies '\0' <= #[trigger] s[i] <= '\u{7f}' by {
            if all_hex(s) {
                assert(crate::alphabet::is_hex_char(s[i]));
            } else {
                assert(crate::alphabet::is_bech32_char(s[i]));
            }
        }
    }
    is_ascii_chars_encode_utf8(s);
}

/// A list has no faulty entry exactly when all its entries are valid.
pub proof fn lemma_no_fault_iff_valid(list: Seq<Seq<char>>)
    ensures
        first_affix_fault(list) is None <==> affixes_valid(list),
    decreases list.len(),
{
    if list.len() > 0 {
        let rest = list.drop_first();
        lemma_no_fault_iff_valid(rest);
        if all_bech32(list[0]) {
            lemma_alphabet_text_len(list[0]);
        }
        if affixes_valid(list) {
            assert(all_bech32(list[0]) && list[0].len() <= MAX_AFFIX_LEN);
            assert forall|i: int| 0 <= i < rest.len() implies all_bech32(#[trigger] rest[i])
                && rest[i].len() <= MAX_AFFIX_LEN by {
                assert(rest[i] == list[i + 1]);
            }
        }
        if first_affix_fault(list) is None {
            assert forall|i: int| 0 <= i < list.len() implies all_bech32(#[trigger] list[i])
                && list[i].len() <= MAX_AFFIX_LEN by {
                if i > 0 {
                    assert(rest[i - 1] == list[i]);
                }
            }
        }
    }
}

/// A request's patterns pass exactly when they are valid.
pub proof fn lemma_patterns_outcome_ok_iff_valid(
    difficulty: u8,
    prefix: Seq<char>,
    prefixes: Seq<Seq<char>>,
    suffixes: Seq<Seq<char>>,
)
    ensures
        patterns_outcome(difficulty, prefix, prefixes, suffixes) is Ok <==> patterns_valid(
            difficulty,
            prefix,
            prefixes,
            suffixes,
        ),
{
    lemma_no_fault_iff_valid(prefixes);
    lemma_no_fault_iff_valid(suffixes);
    if all_hex(prefix) {
        lemma_alphabet_text_len(prefix);
    }
    let p = first_affix_fault(prefixes);
    let q = first_affix_fault(suffixes);
    assert(p matches Some(f) ==> f == AffixFault::InvalidChar || f == AffixFault::TooLong);
    assert(q matches Some(f) ==> f == AffixFault::InvalidChar || f == AffixFault::TooLong);
}

/// A difficulty together with a hexadecimal prefix is refused, whatever else
/// is asked for.
pub proof fn lemma_difficulty_with_prefix_refused(
    difficulty: u8,
    prefix: Seq<char>,
    prefixes: Seq<Seq<char>>,
    suffixes: Seq<Seq<char>>,
    num_cores: usize,
    available: usize,
)
    requires
        difficulty > 0,
        prefix.len() > 0,
    ensures
        validation_outcome(difficulty, prefix, prefixes, suffixes, num_cores, available) == Err::<
            (),
            _,
        >(ConfigError::MultipleRequirements),
{
}

/// A hexadecimal prefix with a character that is no lowercase hexadecimal
/// digit is refused.
pub proof fn lemma_non_hex_prefix_refused(
    difficulty: u8,
    prefix: Seq<char>,
    prefixes: Seq<Seq<char>>,
    suffixes: Seq<Seq<char>>,
    num_cores: usize,
    available: usize,
    i: int,
)
    requires
        0 <= i < prefix.len(),
        !crate::alphabet::is_hex_char(prefix[i]),
    ensures
        validation_outcome(difficulty, prefix, prefixes, suffixes, num_cores, available) is Err,
{
}

/// An encoded prefix or suffix of more than 59 characters is refused.
pub proof fn lemma_long_affix_refused(
    difficulty: u8,
    prefix: Seq<char>,
    prefixes: Seq<Seq<char>>,
    suffixes: Seq<Seq<char>>,
    num_cores: usize,
    available: usize,
    i: int,
)
    requires
        (0 <= i < prefixes.len() && prefixes[i].len() > MAX_AFFIX_LEN) || (0 <= i < suffixes.len()
            && suffixes[i].len() > MAX_AFFIX_LEN),
    ensures
        validation_outcome(difficulty, prefix, prefixes, suffixes, num_cores, available) is Err,
{
    lemma_patterns_outcome_ok_iff_valid(difficulty, prefix, prefixes, suffixes);
}

/// Length of `s` in bytes.
pub fn byte_len(s: &str) -> (n: usize)
    ensures
        n == utf8_len(s@),
{
    s.as_bytes().len()
}

/// Finds the fault of the first faulty entry of a list of encoded prefixes or
/// suffixes.
pub fn check_affixes(list: &Vec<String>) -> (fault: Option<AffixFault>)
    ensures
        fault == first_affix_fault(texts(list@)),
{
    let mut i: usize = 0;
    assert(texts(list@).skip(0) =~= texts(list@));
    while i < list.len()
        invariant
            i <= list.len(),
            first_affix_fault(texts(list@)) == first_affix_fault(texts(list@).skip(i as int)),
        decreases list.len() - i,
    {
        let ghost tail = texts(list@).skip(i as int);
        assert(tail[0] == list@[i as int]@);
        assert(tail.drop_first() =~= texts(list@).skip(i + 1));
        let entry = list[i].as_str();
        if !is_bech32_text(entry) {
            return Some(AffixFault::InvalidChar);
        }
        if byte_len(entry) > MAX_AFFIX_LEN {
            return Some(AffixFault::TooLong);
        }
        i = i + 1;
    }
    None
}

/// Checks the patterns of a request against the rules.
pub fn check_patterns(
    difficulty: u8,
    vanity_prefix: &str,
    vanity_npub_prefixes: &Vec<String>,
    vanity_npub_suffixes: &Vec<String>,
) -> (verdict: Result<(), ConfigError>)
    ensures
        verdict == patterns_outcome(
            difficulty,
            vanity_prefix@,
            texts(vanity_npub_prefixes@),
            texts(vanity_npub_suffixes@),
        ),
        verdict is Ok <==> patterns_valid(
            difficulty,
            vanity_prefix@,
            texts(vanity_npub_prefixes@),
            texts(vanity_npub_suffixes@),
        ),
{
    proof {
        lemma_patterns_outcome_ok_iff_valid(
            difficulty,
            vanity_prefix@,
            texts(vanity_npub_prefixes@),
            texts(vanity_npub_suffixes@),
        );
    }
    let mut requirements_count: u8 = 0;
    if difficulty > 0 {
        requirements_count = requirements_count + 1;
    }
    if !vanity_prefix.is_empty() {
        requirements_count = requirements_count + 1;
    }
    if !vanity_npub_prefixes.is_empty() || !vanity_npub_suffixes.is_empty() {
        requirements_count = requirements_count + 1;
    }
    if requirements_count > 1 {
        return Err(ConfigError::MultipleRequirements);
    }
    if byte_len(vanity_prefix) > MAX_HEX_PREFIX_LEN {
        return Err(ConfigError::HexPrefixTooLong);
    }
    if !is_hex_text(vanity_prefix) {
        return Err(ConfigError::HexPrefixInvalidChar);
    }
    match check_affixes(vanity_npub_prefixes) {
        Some(AffixFault::InvalidChar) => {
            return Err(ConfigError::NpubPrefixInvalidChar);
        },
        Some(AffixFault::TooLong) => {
            return Err(ConfigError::NpubPrefixTooLong);
        },
        None => {},
    }
    match check_affixes(vanity_npub_suffixes) {
        Some(AffixFault::InvalidChar) => {
            return Err(ConfigError::NpubSuffixInvalidChar);
        },
        Some(AffixFault::TooLong) => {
            return Err(ConfigError::NpubSuffixTooLong);
        },
        None => {},
    }
    Ok(())
}

/// Checks the number of workers against what the machine can run in
/// parallel.
pub fn check_cores(num_cores: usize, available: usize) -> (verdict: Result<(), ConfigError>)
    ensures
        verdict == cores_outcome(num_cores, available),
        verdict is Ok <==> 1 <= num_cores <= available,
{
    if num_cores == 0 {
        Err(ConfigError::NoCores)
    } else if num_cores > available {
        Err(ConfigError::TooManyCores { available, requested: num_cores })
    } else {
        Ok(())
    }
}

/// Checks a whole request, for a machine that can run `available` workers in
/// parallel.
pub fn validate_args(
    difficulty: u8,
    vanity_prefix: &str,
    vanity_npub_prefixes: &Vec<String>,
    vanity_npub_suffixes: &Vec<String>,
    num_cores: usize,
    available: usize,
) -> (verdict: Result<(), ConfigError>)
    ensures
        verdict == validation_outcome(
            difficulty,
            vanity_prefix@,
            texts(vanity_npub_prefixes@),
            texts(vanity_npub_suffixes@),
            num_cores,
            available,
        ),
        verdict is Ok <==> patterns_valid(
            difficulty,
            vanity_prefix@,
            texts(vanity_npub_prefixes@),
            texts(vanity_npub_suffixes@),
        ) && 1 <= num_cores <= available,
{
    match check_patterns(difficulty, vanity_prefix, vanity_npub_prefixes, vanity_npub_suffixes) {
        Err(e) => Err(e),
        Ok(_) => check_cores(num_cores, available),
    }
}

/// `num_cpus::get` of the num_cpus crate: the number of workers that this
/// machine can run in parallel, which its documentation puts at one or more.
#[verifier::external_body]
pub(crate) fn available_cores() -> (available: usize)
    ensures
        available >= 1,
{
    num_cpus::get()
}

/// Checks a whole request on this machine. The verdict is that of
/// `validate_args` for the number of workers that the machine can run in
/// parallel, whatever that number is.
pub fn check_args(
    difficulty: u8,
    vanity_prefix: &str,
    vanity_npub_prefixes: &Vec<String>,
    vanity_npub_suffixes: &Vec<String>,
    num_cores: usize,
) -> (verdict: Result<(), ConfigError>)
    ensures
        exists|available: usize|
            available >= 1 && verdict == #[trigger] validation_outcome(
                difficulty,
                vanity_prefix@,
                texts(vanity_npub_prefixes@),
                texts(vanity_npub_suffixes@),
                num_cores,
                available,
            ),
        verdict is Ok ==> num_cores >= 1 && patterns_valid(
            difficulty,
            vanity_prefix@,
            texts(vanity_npub_prefixes@),
            texts(vanity_npub_suffixes@),
        ),
        !(verdict matches Err(ConfigError::TooManyCores { .. })) ==> verdict == validation_outcome(
            difficulty,
            vanity_prefix@,
            texts(vanity_npub_prefixes@),
            texts(vanity_npub_suffixes@),
            num_cores,
            num_cores,
        ),
        num_cores == 1 ==> verdict == patterns_outcome(
            difficulty,
            vanity_prefix@,
            texts(vanity_npub_prefixes@),
            texts(vanity_npub_suffixes@),
        ),
{
    let available = available_cores();
    validate_args(
        difficulty,
        vanity_prefix,
        vanity_npub_prefixes,
        vanity_npub_suffixes,
        num_cores,
        available,
    )
}

} // verus!
