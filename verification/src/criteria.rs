//! The validated description of what counts as a match.

use vstd::prelude::*;
use crate::alphabet::all_hex;
use crate::cli::{
    affixes_valid,
    byte_len,
    check_patterns,
    lemma_alphabet_text_len,
    patterns_outcome,
    patterns_valid,
    texts,
    ConfigError,
    MAX_AFFIX_LEN,
    MAX_HEX_PREFIX_LEN,
};

verus! {

/// The difficulty searched for when the operator asks for nothing.
pub const DIFFICULTY_DEFAULT: u8 = 10;

/// The one search mode of a session.
#[derive(Debug)]
pub enum CriteriaSet {
    /// Public keys with more than this many leading zero bits.
    Difficulty(u8),
    /// Public keys whose hexadecimal form starts with this text.
    HexPrefix(String),
    /// Public keys whose encoded form starts with one of the prefixes, ends
    /// with one of the suffixes, or both where both lists are filled.
    Affixes { prefixes: Vec<String>, suffixes: Vec<String> },
}

/// A search mode, as plain values.
pub enum CriteriaView {
    Difficulty(u8),
    HexPrefix(Seq<char>),
    Affixes { prefixes: Seq<Seq<char>>, suffixes: Seq<Seq<char>> },
}

impl CriteriaView {
    /// The patterns of the mode obey the rules for their alphabet and length,
    /// and a mode by patterns has at least one.
    pub open spec fn wf(self) -> bool {
        match self {
            CriteriaView::Difficulty(_) => true,
            CriteriaView::HexPrefix(p) => 1 <= p.len() <= MAX_HEX_PREFIX_LEN && all_hex(p),
            CriteriaView::Affixes { prefixes, suffixes } => (prefixes.len() > 0 || suffixes.len()
                > 0) && affixes_valid(prefixes) && affixes_valid(suffixes),
        }
    }
}

impl View for CriteriaSet {
    type V = CriteriaView;

    open spec fn view(&self) -> CriteriaView {
        match self {
            CriteriaSet::Difficulty(d) => CriteriaView::Difficulty(*d),
            CriteriaSet::HexPrefix(p) => CriteriaView::HexPrefix(p@),
            CriteriaSet::Affixes { prefixes, suffixes } => CriteriaView::Affixes {
                prefixes: texts(prefixes@),
                suffixes: texts(suffixes@),
            },
        }
    }
}

/// The search mode that a request selects: by hexadecimal prefix if one is
/// given, else by encoded prefixes and suffixes if any is given, else by
/// difficulty, where a difficulty of zero stands for the default of 10.
pub open spec fn criteria_of(
    difficulty: u8,
    prefix: Seq<char>,
    prefixes: Seq<Seq<char>>,
    suffixes: Seq<Seq<char>>,
) -> CriteriaView {
    if prefix.len() > 0 {
        CriteriaView::HexPrefix(prefix)
    } else if prefixes.len() > 0 || suffixes.len() > 0 {
        CriteriaView::Affixes { prefixes, suffixes }
    } else if difficulty == 0 {
        CriteriaView::Difficulty(DIFFICULTY_DEFAULT)
    } else {
        CriteriaView::Difficulty(difficulty)
    }
}

/// Length of the first entry of `list`, or zero if it has none.
pub open spec fn first_len(list: Seq<Seq<char>>) -> nat {
    if list.len() == 0 {
        0
    } else {
        list[0].len()
    }
}

/// Size of the search space in bits: the difficulty itself, or four bits for
/// each character of the hexadecimal prefix, or of the first encoded prefix
/// and the first encoded suffix together.
pub open spec fn search_bits(criteria: CriteriaView) -> nat {
    match criteria {
        CriteriaView::Difficulty(d) => d as nat,
        CriteriaView::HexPrefix(p) => 4 * p.len(),
        CriteriaView::Affixes { prefixes, suffixes } => 4 * (first_len(prefixes) + first_len(
            suffixes,
        )),
    }
}

/// Valid patterns select a well-formed search mode.
pub proof fn lemma_criteria_of_valid(
    difficulty: u8,
    prefix: Seq<char>,
    prefixes: Seq<Seq<char>>,
    suffixes: Seq<Seq<char>>,
)
    requires
        patterns_valid(difficulty, prefix, prefixes, suffixes),
    ensures
        criteria_of(difficulty, prefix, prefixes, suffixes).wf(),
{
}

/// A copy of a list of strings.
fn clone_list(list: &Vec<String>) -> (copy: Vec<String>)
    ensures
        copy@ == list@,
{
    let mut copy: Vec<String> = Vec::new();
    let mut i: usize = 0;
    while i < list.len()
        invariant
            i <= list.len(),
            copy@ == list@.take(i as int),
        decreases list.len() - i,
    {
        copy.push(list[i].clone());
        assert(copy@ =~= list@.take(i + 1));
        i = i + 1;
    }
    assert(list@.take(list.len() as int) =~= list@);
    copy
}

/// Length of the first entry of `list` in bytes, or zero if it has none.
fn first_byte_len(list: &Vec<String>) -> (n: usize)
    ensures
        n == if list@.len() == 0 {
            0
        } else {
            crate::cli::utf8_len(list@[0]@)
        },
{
    if list.len() == 0 {
        0
    } else {
        byte_len(list[0].as_str())
    }
}

impl CriteriaSet {
    /// Validates the patterns of a request and, if they pass, makes the
    /// search mode that they select.
    pub fn new(
        difficulty: u8,
        vanity_prefix: &str,
        vanity_npub_prefixes: &Vec<String>,
        vanity_npub_suffixes: &Vec<String>,
    ) -> (made: Result<CriteriaSet, ConfigError>)
        ensures
            match made {
                Ok(criteria) => patterns_outcome(
                    difficulty,
                    vanity_prefix@,
                    texts(vanity_npub_prefixes@),
                    texts(vanity_npub_suffixes@),
                ) is Ok && criteria@ == criteria_of(
                    difficulty,
                    vanity_prefix@,
                    texts(vanity_npub_prefixes@),
                    texts(vanity_npub_suffixes@),
                ) && criteria@.wf(),
                Err(e) => patterns_outcome(
                    difficulty,
                    vanity_prefix@,
                    texts(vanity_npub_prefixes@),
                    texts(vanity_npub_suffixes@),
                ) == Err::<(), _>(e),
            },
    {
        match check_patterns(difficulty, vanity_prefix, vanity_npub_prefixes, vanity_npub_suffixes) {
            Err(e) => Err(e),
            Ok(_) => {
                proof {
                    lemma_criteria_of_valid(
                        difficulty,
                        vanity_prefix@,
                        texts(vanity_npub_prefixes@),
                        texts(vanity_npub_suffixes@),
                    );
                }
                if !vanity_prefix.is_empty() {
                    Ok(CriteriaSet::HexPrefix(vanity_prefix.to_owned()))
                } else if !vanity_npub_prefixes.is_empty() || !vanity_npub_suffixes.is_empty() {
                    Ok(
                        CriteriaSet::Affixes {
                            prefixes: clone_list(vanity_npub_prefixes),
                            suffixes: clone_list(vanity_npub_suffixes),
                        },
                    )
                } else if difficulty == 0 {
                    Ok(CriteriaSet::Difficulty(DIFFICULTY_DEFAULT))
                } else {
                    Ok(CriteriaSet::Difficulty(difficulty))
                }
            },
        }
    }

    /// Whether the mode is a search by encoded prefixes or suffixes, for
    /// which no duration can be estimated.
    pub fn is_affix_search(&self) -> (affix: bool)
        ensures
            affix == (self@ is Affixes),
    {
        match self {
            CriteriaSet::Affixes { .. } => true,
            _ => false,
        }
    }

    /// The difficulty at which a session in this mode starts: the configured
    /// one in a search by difficulty, zero in the other modes, which do not
    /// use it.
    pub fn initial_difficulty(&self) -> (difficulty: u8)
        ensures
            difficulty == match self@ {
                CriteriaView::Difficulty(d) => d,
                _ => 0u8,
            },
    {
        match self {
            CriteriaSet::Difficulty(d) => *d,
            _ => 0,
        }
    }

    /// Size of the search space in bits.
    pub fn search_space_bits(&self) -> (bits: u32)
        requires
            self@.wf(),
        ensures
            bits == search_bits(self@),
            bits <= 4 * (2 * MAX_AFFIX_LEN),
    {
        match self {
            CriteriaSet::Difficulty(d) => *d as u32,
            CriteriaSet::HexPrefix(p) => {
                proof {
                    lemma_alphabet_text_len(p@);
                }
                4 * (byte_len(p.as_str()) as u32)
            },
            CriteriaSet::Affixes { prefixes, suffixes } => {
                proof {
                    if prefixes@.len() > 0 {
                        assert(texts(prefixes@)[0] == prefixes@[0]@);
                        lemma_alphabet_text_len(prefixes@[0]@);
                    }
                    if suffixes@.len() > 0 {
                        assert(texts(suffixes@)[0] == suffixes@[0]@);
                        lemma_alphabet_text_len(suffixes@[0]@);
                    }
                }
                let a = first_byte_len(prefixes);
                let b = first_byte_len(suffixes);
                4 * ((a + b) as u32)
            },
        }
    }
}

} // verus!
