//! Showing the key pair of a mnemonic phrase instead of searching: either of
//! a phrase that the operator gives, or of one drawn for the occasion.

use vstd::prelude::*;
use crate::candidate::{
    candidate_from_mnemonic,
    candidate_of_phrase,
    derived_candidate,
    mnemonic_key_bytes,
    new_mnemonic,
    phrase_candidate,
    text_of,
    CandidateView,
    DerivationError,
};
use crate::cli::CLIArgs;
use crate::report::{key_report, key_report_of, KeyReport, KeyReportView};

verus! {

/// The number of words drawn when the operator asks for more than 24.
pub const DEFAULT_WORD_COUNT: usize = 12;

/// The largest number of words that the operator can ask for.
pub const MAX_SHOWN_WORD_COUNT: usize = 24;

/// The key pair of a mnemonic phrase, ready to be shown.
#[derive(Debug, PartialEq, Eq)]
pub enum MnemonicAnswer {
    /// The pair of a phrase drawn for the occasion; the phrase is shown with
    /// it.
    Drawn(KeyReport),
    /// The pair of the operator's phrase and passphrase.
    Derived(KeyReport),
}

/// An answer, as plain values.
pub enum MnemonicAnswerView {
    Drawn(KeyReportView),
    Derived(KeyReportView),
}

impl View for MnemonicAnswer {
    type V = MnemonicAnswerView;

    open spec fn view(&self) -> MnemonicAnswerView {
        match self {
            MnemonicAnswer::Drawn(r) => MnemonicAnswerView::Drawn(r@),
            MnemonicAnswer::Derived(r) => MnemonicAnswerView::Derived(r@),
        }
    }
}

/// The number of words that are drawn when `word_count` are asked for.
pub open spec fn drawn_word_count_spec(word_count: usize) -> usize {
    if word_count > MAX_SHOWN_WORD_COUNT {
        DEFAULT_WORD_COUNT
    } else {
        word_count
    }
}

/// The answer about a key pair derived from a phrase.
pub open spec fn answer_of(
    made: Result<CandidateView, DerivationError>,
    drawn: bool,
) -> Result<MnemonicAnswerView, DerivationError> {
    match made {
        Ok(c) => {
            let report = key_report_of(c, Seq::<char>::empty(), 0);
            if drawn {
                Ok(MnemonicAnswerView::Drawn(report))
            } else {
                Ok(MnemonicAnswerView::Derived(report))
            }
        },
        Err(e) => Err(e),
    }
}

/// The answer for a phrase drawn for the occasion, if one was drawn: its key
/// pair, derived without passphrase.
pub open spec fn drawn_answer(drawn: Option<Seq<char>>) -> Result<
    MnemonicAnswerView,
    DerivationError,
> {
    answer_of(phrase_candidate(drawn, Seq::<char>::empty()), true)
}

/// The answer for the operator's own phrase and passphrase.
pub open spec fn derived_answer(phrase: Seq<char>, passphrase: Seq<char>) -> Result<
    MnemonicAnswerView,
    DerivationError,
> {
    answer_of(derived_candidate(phrase, mnemonic_key_bytes(phrase, passphrase)), false)
}

/// The view of an answer or of the error in its place.
pub open spec fn answer_view(r: Result<MnemonicAnswer, DerivationError>) -> Result<
    MnemonicAnswerView,
    DerivationError,
> {
    match r {
        Ok(a) => Ok(a@),
        Err(e) => Err(e),
    }
}

/// The number of words that are drawn when `word_count` are asked for: 12
/// in place of more than 24.
#[verifier::when_used_as_spec(drawn_word_count_spec)]
pub fn drawn_word_count(word_count: usize) -> (words: usize)
    ensures
        words == drawn_word_count_spec(word_count),
        word_count > 0 ==> 0 < words <= MAX_SHOWN_WORD_COUNT,
{
    if word_count > MAX_SHOWN_WORD_COUNT {
        DEFAULT_WORD_COUNT
    } else {
        word_count
    }
}

/// Answers with the key pair of a phrase drawn for the occasion, if one was
/// drawn.
pub fn answer_for_drawn(drawn: Option<String>) -> (answer: Result<MnemonicAnswer, DerivationError>)
    ensures
        answer_view(answer) == drawn_answer(text_of(drawn)),
{
    proof {
        reveal_strlit("");
        assert(""@ =~= Seq::<char>::empty());
    }
    match candidate_of_phrase(drawn, "") {
        Ok(candidate) => Ok(MnemonicAnswer::Drawn(key_report(&candidate, "", 0))),
        Err(e) => Err(e),
    }
}

/// Answers with the key pair of the operator's phrase and passphrase.
pub fn answer_for_phrase(phrase: &str, passphrase: &str) -> (answer: Result<
    MnemonicAnswer,
    DerivationError,
>)
    ensures
        answer_view(answer) == derived_answer(phrase@, passphrase@),
{
    proof {
        reveal_strlit("");
        assert(""@ =~= Seq::<char>::empty());
    }
    match candidate_from_mnemonic(phrase, passphrase) {
        Ok(candidate) => Ok(MnemonicAnswer::Derived(key_report(&candidate, "", 0))),
        Err(e) => Err(e),
    }
}

/// Answers a request about a mnemonic phrase, if the operator made one.
///
/// With a word count, a phrase of that many words (of 12 where more than 24
/// are asked for) is drawn and its key pair derived without passphrase;
/// which phrase is drawn is not known beforehand. Else, with a phrase, the
/// key pair of that phrase and the passphrase is derived. Else there is
/// nothing to answer.
pub fn mnemonic_report(args: &CLIArgs) -> (answer: Option<Result<MnemonicAnswer, DerivationError>>)
    ensures
        answer is None <==> args.word_count == 0 && args.mnemonic@.len() == 0,
        args.word_count == 0 ==> (answer matches Some(a) ==> answer_view(a) == derived_answer(
            args.mnemonic@,
            args.mnemonic_passphrase@,
        )),
        args.word_count > 0 ==> (answer matches Some(a) ==> exists|drawn: Option<Seq<char>>|
            answer_view(a) == #[trigger] drawn_answer(drawn)),
{
    if args.word_count > 0 {
        let drawn = new_mnemonic(drawn_word_count(args.word_count));
        let ghost drawn_text = text_of(drawn);
        let answer = answer_for_drawn(drawn);
        proof {
            assert(answer_view(answer) == drawn_answer(drawn_text));
        }
        Some(answer)
    } else if !args.mnemonic.as_str().is_empty() {
        Some(answer_for_phrase(args.mnemonic.as_str(), args.mnemonic_passphrase.as_str()))
    } else {
        None
    }
}

} // verus!
