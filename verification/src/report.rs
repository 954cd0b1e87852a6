//! What is shown of a find: the key pair in its text forms, the headline that
//! says why it was found, the figures of the search so far, and the secret
//! key as a QR code.

use qrcode::render::unicode::Dense1x2;
use vstd::arithmetic::power::{lemma_pow0, lemma_pow1, lemma_pow_adds, pow};
use vstd::prelude::*;
use crate::candidate::{text_of, Candidate, CandidateView};
use crate::encoding::{bech32_text, hex_text, npub_hrp, nsec_hrp, to_hex, to_npub, to_nsec};
use crate::matcher::{MatchOutcome, OutcomeView};
use crate::worker::{outcome_views, StepResult};

verus! {

/// The first line of a report: why the key pair is shown.
#[derive(Debug, PartialEq, Eq)]
pub enum Headline {
    /// Nothing to say beyond the keys.
    Plain,
    /// The count of leading zero bits of the public key.
    LeadingZeroBits(u8),
    /// The pattern of the encoded form that the key matched or resembled.
    VanityNpub(String),
}

/// A headline, as plain values.
pub enum HeadlineView {
    Plain,
    LeadingZeroBits(u8),
    VanityNpub(Seq<char>),
}

impl View for Headline {
    type V = HeadlineView;

    open spec fn view(&self) -> HeadlineView {
        match self {
            Headline::Plain => HeadlineView::Plain,
            Headline::LeadingZeroBits(z) => HeadlineView::LeadingZeroBits(*z),
            Headline::VanityNpub(label) => HeadlineView::VanityNpub(label@),
        }
    }
}

/// A key pair ready to be shown.
#[derive(Debug, PartialEq, Eq)]
pub struct KeyReport {
    pub headline: Headline,
    /// The public key in hexadecimal.
    pub public_hex: String,
    /// The secret key in hexadecimal.
    pub secret_hex: String,
    /// The public key in its encoded form.
    pub npub: String,
    /// The secret key in its encoded form.
    pub nsec: String,
    /// The mnemonic phrase of the pair, if it has one.
    pub mnemonic: Option<String>,
}

/// A report, as plain values.
pub struct KeyReportView {
    pub headline: HeadlineView,
    pub public_hex: Seq<char>,
    pub secret_hex: Seq<char>,
    pub npub: Seq<char>,
    pub nsec: Seq<char>,
    pub mnemonic: Option<Seq<char>>,
}

impl View for KeyReport {
    type V = KeyReportView;

    open spec fn view(&self) -> KeyReportView {
        KeyReportView {
            headline: self.headline@,
            public_hex: self.public_hex@,
            secret_hex: self.secret_hex@,
            npub: self.npub@,
            nsec: self.nsec@,
            mnemonic: text_of(self.mnemonic),
        }
    }
}

/// The headline of a find: the count of leading zero bits if it is not zero,
/// else the pattern if there is one, else none.
pub open spec fn headline_of(vanity_npub: Seq<char>, leading_zeroes: u8) -> HeadlineView {
    if leading_zeroes != 0 {
        HeadlineView::LeadingZeroBits(leading_zeroes)
    } else if vanity_npub.len() > 0 {
        HeadlineView::VanityNpub(vanity_npub)
    } else {
        HeadlineView::Plain
    }
}

/// The report on a candidate found for the pattern `vanity_npub` or with
/// `leading_zeroes` leading zero bits.
pub open spec fn key_report_of(
    candidate: CandidateView,
    vanity_npub: Seq<char>,
    leading_zeroes: u8,
) -> KeyReportView {
    KeyReportView {
        headline: headline_of(vanity_npub, leading_zeroes),
        public_hex: hex_text(candidate.public),
        secret_hex: hex_text(candidate.secret),
        npub: bech32_text(npub_hrp(), candidate.public),
        nsec: bech32_text(nsec_hrp(), candidate.secret),
        mnemonic: candidate.mnemonic,
    }
}

/// The report that an outcome asks for: none for a candidate that did not
/// match; for a near match, the keys under the body of the encoded key; for
/// an exact match, the keys under its label and count.
pub open spec fn outcome_report_of(candidate: CandidateView, outcome: OutcomeView) -> Option<
    KeyReportView,
> {
    match outcome {
        OutcomeView::NoMatch => None,
        OutcomeView::NearMatch { body, .. } => Some(key_report_of(candidate, body, 0)),
        OutcomeView::ExactMatch { label, leading_zero_bits } => Some(
            key_report_of(candidate, label, leading_zero_bits),
        ),
    }
}

/// Puts a found key pair into its text forms, under the headline that
/// belongs to it.
pub fn key_report(candidate: &Candidate, vanity_npub: &str, leading_zeroes: u8) -> (report:
    KeyReport)
    ensures
        report@ == key_report_of(candidate@, vanity_npub@, leading_zeroes),
{
    let headline = if leading_zeroes != 0 {
        Headline::LeadingZeroBits(leading_zeroes)
    } else if !vanity_npub.is_empty() {
        Headline::VanityNpub(vanity_npub.to_owned())
    } else {
        Headline::Plain
    };
    let public = candidate.public_bytes();
    let secret = candidate.secret_bytes();
    let mnemonic = match candidate.mnemonic() {
        Some(phrase) => Some(phrase.clone()),
        None => None,
    };
    KeyReport {
        headline,
        public_hex: to_hex(public.as_slice()),
        secret_hex: to_hex(secret.as_slice()),
        npub: to_npub(public.as_slice()),
        nsec: to_nsec(secret.as_slice()),
        mnemonic,
    }
}

/// The report that an outcome asks for, if it asks for one.
pub fn outcome_report(candidate: &Candidate, outcome: &MatchOutcome) -> (report: Option<KeyReport>)
    ensures
        match report {
            Some(r) => outcome_report_of(candidate@, outcome@) == Some(r@),
            None => outcome_report_of(candidate@, outcome@) is None,
        },
{
    match outcome {
        MatchOutcome::NoMatch => None,
        MatchOutcome::NearMatch { body, .. } => Some(key_report(candidate, body.as_str(), 0)),
        MatchOutcome::ExactMatch { label, leading_zero_bits } => Some(
            key_report(candidate, label.as_str(), *leading_zero_bits),
        ),
    }
}

/// What is shown of a candidate that was discarded: its public key in
/// hexadecimal, where the operator asked to see such keys too.
pub open spec fn non_matching_key_of(
    candidate: CandidateView,
    outcomes: Seq<OutcomeView>,
    verbose_output: bool,
) -> Option<Seq<char>> {
    if verbose_output && outcomes.len() == 0 {
        Some(hex_text(candidate.public))
    } else {
        None
    }
}

/// The public key of a candidate in hexadecimal, if the candidate was
/// discarded and the operator asked to see such keys too.
pub fn non_matching_key(candidate: &Candidate, step: &StepResult, verbose_output: bool) -> (shown:
    Option<String>)
    ensures
        text_of(shown) == non_matching_key_of(
            candidate@,
            outcome_views(step.outcomes@),
            verbose_output,
        ),
{
    if verbose_output && step.outcomes.is_empty() {
        Some(to_hex(candidate.public_bytes().as_slice()))
    } else {
        None
    }
}

/// One less than the number of decimal digits of `n`.
pub open spec fn decimal_exponent(n: nat) -> nat
    decreases n,
{
    if n < 10 {
        0
    } else {
        1 + decimal_exponent(n / 10)
    }
}

/// The first decimal digit of `n`.
pub open spec fn leading_digit(n: nat) -> nat
    decreases n,
{
    if n < 10 {
        n
    } else {
        leading_digit(n / 10)
    }
}

/// A number lies between its first digit times the power of ten of its
/// exponent and the next multiple of that power; the digit is a single one,
/// and not zero unless the number is.
pub proof fn lemma_leading_digit_brackets(n: nat)
    ensures
        leading_digit(n) <= 9,
        n >= 1 ==> leading_digit(n) >= 1,
        leading_digit(n) * pow(10, decimal_exponent(n)) <= n < (leading_digit(n) + 1) * pow(
            10,
            decimal_exponent(n),
        ),
    decreases n,
{
    if n < 10 {
        lemma_pow0(10);
    } else {
        let m = n / 10;
        lemma_leading_digit_brackets(m);
        let d = leading_digit(m) as int;
        let e = decimal_exponent(m);
        let p = pow(10, e);
        lemma_pow1(10);
        lemma_pow_adds(10, 1, e);
        assert(pow(10, 1 + e) == 10 * p);
        assert(d * (10 * p) <= n < (d + 1) * (10 * p)) by (nonlinear_arith)
            requires
                d * p <= m < (d + 1) * p,
                m == n / 10,
                n >= 0,
        ;
    }
}

/// The figures shown with a find.
#[derive(Clone, Copy, Debug, PartialEq, Eq, Structural)]
pub struct IterationSummary {
    /// Candidates generated so far.
    pub iterations: u64,
    /// The first decimal digit of that count.
    pub leading_digit: u8,
    /// The power of ten that goes with that digit.
    pub exponent: u32,
    /// Candidates per second, over whole seconds and at least one of them.
    pub rate: u64,
}

/// Sums up a count of candidates and the whole seconds it took: the count
/// as a digit times a power of ten, and the average rate.
pub fn iteration_summary(iterations: u64, elapsed_secs: u64) -> (summary: IterationSummary)
    ensures
        summary.iterations == iterations,
        summary.leading_digit == leading_digit(iterations as nat),
        summary.exponent == decimal_exponent(iterations as nat),
        summary.rate == iterations / if elapsed_secs == 0 {
            1
        } else {
            elapsed_secs
        },
{
    let mut rest: u64 = iterations;
    let mut exponent: u32 = 0;
    proof {
        lemma_decimal_exponent_small(iterations as nat);
    }
    while rest >= 10
        invariant
            leading_digit(iterations as nat) == leading_digit(rest as nat),
            decimal_exponent(iterations as nat) == exponent + decimal_exponent(rest as nat),
            decimal_exponent(iterations as nat) <= 19,
        decreases rest,
    {
        rest = rest / 10;
        exponent = exponent + 1;
    }
    let seconds: u64 = if elapsed_secs == 0 {
        1
    } else {
        elapsed_secs
    };
    IterationSummary {
        iterations,
        leading_digit: rest as u8,
        exponent,
        rate: iterations / seconds,
    }
}

/// A number that fits 64 bits has at most twenty decimal digits.
proof fn lemma_decimal_exponent_small(n: nat)
    requires
        n <= u64::MAX,
    ensures
        decimal_exponent(n) <= 19,
{
    reveal_with_fuel(decimal_exponent, 21);
}

/// The picture that a text is drawn as in a QR code, in half-block
/// characters with dark and light swapped, or `None` where the text does not
/// fit one.
pub uninterp spec fn qr_picture(data: Seq<char>) -> Option<Seq<char>>;

/// `QrCode::new` of the qrcode crate, rendered by its `Dense1x2` renderer
/// with the two colours swapped. The picture depends on the text alone and
/// is only named here; `None` stands for the error that `QrCode::new`
/// reports.
#[verifier::external_body]
pub(crate) fn qr_render(data: &str) -> (picture: Option<String>)
    ensures
        picture is Some <==> qr_picture(data@) is Some,
        picture matches Some(p) ==> qr_picture(data@) == Some(p@),
{
    match qrcode::QrCode::new(data) {
        Ok(code) => Some(
            code.render::<Dense1x2>().dark_color(Dense1x2::Light).light_color(
                Dense1x2::Dark,
            ).build(),
        ),
        Err(_) => None,
    }
}

/// The encoded secret key of a candidate as a QR code.
pub fn secret_qr(candidate: &Candidate) -> (picture: Option<String>)
    ensures
        text_of(picture) == qr_picture(bech32_text(nsec_hrp(), candidate@.secret)),
{
    let nsec = to_nsec(candidate.secret_bytes().as_slice());
    qr_render(nsec.as_str())
}

} // verus!
