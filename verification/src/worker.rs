//! One turn of a worker: from the shared state and a fresh candidate to the
//! next shared state and what is to be reported. The loop around it, which
//! draws the candidates and prints the reports, belongs to the program.

use vstd::prelude::*;
use crate::bits::{get_leading_zero_bits, leading_zero_bits};
use crate::candidate::{Candidate, CandidateView};
use crate::cli::texts;
use crate::criteria::{CriteriaSet, CriteriaView};
use crate::encoding::{bech32_text, hex_text, npub_hrp, to_hex, to_npub};
use crate::matcher::{
    classify_similarity,
    difficulty_outcome,
    fuzzy_outcome,
    hex_prefix_outcome,
    match_difficulty,
    match_hex_prefix,
    match_pair,
    match_suffix,
    npub_body,
    pair_outcome,
    strip_tag,
    suffix_outcome,
    MatchOutcome,
    OutcomeView,
};
use crate::ratchet::{BestMatchView, Ratchet, RatchetView};
use crate::similarity::{calculate_string_similarity, similarity_of};

verus! {

/// What the matcher reads of a candidate, which depends on the search mode.
#[derive(Debug, PartialEq, Eq)]
pub enum Evidence {
    /// The count of leading zero bits of the public key.
    ZeroBits(u8),
    /// The public key in lowercase hexadecimal.
    Hex(String),
    /// The public key in its encoded form, tag included.
    Npub(String),
}

/// Evidence, as plain values.
pub enum EvidenceView {
    ZeroBits(u8),
    Hex(Seq<char>),
    Npub(Seq<char>),
}

impl View for Evidence {
    type V = EvidenceView;

    open spec fn view(&self) -> EvidenceView {
        match self {
            Evidence::ZeroBits(z) => EvidenceView::ZeroBits(*z),
            Evidence::Hex(h) => EvidenceView::Hex(h@),
            Evidence::Npub(e) => EvidenceView::Npub(e@),
        }
    }
}

/// The evidence that a search mode asks of a candidate.
pub open spec fn evidence_of(criteria: CriteriaView, candidate: CandidateView) -> EvidenceView {
    match criteria {
        CriteriaView::Difficulty(_) => EvidenceView::ZeroBits(
            leading_zero_bits(candidate.public) as u8,
        ),
        CriteriaView::HexPrefix(_) => EvidenceView::Hex(hex_text(candidate.public)),
        CriteriaView::Affixes { .. } => EvidenceView::Npub(
            bech32_text(npub_hrp(), candidate.public),
        ),
    }
}

/// Takes from a candidate what the search mode needs to judge it.
pub fn examine(candidate: &Candidate, criteria: &CriteriaSet) -> (evidence: Evidence)
    ensures
        evidence@ == evidence_of(criteria@, candidate@),
        candidate@.wf(),
{
    let public = candidate.public_bytes();
    match criteria {
        CriteriaSet::Difficulty(_) => Evidence::ZeroBits(
            get_leading_zero_bits(public.as_slice()) as u8,
        ),
        CriteriaSet::HexPrefix(_) => Evidence::Hex(to_hex(public.as_slice())),
        CriteriaSet::Affixes { .. } => Evidence::Npub(to_npub(public.as_slice())),
    }
}

/// What one turn hands to the program: the outcomes to report, in order, and
/// whether the search is over.
#[derive(Debug, PartialEq, Eq)]
pub struct StepResult {
    /// Near and exact matches, in the order in which they were found. Empty
    /// where the candidate is to be discarded.
    pub outcomes: Vec<MatchOutcome>,
    /// An exact match on a wanted prefix was committed: the worker stops.
    pub done: bool,
}

/// The views of a list of outcomes.
pub open spec fn outcome_views(list: Seq<MatchOutcome>) -> Seq<OutcomeView> {
    Seq::new(list.len(), |i: int| list[i]@)
}

/// One turn, as plain values: the shared state after it and what it hands to
/// the program.
pub struct StepView {
    pub ratchet: RatchetView,
    pub outcomes: Seq<OutcomeView>,
    pub done: bool,
}

/// What a scan over the wanted prefixes comes to.
pub struct ScanView {
    pub best: BestMatchView,
    pub outcomes: Seq<OutcomeView>,
    pub done: bool,
}

/// The shared state with one more candidate counted.
pub open spec fn counted(ratchet: RatchetView) -> RatchetView {
    RatchetView {
        iterations: if ratchet.iterations == u64::MAX {
            u64::MAX
        } else {
            (ratchet.iterations + 1) as u64
        },
        ..ratchet
    }
}

/// The outcomes that are reported: all but `NoMatch`.
pub open spec fn reported(outcome: OutcomeView) -> Seq<OutcomeView> {
    if outcome is NoMatch {
        Seq::<OutcomeView>::empty()
    } else {
        seq![outcome]
    }
}

/// The scan of the wanted prefixes from position `from` on, against the body
/// of an encoded key. Each prefix is scored in turn. A score that strictly
/// exceeds the best one so far replaces it, and is reported if it is a near
/// or an exact match; an exact match ends the scan.
pub open spec fn fuzzy_scan(
    prefixes: Seq<Seq<char>>,
    from: int,
    body: Seq<char>,
    candidate: CandidateView,
    best: BestMatchView,
) -> ScanView
    decreases prefixes.len() - from,
{
    if from < 0 || from >= prefixes.len() {
        ScanView { best, outcomes: Seq::<OutcomeView>::empty(), done: false }
    } else {
        let target = prefixes[from];
        let score = similarity_of(target, body);
        if !score.exceeds_spec(best.similarity) {
            fuzzy_scan(prefixes, from + 1, body, candidate, best)
        } else {
            let improved = BestMatchView {
                npub: body,
                similarity: score,
                candidate: Some(candidate),
            };
            if score.is_exact_spec() {
                ScanView {
                    best: improved,
                    outcomes: seq![fuzzy_outcome(score, target, body)],
                    done: true,
                }
            } else {
                let rest = fuzzy_scan(prefixes, from + 1, body, candidate, improved);
                ScanView {
                    best: rest.best,
                    outcomes: reported(fuzzy_outcome(score, target, body)) + rest.outcomes,
                    done: rest.done,
                }
            }
        }
    }
}

/// One turn of a worker. The candidate is counted. Then, by search mode:
/// by difficulty, a count above the best one is reported and, unless scaling
/// is off, becomes the best one; by hexadecimal prefix, and by suffixes or by
/// prefixes and suffixes of the encoded form, a fitting key is reported and
/// the shared state stays as it is; by prefixes of the encoded form alone,
/// the prefixes are scanned for the closest match. Evidence of another kind
/// than the search mode asks for yields nothing.
pub open spec fn step_spec(
    ratchet: RatchetView,
    criteria: CriteriaView,
    no_scaling: bool,
    evidence: EvidenceView,
    candidate: CandidateView,
) -> StepView {
    let start = counted(ratchet);
    let idle = StepView { ratchet: start, outcomes: Seq::<OutcomeView>::empty(), done: false };
    match (criteria, evidence) {
        (CriteriaView::Difficulty(_), EvidenceView::ZeroBits(z)) => StepView {
            ratchet: if z > start.best_difficulty && !no_scaling {
                RatchetView { best_difficulty: z, ..start }
            } else {
                start
            },
            outcomes: reported(difficulty_outcome(z, start.best_difficulty)),
            done: false,
        },
        (CriteriaView::HexPrefix(prefix), EvidenceView::Hex(hex)) => StepView {
            outcomes: reported(hex_prefix_outcome(hex, prefix)),
            ..idle
        },
        (CriteriaView::Affixes { prefixes, suffixes }, EvidenceView::Npub(encoded)) => {
            if prefixes.len() == 0 {
                StepView { outcomes: reported(suffix_outcome(encoded, suffixes)), ..idle }
            } else if suffixes.len() > 0 {
                StepView { outcomes: reported(pair_outcome(encoded, prefixes, suffixes)), ..idle }
            } else {
                let scan = fuzzy_scan(
                    prefixes,
                    0,
                    npub_body(encoded),
                    candidate,
                    start.best_fuzzy,
                );
                StepView {
                    ratchet: RatchetView { best_fuzzy: scan.best, ..start },
                    outcomes: scan.outcomes,
                    done: scan.done,
                }
            }
        },
        _ => idle,
    }
}

/// In a search by difficulty with scaling, one turn moves the best
/// difficulty as one attempt to commit does, and reports the candidate
/// exactly when that attempt is committed. Without scaling the best
/// difficulty stays, and every candidate above it is reported.
pub proof fn lemma_difficulty_turn(
    ratchet: RatchetView,
    difficulty: u8,
    no_scaling: bool,
    z: u8,
    candidate: CandidateView,
)
    ensures
        ({
            let step = step_spec(
                ratchet,
                CriteriaView::Difficulty(difficulty),
                no_scaling,
                EvidenceView::ZeroBits(z),
                candidate,
            );
            &&& !no_scaling ==> step.ratchet.best_difficulty == crate::ratchet::ratchet_step(
                ratchet.best_difficulty,
                z,
            )
            &&& no_scaling ==> step.ratchet.best_difficulty == ratchet.best_difficulty
            &&& step.ratchet.best_fuzzy == ratchet.best_fuzzy
            &&& !step.done
            &&& if z > ratchet.best_difficulty {
                step.outcomes == seq![
                    OutcomeView::ExactMatch { label: Seq::<char>::empty(), leading_zero_bits: z },
                ]
            } else {
                step.outcomes == Seq::<OutcomeView>::empty()
            }
        }),
{
}

/// The best score never decreases in a scan, and a scan ends early exactly
/// when its last report is an exact match.
pub proof fn lemma_fuzzy_scan_keeps_order(
    prefixes: Seq<Seq<char>>,
    from: int,
    body: Seq<char>,
    candidate: CandidateView,
    best: BestMatchView,
)
    requires
        0 <= from,
        best.similarity.wf(),
        forall|i: int| 0 <= i < prefixes.len() ==> (#[trigger] prefixes[i]).len() <= usize::MAX,
    ensures
        fuzzy_scan(prefixes, from, body, candidate, best).best.similarity.wf(),
        !best.similarity.exceeds_spec(
            fuzzy_scan(prefixes, from, body, candidate, best).best.similarity,
        ),
        fuzzy_scan(prefixes, from, body, candidate, best).done <==> (fuzzy_scan(
            prefixes,
            from,
            body,
            candidate,
            best,
        ).outcomes.len() > 0 && fuzzy_scan(prefixes, from, body, candidate, best).outcomes.last()
            is ExactMatch),
        forall|k: int|
            0 <= k < fuzzy_scan(prefixes, from, body, candidate, best).outcomes.len() - 1
                ==> #[trigger] fuzzy_scan(prefixes, from, body, candidate, best).outcomes[k]
                is NearMatch,
    decreases prefixes.len() - from,
{
    if from < prefixes.len() {
        let target = prefixes[from];
        let score = similarity_of(target, body);
        crate::text::lemma_common_prefix_len_props(target, body);
        assert(score.wf());
        if !score.exceeds_spec(best.similarity) {
            lemma_fuzzy_scan_keeps_order(prefixes, from + 1, body, candidate, best);
        } else if !score.is_exact_spec() {
            let improved = BestMatchView {
                npub: body,
                similarity: score,
                candidate: Some(candidate),
            };
            lemma_fuzzy_scan_keeps_order(prefixes, from + 1, body, candidate, improved);
            let rest = fuzzy_scan(prefixes, from + 1, body, candidate, improved);
            let all = fuzzy_scan(prefixes, from, body, candidate, best);
            let head = reported(fuzzy_outcome(score, target, body));
            assert(all.outcomes == head + rest.outcomes);
            if best.similarity.exceeds_spec(rest.best.similarity) {
                crate::similarity::lemma_exceeds_transitive(
                    score,
                    best.similarity,
                    rest.best.similarity,
                );
            }
            if rest.outcomes.len() > 0 {
                assert(all.outcomes.last() == rest.outcomes.last());
            }
            assert forall|k: int| 0 <= k < all.outcomes.len() - 1 implies #[trigger] all.outcomes[k]
                is NearMatch by {
                if k >= head.len() {
                    assert(all.outcomes[k] == rest.outcomes[k - head.len()]);
                }
            }
            if rest.outcomes.len() == 0 {
                assert(!rest.done);
                assert(all.outcomes =~= head);
            }
        }
    }
}

/// A prefix that the body of the key starts with is committed as an exact
/// match, and ends the scan when its turn comes, as long as the best score so
/// far is below 100 percent.
pub proof fn lemma_full_match_ends_scan(
    prefixes: Seq<Seq<char>>,
    from: int,
    body: Seq<char>,
    candidate: CandidateView,
    best: BestMatchView,
)
    requires
        0 <= from < prefixes.len(),
        0 < prefixes[from].len() <= usize::MAX,
        prefixes[from].is_prefix_of(body),
        best.similarity.wf(),
        !best.similarity.is_exact_spec(),
    ensures
        fuzzy_scan(prefixes, from, body, candidate, best) == (ScanView {
            best: BestMatchView {
                npub: body,
                similarity: similarity_of(prefixes[from], body),
                candidate: Some(candidate),
            },
            outcomes: seq![
                OutcomeView::ExactMatch { label: prefixes[from], leading_zero_bits: 0 },
            ],
            done: true,
        }),
        similarity_of(prefixes[from], body).is_exact_spec(),
{
    let target = prefixes[from];
    let score = similarity_of(target, body);
    crate::text::lemma_prefix_iff_common_prefix(target, body);
    let n = target.len() as int;
    let m = best.similarity.matching as int;
    let t = best.similarity.total as int;
    assert(n * t > m * n) by (nonlinear_arith)
        requires
            n > 0,
            0 <= m < t,
    ;
}

/// The list of what is to be reported of one outcome.
fn reported_list(outcome: MatchOutcome) -> (list: Vec<MatchOutcome>)
    ensures
        outcome_views(list@) == reported(outcome@),
{
    let mut list: Vec<MatchOutcome> = Vec::new();
    match outcome {
        MatchOutcome::NoMatch => {},
        found => {
            list.push(found);
        },
    }
    assert(outcome_views(list@) =~= reported(outcome@));
    list
}

/// Scans the wanted prefixes against the body of an encoded key: scores each
/// in turn, commits every score that exceeds the best one so far, and
/// collects the near and exact matches among them, up to the first exact one.
pub fn scan_prefixes(
    ratchet: &mut Ratchet,
    prefixes: &Vec<String>,
    body: &str,
    candidate: &Candidate,
) -> (step: StepResult)
    ensures
        ({
            let scan = fuzzy_scan(
                texts(prefixes@),
                0,
                body@,
                candidate@,
                old(ratchet)@.best_fuzzy,
            );
            &&& final(ratchet)@ == (RatchetView { best_fuzzy: scan.best, ..old(ratchet)@ })
            &&& outcome_views(step.outcomes@) == scan.outcomes
            &&& step.done == scan.done
        }),
{
    let ghost start = ratchet@;
    let ghost total = fuzzy_scan(texts(prefixes@), 0, body@, candidate@, start.best_fuzzy);
    let mut outcomes: Vec<MatchOutcome> = Vec::new();
    let mut done = false;
    let mut i: usize = 0;
    assert(outcome_views(outcomes@) =~= Seq::<OutcomeView>::empty());
    while i < prefixes.len() && !done
        invariant
            i <= prefixes.len(),
            ratchet@ == (RatchetView { best_fuzzy: ratchet@.best_fuzzy, ..start }),
            total == fuzzy_scan(texts(prefixes@), 0, body@, candidate@, start.best_fuzzy),
            !done ==> ({
                let rest = fuzzy_scan(
                    texts(prefixes@),
                    i as int,
                    body@,
                    candidate@,
                    ratchet@.best_fuzzy,
                );
                &&& total.best == rest.best
                &&& total.outcomes == outcome_views(outcomes@) + rest.outcomes
                &&& total.done == rest.done
            }),
            done ==> total.best == ratchet@.best_fuzzy && total.outcomes == outcome_views(
                outcomes@,
            ) && total.done,
        decreases prefixes.len() - i,
    {
        let target = prefixes[i].as_str();
        let ghost before = outcome_views(outcomes@);
        proof {
            assert(texts(prefixes@)[i as int] == target@);
        }
        let score = calculate_string_similarity(target, body);
        if ratchet.try_commit_similarity(score, body, candidate) {
            let outcome = classify_similarity(score, target, body);
            done = score.is_exact();
            let ghost head = reported(outcome@);
            match outcome {
                MatchOutcome::NoMatch => {},
                found => {
                    outcomes.push(found);
                },
            }
            proof {
                assert(outcome_views(outcomes@) =~= before + head);
                if !done {
                    let rest = fuzzy_scan(
                        texts(prefixes@),
                        i + 1,
                        body@,
                        candidate@,
                        ratchet@.best_fuzzy,
                    );
                    assert(before + (head + rest.outcomes) =~= (before + head) + rest.outcomes);
                }
            }
        }
        i = i + 1;
    }
    proof {
        if !done {
            assert(outcome_views(outcomes@) + Seq::<OutcomeView>::empty() =~= outcome_views(
                outcomes@,
            ));
        }
    }
    StepResult { outcomes, done }
}

/// One turn of a worker on evidence already taken: counts the candidate,
/// judges it, moves the shared state where the outcome asks for it, and
/// hands back what is to be reported.
pub fn decide(
    ratchet: &mut Ratchet,
    criteria: &CriteriaSet,
    no_scaling: bool,
    evidence: &Evidence,
    candidate: &Candidate,
) -> (step: StepResult)
    ensures
        (StepView {
            ratchet: final(ratchet)@,
            outcomes: outcome_views(step.outcomes@),
            done: step.done,
        }) == step_spec(old(ratchet)@, criteria@, no_scaling, evidence@, candidate@),
{
    ratchet.record_iteration();
    match (criteria, evidence) {
        (CriteriaSet::Difficulty(_), Evidence::ZeroBits(z)) => {
            let outcome = match_difficulty(*z, ratchet.best_difficulty());
            if !no_scaling {
                ratchet.try_commit_difficulty(*z);
            }
            StepResult { outcomes: reported_list(outcome), done: false }
        },
        (CriteriaSet::HexPrefix(prefix), Evidence::Hex(hex)) => {
            let outcome = match_hex_prefix(hex.as_str(), prefix.as_str());
            StepResult { outcomes: reported_list(outcome), done: false }
        },
        (CriteriaSet::Affixes { prefixes, suffixes }, Evidence::Npub(encoded)) => {
            if prefixes.is_empty() {
                let outcome = match_suffix(encoded.as_str(), suffixes);
                StepResult { outcomes: reported_list(outcome), done: false }
            } else if !suffixes.is_empty() {
                let outcome = match_pair(encoded.as_str(), prefixes, suffixes);
                StepResult { outcomes: reported_list(outcome), done: false }
            } else {
                scan_prefixes(ratchet, prefixes, strip_tag(encoded.as_str()), candidate)
            }
        },
        _ => {
            let idle = StepResult { outcomes: Vec::new(), done: false };
            assert(outcome_views(idle.outcomes@) =~= Seq::<OutcomeView>::empty());
            idle
        },
    }
}

/// One turn of a worker on a fresh candidate: takes the evidence that the
/// search mode asks for and decides on it.
pub fn process_candidate(
    ratchet: &mut Ratchet,
    criteria: &CriteriaSet,
    no_scaling: bool,
    candidate: &Candidate,
) -> (step: StepResult)
    ensures
        (StepView {
            ratchet: final(ratchet)@,
            outcomes: outcome_views(step.outcomes@),
            done: step.done,
        }) == step_spec(
            old(ratchet)@,
            criteria@,
            no_scaling,
            evidence_of(criteria@, candidate@),
            candidate@,
        ),
        candidate@.wf(),
{
    let evidence = examine(candidate, criteria);
    decide(ratchet, criteria, no_scaling, &evidence, candidate)
}

} // verus!
