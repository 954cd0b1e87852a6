//! The shared record of the best result so far. It only ever moves towards
//! better results, which is what keeps worse or equal finds from being
//! reported twice.

use vstd::prelude::*;
use crate::candidate::{Candidate, CandidateView};
use crate::similarity::{lemma_exceeds_transitive, Similarity};

verus! {

/// The best difficulty after one attempt to commit `z` over `best`: `z` where
/// it is strictly greater, else `best` unchanged.
pub open spec fn ratchet_step(best: u8, z: u8) -> u8 {
    if z > best {
        z
    } else {
        best
    }
}

/// The best difficulty after the attempts `attempts`, made in that order on a
/// ratchet that starts at `start`.
pub open spec fn best_after(start: u8, attempts: Seq<u8>) -> u8
    decreases attempts.len(),
{
    if attempts.len() == 0 {
        start
    } else {
        ratchet_step(best_after(start, attempts.drop_last()), attempts.last())
    }
}

/// Whether attempt number `i` of `attempts` is committed: its value is
/// strictly greater than the best of all attempts before it.
pub open spec fn commits_at(start: u8, attempts: Seq<u8>, i: int) -> bool {
    attempts[i] > best_after(start, attempts.take(i))
}

/// In whatever order attempts to commit arrive, the best difficulty never
/// decreases: what it is after the first `i` attempts it is at least after
/// the first `j`, for `i <= j`.
pub proof fn lemma_best_difficulty_never_decreases(start: u8, attempts: Seq<u8>, i: int, j: int)
    requires
        0 <= i <= j <= attempts.len(),
    ensures
        best_after(start, attempts.take(i)) <= best_after(start, attempts.take(j)),
    decreases j - i,
{
    if i < j {
        lemma_best_difficulty_never_decreases(start, attempts, i, j - 1);
        assert(attempts.take(j).drop_last() =~= attempts.take(j - 1));
    }
}

/// Every committed attempt is strictly greater than the best difficulty right
/// before it and is the best difficulty right after it; an attempt that is
/// not committed changes nothing.
pub proof fn lemma_commit_is_strict_improvement(start: u8, attempts: Seq<u8>, i: int)
    requires
        0 <= i < attempts.len(),
    ensures
        commits_at(start, attempts, i) ==> best_after(start, attempts.take(i + 1)) == attempts[i]
            && attempts[i] > best_after(start, attempts.take(i)),
        !commits_at(start, attempts, i) ==> best_after(start, attempts.take(i + 1)) == best_after(
            start,
            attempts.take(i),
        ),
{
    assert(attempts.take(i + 1).drop_last() =~= attempts.take(i));
    assert(attempts.take(i + 1).last() == attempts[i]);
}

/// The best difficulty after any attempts is the starting value or one of
/// the attempted values, and no attempted value is greater.
pub proof fn lemma_best_after_is_maximum(start: u8, attempts: Seq<u8>)
    ensures
        best_after(start, attempts) >= start,
        forall|i: int| 0 <= i < attempts.len() ==> best_after(start, attempts) >= attempts[i],
        best_after(start, attempts) == start || exists|i: int|
            0 <= i < attempts.len() && attempts[i] == best_after(start, attempts),
    decreases attempts.len(),
{
    if attempts.len() > 0 {
        let init = attempts.drop_last();
        lemma_best_after_is_maximum(start, init);
        assert forall|i: int| 0 <= i < attempts.len() implies best_after(start, attempts)
            >= attempts[i] by {
            if i < init.len() {
                assert(init[i] == attempts[i]);
            }
        }
        if best_after(start, attempts) != start {
            if attempts.last() > best_after(start, init) {
                assert(attempts[attempts.len() - 1] == best_after(start, attempts));
            } else {
                let k = choose|k: int| 0 <= k < init.len() && init[k] == best_after(start, init);
                assert(attempts[k] == best_after(start, attempts));
            }
        }
    }
}

/// The order in which attempts arrive does not matter for where the best
/// difficulty ends: two runs over the same attempts, each in an order of its
/// own, end at the same value.
pub proof fn lemma_best_after_any_order(start: u8, first: Seq<u8>, second: Seq<u8>)
    requires
        forall|i: int| 0 <= i < first.len() ==> second.contains(#[trigger] first[i]),
        forall|j: int| 0 <= j < second.len() ==> first.contains(#[trigger] second[j]),
    ensures
        best_after(start, first) == best_after(start, second),
{
    lemma_best_after_is_maximum(start, first);
    lemma_best_after_is_maximum(start, second);
    let a = best_after(start, first);
    let b = best_after(start, second);
    if a != start {
        let i = choose|i: int| 0 <= i < first.len() && first[i] == a;
        assert(second.contains(first[i]));
        let j = choose|j: int| 0 <= j < second.len() && second[j] == first[i];
        assert(b >= second[j]);
    }
    if b != start {
        let j = choose|j: int| 0 <= j < second.len() && second[j] == b;
        assert(first.contains(second[j]));
        let i = choose|i: int| 0 <= i < first.len() && first[i] == second[j];
        assert(a >= first[i]);
    }
}

/// The closest fuzzy match so far: the body of its encoded key, its score and
/// the key pair itself.
#[derive(Debug)]
pub struct BestMatch {
    /// The encoded public key without its tag; empty while nothing scored.
    pub npub: String,
    /// The score of that key against the prefix it resembled most.
    pub similarity: Similarity,
    /// The key pair; `None` while nothing scored.
    pub candidate: Option<Candidate>,
}

/// What a best match holds, as plain values.
pub struct BestMatchView {
    pub npub: Seq<char>,
    pub similarity: Similarity,
    pub candidate: Option<CandidateView>,
}

impl View for BestMatch {
    type V = BestMatchView;

    open spec fn view(&self) -> BestMatchView {
        BestMatchView {
            npub: self.npub@,
            similarity: self.similarity,
            candidate: match self.candidate {
                Some(c) => Some(c@),
                None => None,
            },
        }
    }
}

impl BestMatch {
    /// The record before anything scored: no key, and a score of zero.
    pub fn new() -> (best: BestMatch)
        ensures
            best@ == (BestMatchView {
                npub: Seq::<char>::empty(),
                similarity: Similarity { matching: 0, total: 1 },
                candidate: None,
            }),
    {
        BestMatch { npub: String::new(), similarity: Similarity::zero(), candidate: None }
    }
}

/// What a ratchet holds, as plain values.
pub struct RatchetView {
    pub best_difficulty: u8,
    pub best_fuzzy: BestMatchView,
    pub iterations: u64,
}

/// The state that all workers share: the best difficulty found so far, the
/// closest fuzzy match with its key pair, and the number of candidates
/// generated.
///
/// Workers reach the one ratchet of a session through a lock. Each method is
/// then a single indivisible step, and the calls of all workers, in the
/// order in which they take the lock, form one sequence of attempts: the
/// sequence that `best_after` and the laws about it speak of.
#[derive(Debug)]
pub struct Ratchet {
    best_difficulty: u8,
    best_fuzzy: BestMatch,
    iterations: u64,
}

impl View for Ratchet {
    type V = RatchetView;

    closed spec fn view(&self) -> RatchetView {
        RatchetView {
            best_difficulty: self.best_difficulty,
            best_fuzzy: self.best_fuzzy@,
            iterations: self.iterations,
        }
    }
}

impl Ratchet {
    #[verifier::type_invariant]
    spec fn inv(self) -> bool {
        self.best_fuzzy.similarity.wf()
    }

    /// A ratchet that starts at the configured difficulty, with no fuzzy
    /// match and no candidate counted yet.
    pub fn new(difficulty: u8) -> (ratchet: Ratchet)
        ensures
            ratchet@ == (RatchetView {
                best_difficulty: difficulty,
                best_fuzzy: BestMatchView {
                    npub: Seq::<char>::empty(),
                    similarity: Similarity { matching: 0, total: 1 },
                    candidate: None,
                },
                iterations: 0,
            }),
    {
        Ratchet { best_difficulty: difficulty, best_fuzzy: BestMatch::new(), iterations: 0 }
    }

    /// The best difficulty found so far.
    pub fn best_difficulty(&self) -> (best: u8)
        ensures
            best == self@.best_difficulty,
    {
        self.best_difficulty
    }

    /// The closest fuzzy match so far.
    pub fn best_fuzzy(&self) -> (best: &BestMatch)
        ensures
            best@ == self@.best_fuzzy,
            best.similarity.wf(),
    {
        proof {
            use_type_invariant(self);
        }
        &self.best_fuzzy
    }

    /// The number of candidates generated so far.
    pub fn iterations(&self) -> (count: u64)
        ensures
            count == self@.iterations,
    {
        self.iterations
    }

    /// Replaces the best difficulty by `z` if `z` is strictly greater, and
    /// says whether it did. The best difficulty never decreases.
    pub fn try_commit_difficulty(&mut self, z: u8) -> (committed: bool)
        ensures
            committed == (z > old(self)@.best_difficulty),
            final(self)@ == (RatchetView {
                best_difficulty: ratchet_step(old(self)@.best_difficulty, z),
                ..old(self)@
            }),
            final(self)@.best_difficulty >= old(self)@.best_difficulty,
    {
        proof {
            use_type_invariant(&*self);
        }
        if z > self.best_difficulty {
            self.best_difficulty = z;
            true
        } else {
            false
        }
    }

    /// Records `candidate`, whose encoded key without its tag is `body`, as
    /// the closest fuzzy match if `score` strictly exceeds the best score so
    /// far, and says whether it did. The best score never decreases.
    pub fn try_commit_similarity(
        &mut self,
        score: Similarity,
        body: &str,
        candidate: &Candidate,
    ) -> (committed: bool)
        requires
            score.wf(),
        ensures
            committed == score.exceeds_spec(old(self)@.best_fuzzy.similarity),
            committed ==> final(self)@ == (RatchetView {
                best_fuzzy: BestMatchView {
                    npub: body@,
                    similarity: score,
                    candidate: Some(candidate@),
                },
                ..old(self)@
            }),
            !committed ==> final(self)@ == old(self)@,
            !old(self)@.best_fuzzy.similarity.exceeds_spec(final(self)@.best_fuzzy.similarity),
            final(self)@.best_fuzzy.similarity.wf(),
    {
        proof {
            use_type_invariant(&*self);
        }
        if score.exceeds(self.best_fuzzy.similarity) {
            self.best_fuzzy = BestMatch {
                npub: body.to_owned(),
                similarity: score,
                candidate: Some(candidate.clone()),
            };
            true
        } else {
            false
        }
    }

    /// Counts one more generated candidate. The count stops at the largest
    /// value it can hold.
    pub fn record_iteration(&mut self)
        ensures
            final(self)@ == (RatchetView {
                iterations: if old(self)@.iterations == u64::MAX {
                    u64::MAX
                } else {
                    (old(self)@.iterations + 1) as u64
                },
                ..old(self)@
            }),
    {
        proof {
            use_type_invariant(&*self);
        }
        if self.iterations < u64::MAX {
            self.iterations = self.iterations + 1;
        }
    }
}

/// A score that is committed over the recorded best exceeds every earlier
/// score that the recorded best was not below: the committed scores grow
/// strictly.
pub proof fn lemma_commit_exceeds_earlier(earlier: Similarity, best: Similarity, score: Similarity)
    requires
        earlier.wf(),
        best.wf(),
        score.wf(),
        !earlier.exceeds_spec(best),
        score.exceeds_spec(best),
    ensures
        score.exceeds_spec(earlier),
{
    lemma_exceeds_transitive(score, best, earlier);
}

} // verus!
