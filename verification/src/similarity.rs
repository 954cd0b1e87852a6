//! How closely an encoded key resembles a wanted prefix.
//!
//! A similarity is kept as the exact fraction of the target's characters that
//! the candidate reproduces from its start, so that two scores compare without
//! rounding.

use vstd::prelude::*;
use crate::text::{chars_of, common_prefix_len, count_common_prefix, lemma_common_prefix_len_props};

verus! {

/// The share `matching / total` of a target that a candidate reproduces.
#[derive(Clone, Copy, Debug, PartialEq, Eq, Structural)]
pub struct Similarity {
    /// Leading characters of the target found at the start of the candidate.
    pub matching: usize,
    /// Length of the target; at least one.
    pub total: usize,
}

impl Similarity {
    /// A proper fraction between zero and one.
    pub open spec fn wf(self) -> bool {
        1 <= self.total && self.matching <= self.total
    }

    /// `self` is a strictly larger share than `other`.
    pub open spec fn exceeds_spec(self, other: Similarity) -> bool {
        self.matching * other.total > other.matching * self.total
    }

    /// The whole target is reproduced: a similarity of 100 percent.
    pub open spec fn is_exact_spec(self) -> bool {
        self.matching == self.total
    }

    /// At least 75 percent of the target is reproduced, but not all of it.
    pub open spec fn is_near_spec(self) -> bool {
        75 * self.total <= 100 * self.matching && self.matching < self.total
    }

    /// The share as a percentage, rounded down.
    pub open spec fn percent_spec(self) -> nat {
        (100 * self.matching / (self.total as int)) as nat
    }

    /// The score of a candidate that reproduces nothing.
    pub fn zero() -> (s: Similarity)
        ensures
            s == (Similarity { matching: 0, total: 1 }),
            s.wf(),
    {
        Similarity { matching: 0, total: 1 }
    }

    /// Whether `self` is a strictly larger share than `other`.
    #[verifier::when_used_as_spec(exceeds_spec)]
    pub fn exceeds(self, other: Similarity) -> (more: bool)
        ensures
            more == self.exceeds_spec(other),
    {
        let a: u128 = self.matching as u128;
        let b: u128 = other.total as u128;
        let c: u128 = other.matching as u128;
        let d: u128 = self.total as u128;
        assert(a * b <= 0xffff_ffff_ffff_ffff * 0xffff_ffff_ffff_ffff) by (nonlinear_arith)
            requires
                a <= 0xffff_ffff_ffff_ffff,
                b <= 0xffff_ffff_ffff_ffff,
        ;
        assert(c * d <= 0xffff_ffff_ffff_ffff * 0xffff_ffff_ffff_ffff) by (nonlinear_arith)
            requires
                c <= 0xffff_ffff_ffff_ffff,
                d <= 0xffff_ffff_ffff_ffff,
        ;
        a * b > c * d
    }

    /// Whether the whole target is reproduced.
    #[verifier::when_used_as_spec(is_exact_spec)]
    pub fn is_exact(self) -> (exact: bool)
        ensures
            exact == self.is_exact_spec(),
    {
        self.matching == self.total
    }

    /// Whether the score lies in the band from 75 percent up to, but not
    /// including, 100 percent.
    #[verifier::when_used_as_spec(is_near_spec)]
    pub fn is_near(self) -> (near: bool)
        ensures
            near == self.is_near_spec(),
    {
        let m: u128 = self.matching as u128;
        let t: u128 = self.total as u128;
        75 * t <= 100 * m && self.matching < self.total
    }

    /// The share as a percentage, rounded down.
    pub fn percent(self) -> (p: u8)
        requires
            self.wf(),
        ensures
            p == self.percent_spec(),
            p <= 100,
    {
        let m: u128 = self.matching as u128;
        let t: u128 = self.total as u128;
        let q: u128 = 100 * m / t;
        assert(q <= 100) by (nonlinear_arith)
            requires
                q == 100 * m / (t as int),
                m <= t,
                t >= 1,
        ;
        q as u8
    }
}

/// The similarity of `candidate` to `target`: the length of their common
/// prefix over the length of the target. An empty target scores zero.
pub open spec fn similarity_of(target: Seq<char>, candidate: Seq<char>) -> Similarity {
    Similarity {
        matching: common_prefix_len(target, candidate) as usize,
        total: if target.len() == 0 {
            1
        } else {
            target.len() as usize
        },
    }
}

/// A share that exceeds `b` exceeds everything that does not exceed `b`.
pub proof fn lemma_exceeds_transitive(a: Similarity, b: Similarity, c: Similarity)
    requires
        a.wf(),
        b.wf(),
        c.wf(),
        a.exceeds_spec(b),
        !c.exceeds_spec(b),
    ensures
        a.exceeds_spec(c),
{
    let (am, at) = (a.matching as int, a.total as int);
    let (bm, bt) = (b.matching as int, b.total as int);
    let (cm, ct) = (c.matching as int, c.total as int);
    assert(am * ct > cm * at) by (nonlinear_arith)
        requires
            am * bt > bm * at,
            bm * ct >= cm * bt,
            at >= 1,
            bt >= 1,
            ct >= 1,
            am >= 0,
            bm >= 0,
            cm >= 0,
    ;
}

/// No share exceeds itself, and of two shares at most one exceeds the other.
pub proof fn lemma_exceeds_strict(a: Similarity, b: Similarity)
    ensures
        !a.exceeds_spec(a),
        a.exceeds_spec(b) ==> !b.exceeds_spec(a),
{
}

/// The two reporting bands read as percentages: a near match scores from 75
/// up to 99 percent, an exact match 100 percent, and nothing scores more.
pub proof fn lemma_bands_by_percent(s: Similarity)
    requires
        s.wf(),
    ensures
        s.percent_spec() <= 100,
        s.is_exact_spec() <==> s.percent_spec() == 100,
        s.is_near_spec() <==> 75 <= s.percent_spec() < 100,
{
    let m = s.matching as int;
    let t = s.total as int;
    let q = 100 * m / t;
    assert(q * t <= 100 * m < (q + 1) * t) by (nonlinear_arith)
        requires
            q == 100 * m / t,
            t >= 1,
            m >= 0,
    ;
    assert(q <= 100 && (q == 100 <==> m == t) && (q >= 75 <==> 75 * t <= 100 * m))
        by (nonlinear_arith)
        requires
            q * t <= 100 * m < (q + 1) * t,
            0 <= m <= t,
            t >= 1,
    ;
}

/// Scores how much of `target` the string `candidate` reproduces from its
/// start.
pub fn calculate_string_similarity(target: &str, candidate: &str) -> (s: Similarity)
    ensures
        s == similarity_of(target@, candidate@),
        s.matching == common_prefix_len(target@, candidate@),
        s.total == if target@.len() == 0 { 1 } else { target@.len() },
        s.wf(),
{
    let t = chars_of(target);
    let c = chars_of(candidate);
    let matching = count_common_prefix(t.as_slice(), c.as_slice());
    proof {
        lemma_common_prefix_len_props(target@, candidate@);
    }
    let total: usize = if t.len() == 0 {
        1
    } else {
        t.len()
    };
    Similarity { matching, total }
}

} // verus!
