//! Character-level helpers on strings: prefixes, suffixes and common prefixes.

use vstd::prelude::*;

verus! {

/// Number of leading positions at which `a` and `b` hold the same character.
pub open spec fn common_prefix_len(a: Seq<char>, b: Seq<char>) -> nat
    decreases a.len(),
{
    if a.len() == 0 || b.len() == 0 || a[0] != b[0] {
        0
    } else {
        1 + common_prefix_len(a.drop_first(), b.drop_first())
    }
}

/// `n` is the common prefix length of `a` and `b` when the two agree on their
/// first `n` characters and either one of them ends there or they differ at
/// position `n`.
pub proof fn lemma_common_prefix_len_is(a: Seq<char>, b: Seq<char>, n: int)
    requires
        0 <= n <= a.len(),
        n <= b.len(),
        forall|j: int| 0 <= j < n ==> a[j] == b[j],
        n == a.len() || n == b.len() || a[n] != b[n],
    ensures
        common_prefix_len(a, b) == n,
    decreases n,
{
    if n > 0 {
        let a1 = a.drop_first();
        let b1 = b.drop_first();
        assert(a[0] == b[0]);
        assert forall|j: int| 0 <= j < n - 1 implies a1[j] == b1[j] by {
            assert(a1[j] == a[j + 1]);
            assert(b1[j] == b[j + 1]);
        }
        if n < a.len() && n < b.len() {
            assert(a1[n - 1] == a[n]);
            assert(b1[n - 1] == b[n]);
        }
        lemma_common_prefix_len_is(a1, b1, n - 1);
    }
}

/// The common prefix is a prefix of both, and the two differ right after it
/// unless one of them ends there.
pub proof fn lemma_common_prefix_len_props(a: Seq<char>, b: Seq<char>)
    ensures
        common_prefix_len(a, b) <= a.len(),
        common_prefix_len(a, b) <= b.len(),
        forall|j: int| 0 <= j < common_prefix_len(a, b) ==> a[j] == b[j],
        common_prefix_len(a, b) == a.len() || common_prefix_len(a, b) == b.len() || a[common_prefix_len(
            a,
            b,
        ) as int] != b[common_prefix_len(a, b) as int],
    decreases a.len(),
{
    if a.len() == 0 || b.len() == 0 || a[0] != b[0] {
    } else {
        let a1 = a.drop_first();
        let b1 = b.drop_first();
        lemma_common_prefix_len_props(a1, b1);
        let n = common_prefix_len(a1, b1) as int;
        assert forall|j: int| 0 <= j < n + 1 implies a[j] == b[j] by {
            if j > 0 {
                assert(a1[j - 1] == a[j]);
                assert(b1[j - 1] == b[j]);
            }
        }
        if n < a1.len() && n < b1.len() {
            assert(a1[n] == a[n + 1]);
            assert(b1[n] == b[n + 1]);
        }
    }
}

/// `a` is a prefix of `b` exactly when the two agree on all of `a`.
pub proof fn lemma_prefix_iff_common_prefix(a: Seq<char>, b: Seq<char>)
    ensures
        a.is_prefix_of(b) <==> common_prefix_len(a, b) == a.len(),
{
    lemma_common_prefix_len_props(a, b);
    if a.is_prefix_of(b) {
        assert forall|j: int| 0 <= j < a.len() implies a[j] == b[j] by {
            assert(b.subrange(0, a.len() as int)[j] == b[j]);
        }
        lemma_common_prefix_len_is(a, b, a.len() as int);
    }
    if common_prefix_len(a, b) == a.len() {
        assert(a =~= b.subrange(0, a.len() as int));
    }
}

/// The characters of `s`, in order.
pub fn chars_of(s: &str) -> (v: Vec<char>)
    ensures
        v@ == s@,
{
    let mut v: Vec<char> = Vec::new();
    for c in it: s.chars()
        invariant
            v@ == it.seq().take(it.index() as int),
    {
        v.push(c);
    }
    v
}

/// Counts the leading characters that `a` and `b` have in common.
pub fn count_common_prefix(a: &[char], b: &[char]) -> (n: usize)
    ensures
        n == common_prefix_len(a@, b@),
{
    let mut i: usize = 0;
    while i < a.len() && i < b.len() && a[i] == b[i]
        invariant
            i <= a.len(),
            i <= b.len(),
            forall|j: int| 0 <= j < i ==> a@[j] == b@[j],
        decreases a.len() - i,
    {
        i = i + 1;
    }
    proof {
        lemma_common_prefix_len_is(a@, b@, i as int);
    }
    i
}

/// Whether `text` begins with `prefix`.
pub fn starts_with(text: &[char], prefix: &[char]) -> (found: bool)
    ensures
        found == prefix@.is_prefix_of(text@),
{
    if prefix.len() > text.len() {
        return false;
    }
    let n = count_common_prefix(prefix, text);
    proof {
        lemma_prefix_iff_common_prefix(prefix@, text@);
    }
    n == prefix.len()
}

/// Whether `text` ends with `suffix`.
pub fn ends_with(text: &[char], suffix: &[char]) -> (found: bool)
    ensures
        found == suffix@.is_suffix_of(text@),
{
    if suffix.len() > text.len() {
        return false;
    }
    let offset = text.len() - suffix.len();
    let mut i: usize = 0;
    while i < suffix.len()
        invariant
            i <= suffix.len(),
            suffix.len() <= text.len(),
            offset == text.len() - suffix.len(),
            forall|j: int| 0 <= j < i ==> suffix@[j] == text@[offset + j],
        decreases suffix.len() - i,
    {
        if suffix[i] != text[offset + i] {
            proof {
                let tail = text@.subrange(offset as int, text@.len() as int);
                assert(tail[i as int] == text@[offset + i]);
            }
            return false;
        }
        i = i + 1;
    }
    assert(suffix@ =~= text@.subrange(offset as int, text@.len() as int));
    true
}

} // verus!
