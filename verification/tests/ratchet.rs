use rana::candidate::Candidate;
use rana::ratchet::{BestMatch, Ratchet};
use rana::similarity::Similarity;

fn ratchet_test_candidate(first: u8) -> Candidate {
    let mut public = vec![0u8; 32];
    public[0] = first;
    public[31] = 1;
    Candidate::new(vec![7u8; 32], public, None).unwrap()
}

#[test]
fn ratchet_starts_at_the_configured_difficulty() {
    let ratchet = Ratchet::new(10);
    assert_eq!(ratchet.best_difficulty(), 10);
    assert_eq!(ratchet.iterations(), 0);
    assert_eq!(ratchet.best_fuzzy().similarity, Similarity::zero());
    assert_eq!(ratchet.best_fuzzy().npub, "");
    assert!(ratchet.best_fuzzy().candidate.is_none());
}

#[test]
fn best_match_starts_empty() {
    let best = BestMatch::new();
    assert_eq!(best.npub, "");
    assert_eq!(best.similarity, Similarity { matching: 0, total: 1 });
    assert!(best.candidate.is_none());
}

#[test]
fn commit_requires_a_strictly_greater_difficulty() {
    let mut ratchet = Ratchet::new(10);
    assert!(!ratchet.try_commit_difficulty(10));
    assert_eq!(ratchet.best_difficulty(), 10);
    assert!(!ratchet.try_commit_difficulty(9));
    assert_eq!(ratchet.best_difficulty(), 10);
    assert!(ratchet.try_commit_difficulty(11));
    assert_eq!(ratchet.best_difficulty(), 11);
    assert!(!ratchet.try_commit_difficulty(11));
    assert!(ratchet.try_commit_difficulty(255));
    assert!(!ratchet.try_commit_difficulty(255));
    assert_eq!(ratchet.best_difficulty(), 255);
}

#[test]
fn best_difficulty_never_decreases_over_any_order_of_attempts() {
    let attempts: [u8; 12] = [3, 200, 7, 15, 15, 0, 255, 1, 254, 16, 17, 255];
    for start in [0u8, 5, 15, 100, 255] {
        for skip in 0..attempts.len() {
            let mut ratchet = Ratchet::new(start);
            let mut previous = start;
            for k in 0..attempts.len() {
                let z = attempts[(k + skip) % attempts.len()];
                let committed = ratchet.try_commit_difficulty(z);
                let now = ratchet.best_difficulty();
                assert!(now >= previous);
                assert_eq!(committed, z > previous);
                if committed {
                    assert_eq!(now, z);
                } else {
                    assert_eq!(now, previous);
                }
                previous = now;
            }
            assert_eq!(previous, 255);
        }
    }
}

#[test]
fn commit_of_a_better_similarity_keeps_the_candidate() {
    let mut ratchet = Ratchet::new(0);
    let first = ratchet_test_candidate(1);
    let second = ratchet_test_candidate(2);
    let half = Similarity { matching: 2, total: 4 };
    assert!(ratchet.try_commit_similarity(half, "cafexyz", &first));
    assert_eq!(ratchet.best_fuzzy().similarity, half);
    assert_eq!(ratchet.best_fuzzy().npub, "cafexyz");
    assert_eq!(
        ratchet.best_fuzzy().candidate.as_ref().unwrap().public_bytes(),
        first.public_bytes()
    );
    assert!(!ratchet.try_commit_similarity(Similarity { matching: 1, total: 2 }, "other", &second));
    assert!(!ratchet.try_commit_similarity(Similarity { matching: 1, total: 3 }, "other", &second));
    assert_eq!(ratchet.best_fuzzy().npub, "cafexyz");
    assert!(ratchet.try_commit_similarity(Similarity { matching: 3, total: 4 }, "better", &second));
    assert_eq!(ratchet.best_fuzzy().npub, "better");
    assert_eq!(
        ratchet.best_fuzzy().candidate.as_ref().unwrap().public_bytes(),
        second.public_bytes()
    );
    assert_eq!(ratchet.best_difficulty(), 0);
    assert_eq!(ratchet.iterations(), 0);
}

#[test]
fn zero_similarity_never_commits() {
    let mut ratchet = Ratchet::new(0);
    let candidate = ratchet_test_candidate(1);
    assert!(!ratchet.try_commit_similarity(Similarity::zero(), "abc", &candidate));
    assert!(!ratchet.try_commit_similarity(Similarity { matching: 0, total: 5 }, "abc", &candidate));
    assert!(ratchet.best_fuzzy().candidate.is_none());
}

#[test]
fn iterations_count_every_candidate() {
    let mut ratchet = Ratchet::new(3);
    for expected in 1..=1000u64 {
        ratchet.record_iteration();
        assert_eq!(ratchet.iterations(), expected);
    }
    assert_eq!(ratchet.best_difficulty(), 3);
}
