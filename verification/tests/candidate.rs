use nostr::nips::nip06::FromMnemonic;
use rana::candidate::{
    candidate_from_mnemonic, candidate_of_derived, candidate_of_phrase, candidate_of_random,
    generate_candidate, Candidate, DerivationError,
};

const KNOWN_PHRASE: &str = "equal dragon fabric refuse stable cherry smoke allow alley easy never medal attend together lumber movie what sad siege weather matrix buffalo state shoot";

#[test]
fn candidate_takes_a_pair_of_32_byte_keys() {
    let mut public = vec![0u8; 32];
    public[31] = 1;
    let made = Candidate::new(vec![9u8; 32], public.clone(), Some("a phrase".to_string())).unwrap();
    assert_eq!(made.secret_bytes(), &vec![9u8; 32]);
    assert_eq!(made.public_bytes(), &public);
    assert_eq!(made.mnemonic(), &Some("a phrase".to_string()));
    let copy = made.clone();
    assert_eq!(copy.secret_bytes(), made.secret_bytes());
    assert_eq!(copy.public_bytes(), made.public_bytes());
    assert_eq!(copy.mnemonic(), made.mnemonic());
}

#[test]
fn candidate_refuses_keys_of_another_length() {
    assert!(Candidate::new(vec![1u8; 31], vec![1u8; 32], None).is_none());
    assert!(Candidate::new(vec![1u8; 33], vec![1u8; 32], None).is_none());
    assert!(Candidate::new(vec![1u8; 32], vec![1u8; 31], None).is_none());
    assert!(Candidate::new(vec![1u8; 32], vec![1u8; 33], None).is_none());
    assert!(Candidate::new(vec![], vec![], None).is_none());
}

#[test]
fn candidate_refuses_a_public_key_of_zeros() {
    assert!(Candidate::new(vec![1u8; 32], vec![0u8; 32], None).is_none());
    assert!(Candidate::new(vec![0u8; 32], vec![1u8; 32], None).is_some());
}

#[test]
fn random_candidates_are_well_formed_and_differ() {
    let a = generate_candidate(0, "").unwrap();
    let b = generate_candidate(0, "ignored").unwrap();
    assert_eq!(a.secret_bytes().len(), 32);
    assert_eq!(a.public_bytes().len(), 32);
    assert!(a.mnemonic().is_none());
    assert!(b.mnemonic().is_none());
    assert_ne!(a.secret_bytes(), b.secret_bytes());
    assert_ne!(a.public_bytes(), b.public_bytes());
}

#[test]
fn random_candidate_holds_a_matching_pair() {
    let made = generate_candidate(0, "").unwrap();
    let secret = nostr::secp256k1::SecretKey::from_slice(made.secret_bytes()).unwrap();
    let keys = nostr::Keys::new(secret);
    assert_eq!(&keys.public_key().serialize().to_vec(), made.public_bytes());
}

#[test]
fn known_phrase_derives_its_known_key() {
    let made = candidate_from_mnemonic(KNOWN_PHRASE, "").unwrap();
    assert_eq!(
        made.secret_bytes(),
        &hex::decode("06992419a8fe821dd8de03d4c300614e8feefb5ea936b76f89976dcace8aebee").unwrap()
    );
    assert_eq!(made.mnemonic(), &Some(KNOWN_PHRASE.to_string()));
    let keys = nostr::Keys::from_mnemonic(KNOWN_PHRASE, None).unwrap();
    assert_eq!(&keys.public_key().serialize().to_vec(), made.public_bytes());
}

#[test]
fn passphrase_changes_the_derived_key() {
    let plain = candidate_from_mnemonic(KNOWN_PHRASE, "").unwrap();
    let salted = candidate_from_mnemonic(KNOWN_PHRASE, "salt").unwrap();
    assert_ne!(plain.secret_bytes(), salted.secret_bytes());
    let again = candidate_from_mnemonic(KNOWN_PHRASE, "salt").unwrap();
    assert_eq!(again.secret_bytes(), salted.secret_bytes());
    assert_eq!(again.public_bytes(), salted.public_bytes());
    let keys = nostr::Keys::from_mnemonic(KNOWN_PHRASE, Some("salt")).unwrap();
    assert_eq!(&keys.secret_key().unwrap().secret_bytes().to_vec(), salted.secret_bytes());
}

#[test]
fn malformed_phrase_derives_nothing() {
    assert_eq!(candidate_from_mnemonic("", "").unwrap_err(), DerivationError::KeyDerivation);
    assert_eq!(
        candidate_from_mnemonic("not a mnemonic phrase at all", "").unwrap_err(),
        DerivationError::KeyDerivation
    );
}

#[test]
fn derived_bytes_are_checked_before_use() {
    let phrase = "some phrase".to_string();
    assert_eq!(
        candidate_of_derived(phrase.clone(), None).unwrap_err(),
        DerivationError::KeyDerivation
    );
    assert_eq!(
        candidate_of_derived(phrase.clone(), Some((vec![1u8; 32], vec![0u8; 32]))).unwrap_err(),
        DerivationError::InvalidKey
    );
    assert_eq!(
        candidate_of_derived(phrase.clone(), Some((vec![1u8; 5], vec![1u8; 32]))).unwrap_err(),
        DerivationError::InvalidKey
    );
    let made = candidate_of_derived(phrase.clone(), Some((vec![1u8; 32], vec![2u8; 32]))).unwrap();
    assert_eq!(made.mnemonic(), &Some(phrase));
    assert_eq!(made.public_bytes(), &vec![2u8; 32]);
}

#[test]
fn candidates_from_fresh_phrases_carry_their_phrase() {
    for words in [12usize, 15, 18, 21, 24] {
        let made = generate_candidate(words, "pass").unwrap();
        let phrase = made.mnemonic().clone().unwrap();
        assert_eq!(phrase.split(' ').count(), words);
        let again = candidate_from_mnemonic(&phrase, "pass").unwrap();
        assert_eq!(again.secret_bytes(), made.secret_bytes());
        assert_eq!(again.public_bytes(), made.public_bytes());
    }
}

#[test]
fn impossible_word_counts_are_errors() {
    for words in [1usize, 11, 13, 25, 48, 49, 1000, usize::MAX] {
        assert_eq!(generate_candidate(words, "").unwrap_err(), DerivationError::MnemonicGeneration);
    }
}

#[test]
fn drawn_key_bytes_are_checked_before_use() {
    assert_eq!(candidate_of_random(None).unwrap_err(), DerivationError::InvalidKey);
    assert_eq!(
        candidate_of_random(Some((vec![1u8; 32], vec![0u8; 32]))).unwrap_err(),
        DerivationError::InvalidKey
    );
    assert_eq!(
        candidate_of_random(Some((vec![1u8; 32], vec![1u8; 16]))).unwrap_err(),
        DerivationError::InvalidKey
    );
    let made = candidate_of_random(Some((vec![1u8; 32], vec![2u8; 32]))).unwrap();
    assert_eq!(made.secret_bytes(), &vec![1u8; 32]);
    assert_eq!(made.public_bytes(), &vec![2u8; 32]);
    assert_eq!(made.mnemonic(), &None);
}

#[test]
fn drawn_phrase_gives_its_candidate() {
    assert_eq!(candidate_of_phrase(None, "").unwrap_err(), DerivationError::MnemonicGeneration);
    assert_eq!(
        candidate_of_phrase(Some("gibberish".to_string()), "").unwrap_err(),
        DerivationError::KeyDerivation
    );
    let made = candidate_of_phrase(Some(KNOWN_PHRASE.to_string()), "").unwrap();
    assert_eq!(
        made.secret_bytes(),
        &hex::decode("06992419a8fe821dd8de03d4c300614e8feefb5ea936b76f89976dcace8aebee").unwrap()
    );
}
