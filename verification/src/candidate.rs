//! Candidate key pairs and where they come from: the system's randomness, or
//! a freshly drawn mnemonic phrase from which the pair is derived.

use nostr::nips::nip06::{FromMnemonic, GenerateMnemonic};
use vstd::prelude::*;
use crate::bits::{
    get_leading_zero_bits,
    leading_zero_bits,
    lemma_leading_zero_bits_all_zero,
    lemma_leading_zero_bits_below_nonzero,
};

verus! {

/// Length in bytes of a secret key and of a serialized public key.
pub const KEY_LEN: usize = 32;

/// The most leading zero bits that the public key of a candidate can have:
/// one less than the number of its bits.
pub const MAX_KEY_ZERO_BITS: usize = 255;

/// The largest number of words for which a mnemonic phrase can be asked.
pub const MAX_WORD_COUNT: usize = 48;

/// What a candidate holds, as plain values.
pub struct CandidateView {
    pub secret: Seq<u8>,
    pub public: Seq<u8>,
    pub mnemonic: Option<Seq<char>>,
}

impl CandidateView {
    /// Both keys have their fixed length and the public key is not zero.
    pub open spec fn wf(self) -> bool {
        key_bytes_valid(self.secret, self.public)
    }
}

/// The bytes of a key pair that a candidate can hold: 32 bytes each, and a
/// public key that does not consist of zero bytes only, so that its count of
/// leading zero bits stays below 256.
pub open spec fn key_bytes_valid(secret: Seq<u8>, public: Seq<u8>) -> bool {
    &&& secret.len() == KEY_LEN
    &&& public.len() == KEY_LEN
    &&& leading_zero_bits(public) <= MAX_KEY_ZERO_BITS
}

/// A public key of 32 bytes is valid exactly when one of its bytes is not
/// zero.
pub proof fn lemma_valid_key_has_nonzero_byte(secret: Seq<u8>, public: Seq<u8>)
    requires
        secret.len() == KEY_LEN,
        public.len() == KEY_LEN,
    ensures
        key_bytes_valid(secret, public) <==> exists|i: int|
            0 <= i < public.len() && #[trigger] public[i] != 0,
{
    if exists|i: int| 0 <= i < public.len() && #[trigger] public[i] != 0 {
        let i = choose|i: int| 0 <= i < public.len() && #[trigger] public[i] != 0;
        lemma_leading_zero_bits_below_nonzero(public, i);
    } else {
        lemma_leading_zero_bits_all_zero(public);
    }
}

/// Why no candidate could be produced.
#[derive(Clone, Copy, Debug, PartialEq, Eq, Structural)]
pub enum DerivationError {
    /// No mnemonic phrase of the wanted number of words could be drawn.
    MnemonicGeneration,
    /// The mnemonic phrase does not yield a key pair.
    KeyDerivation,
    /// The key bytes are not those of a key pair.
    InvalidKey,
}

/// An ephemeral key pair under examination, with the mnemonic phrase that
/// produced it, if any.
#[derive(Debug)]
pub struct Candidate {
    secret: Vec<u8>,
    public: Vec<u8>,
    mnemonic: Option<String>,
}

/// The bytes of an optional pair of keys.
pub open spec fn pair_view(pair: Option<(Vec<u8>, Vec<u8>)>) -> Option<(Seq<u8>, Seq<u8>)> {
    match pair {
        Some(p) => Some((p.0@, p.1@)),
        None => None,
    }
}

/// The characters of an optional string.
pub open spec fn text_of(s: Option<String>) -> Option<Seq<char>> {
    match s {
        Some(t) => Some(t@),
        None => None,
    }
}

impl View for Candidate {
    type V = CandidateView;

    closed spec fn view(&self) -> CandidateView {
        CandidateView {
            secret: self.secret@,
            public: self.public@,
            mnemonic: text_of(self.mnemonic),
        }
    }
}

impl Candidate {
    #[verifier::type_invariant]
    spec fn inv(self) -> bool {
        key_bytes_valid(self.secret@, self.public@)
    }

    /// Makes a candidate of the bytes of a key pair. The bytes are refused
    /// unless both keys are 32 bytes long and the public key is not zero.
    pub fn new(secret: Vec<u8>, public: Vec<u8>, mnemonic: Option<String>) -> (made: Option<
        Candidate,
    >)
        ensures
            made is Some <==> key_bytes_valid(secret@, public@),
            made matches Some(c) ==> c@ == (CandidateView {
                secret: secret@,
                public: public@,
                mnemonic: text_of(mnemonic),
            }),
    {
        if secret.len() == KEY_LEN && public.len() == KEY_LEN && get_leading_zero_bits(
            public.as_slice(),
        ) <= MAX_KEY_ZERO_BITS {
            Some(Candidate { secret, public, mnemonic })
        } else {
            None
        }
    }

    /// The secret key, 32 bytes.
    pub fn secret_bytes(&self) -> (bytes: &Vec<u8>)
        ensures
            bytes@ == self@.secret,
            self@.wf(),
    {
        proof {
            use_type_invariant(self);
        }
        &self.secret
    }

    /// The serialized public key, 32 bytes, most significant byte first.
    pub fn public_bytes(&self) -> (bytes: &Vec<u8>)
        ensures
            bytes@ == self@.public,
            self@.wf(),
            leading_zero_bits(bytes@) <= u8::MAX,
    {
        proof {
            use_type_invariant(self);
        }
        &self.public
    }

    /// The mnemonic phrase that the pair was derived from, if any.
    pub fn mnemonic(&self) -> (phrase: &Option<String>)
        ensures
            text_of(*phrase) == self@.mnemonic,
    {
        &self.mnemonic
    }
}

impl Clone for Candidate {
    fn clone(&self) -> (copy: Self)
        ensures
            copy@ == self@,
    {
        proof {
            use_type_invariant(self);
        }
        let secret = self.secret.clone();
        let public = self.public.clone();
        let mnemonic = match &self.mnemonic {
            Some(phrase) => Some(phrase.clone()),
            None => None,
        };
        assert(secret@ =~= self.secret@);
        assert(public@ =~= self.public@);
        Candidate { secret, public, mnemonic }
    }
}

/// The key pair that a mnemonic phrase and a passphrase derive, secret key
/// first, or `None` where the phrase yields none.
pub uninterp spec fn mnemonic_key_bytes(phrase: Seq<char>, passphrase: Seq<char>) -> Option<
    (Seq<u8>, Seq<u8>),
>;

/// `Keys::generate_without_keypair` of the nostr crate, on the thread's
/// random number generator: a fresh key pair, handed out as the bytes of the
/// secret key and of the x-only public key. Nothing is claimed of them.
#[verifier::external_body]
pub(crate) fn random_key_bytes() -> (pair: Option<(Vec<u8>, Vec<u8>)>) {
    let keys = nostr::Keys::generate_without_keypair(&mut rand::thread_rng());
    match keys.secret_key() {
        Ok(secret) => Some((secret.secret_bytes().to_vec(), keys.public_key().serialize().to_vec())),
        Err(_) => None,
    }
}

/// `Keys::generate_mnemonic` of the nostr crate: a fresh mnemonic phrase of
/// `word_count` words, as text, or `None` where it reports an error. Its
/// source takes `word_count * 4 / 3` bytes out of 64, hence the bound.
/// Nothing is claimed of the phrase.
#[verifier::external_body]
pub(crate) fn new_mnemonic(word_count: usize) -> (phrase: Option<String>)
    requires
        word_count <= MAX_WORD_COUNT,
{
    match nostr::Keys::generate_mnemonic(word_count) {
        Ok(mnemonic) => Some(mnemonic.to_string()),
        Err(_) => None,
    }
}

/// `Keys::from_mnemonic` of the nostr crate: the key pair derived from the
/// phrase and the passphrase, as the bytes of the secret key and of the
/// x-only public key, or `None` where it reports an error. The derivation
/// reads nothing but its two arguments; its result is only named here.
#[verifier::external_body]
pub(crate) fn keys_from_mnemonic(phrase: &str, passphrase: &str) -> (pair: Option<
    (Vec<u8>, Vec<u8>),
>)
    ensures
        pair_view(pair) == mnemonic_key_bytes(phrase@, passphrase@),
{
    match nostr::Keys::from_mnemonic(phrase, Some(passphrase)) {
        Ok(keys) => match keys.secret_key() {
            Ok(secret) => Some(
                (secret.secret_bytes().to_vec(), keys.public_key().serialize().to_vec()),
            ),
            Err(_) => None,
        },
        Err(_) => None,
    }
}

/// What deriving a candidate from a phrase comes to, given what the
/// derivation returned.
pub open spec fn derived_candidate(
    phrase: Seq<char>,
    derived: Option<(Seq<u8>, Seq<u8>)>,
) -> Result<CandidateView, DerivationError> {
    match derived {
        None => Err(DerivationError::KeyDerivation),
        Some((secret, public)) => if key_bytes_valid(secret, public) {
            Ok(CandidateView { secret, public, mnemonic: Some(phrase) })
        } else {
            Err(DerivationError::InvalidKey)
        },
    }
}

/// The view of a result that holds a candidate.
pub open spec fn result_view(r: Result<Candidate, DerivationError>) -> Result<
    CandidateView,
    DerivationError,
> {
    match r {
        Ok(c) => Ok(c@),
        Err(e) => Err(e),
    }
}

/// Makes the candidate of a phrase out of what the derivation returned for
/// it.
pub fn candidate_of_derived(phrase: String, derived: Option<(Vec<u8>, Vec<u8>)>) -> (made: Result<
    Candidate,
    DerivationError,
>)
    ensures
        result_view(made) == derived_candidate(phrase@, pair_view(derived)),
{
    match derived {
        None => Err(DerivationError::KeyDerivation),
        Some((secret, public)) => match Candidate::new(secret, public, Some(phrase)) {
            Some(c) => Ok(c),
            None => Err(DerivationError::InvalidKey),
        },
    }
}

/// Derives the candidate of a mnemonic phrase and a passphrase.
pub fn candidate_from_mnemonic(phrase: &str, passphrase: &str) -> (made: Result<
    Candidate,
    DerivationError,
>)
    ensures
        result_view(made) == derived_candidate(phrase@, mnemonic_key_bytes(phrase@, passphrase@)),
{
    let derived = keys_from_mnemonic(phrase, passphrase);
    candidate_of_derived(phrase.to_owned(), derived)
}

/// What a candidate drawn from randomness comes to, given the key bytes that
/// were drawn, if any were.
pub open spec fn random_candidate(drawn: Option<(Seq<u8>, Seq<u8>)>) -> Result<
    CandidateView,
    DerivationError,
> {
    match drawn {
        Some((secret, public)) => if key_bytes_valid(secret, public) {
            Ok(CandidateView { secret, public, mnemonic: None })
        } else {
            Err(DerivationError::InvalidKey)
        },
        None => Err(DerivationError::InvalidKey),
    }
}

/// What a candidate of a freshly drawn phrase comes to, given the phrase
/// that was drawn, if one was.
pub open spec fn phrase_candidate(drawn: Option<Seq<char>>, passphrase: Seq<char>) -> Result<
    CandidateView,
    DerivationError,
> {
    match drawn {
        Some(phrase) => derived_candidate(phrase, mnemonic_key_bytes(phrase, passphrase)),
        None => Err(DerivationError::MnemonicGeneration),
    }
}

/// Makes a candidate out of key bytes drawn from randomness.
pub fn candidate_of_random(drawn: Option<(Vec<u8>, Vec<u8>)>) -> (made: Result<
    Candidate,
    DerivationError,
>)
    ensures
        result_view(made) == random_candidate(pair_view(drawn)),
{
    match drawn {
        Some((secret, public)) => match Candidate::new(secret, public, None) {
            Some(c) => Ok(c),
            None => Err(DerivationError::InvalidKey),
        },
        None => Err(DerivationError::InvalidKey),
    }
}

/// Makes the candidate of a freshly drawn phrase, if one was drawn.
pub fn candidate_of_phrase(drawn: Option<String>, passphrase: &str) -> (made: Result<
    Candidate,
    DerivationError,
>)
    ensures
        result_view(made) == phrase_candidate(text_of(drawn), passphrase@),
{
    match drawn {
        Some(phrase) => candidate_from_mnemonic(phrase.as_str(), passphrase),
        None => Err(DerivationError::MnemonicGeneration),
    }
}

/// Produces one fresh candidate: from randomness when `word_count` is zero,
/// else from a freshly drawn mnemonic phrase of `word_count` words and the
/// passphrase. No phrase of more than 48 words is asked for.
///
/// What is drawn is not known beforehand; the candidate is what
/// `random_candidate` or `phrase_candidate` makes of it.
pub fn generate_candidate(word_count: usize, passphrase: &str) -> (made: Result<
    Candidate,
    DerivationError,
>)
    ensures
        word_count == 0 ==> exists|drawn: Option<(Seq<u8>, Seq<u8>)>|
            result_view(made) == #[trigger] random_candidate(drawn),
        0 < word_count <= MAX_WORD_COUNT ==> exists|drawn: Option<Seq<char>>|
            result_view(made) == #[trigger] phrase_candidate(drawn, passphrase@),
        word_count > MAX_WORD_COUNT ==> made == Err::<Candidate, _>(
            DerivationError::MnemonicGeneration,
        ),
        made matches Ok(c) ==> c@.wf() && (c@.mnemonic is Some <==> word_count > 0),
{
    if word_count == 0 {
        let drawn = random_key_bytes();
        let ghost drawn_bytes = pair_view(drawn);
        let made = candidate_of_random(drawn);
        proof {
            assert(result_view(made) == random_candidate(drawn_bytes));
        }
        made
    } else if word_count > MAX_WORD_COUNT {
        Err(DerivationError::MnemonicGeneration)
    } else {
        let drawn = new_mnemonic(word_count);
        let ghost drawn_text = text_of(drawn);
        let made = candidate_of_phrase(drawn, passphrase);
        proof {
            assert(result_view(made) == phrase_candidate(drawn_text, passphrase@));
        }
        made
    }
}

} // verus!
