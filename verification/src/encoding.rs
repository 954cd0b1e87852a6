//! Text forms of raw key bytes: lowercase hexadecimal and the checksummed
//! human-readable form with its `npub` and `nsec` tags.

use bech32::ToBase32;
use vstd::pervasive::unreached;
use vstd::prelude::*;
use crate::alphabet::{all_hex, is_hex_char};

verus! {

/// The sixteen lowercase hexadecimal digits, by value.
pub open spec fn lower_hex_digits() -> Seq<char> {
    seq!['0', '1', '2', '3', '4', '5', '6', '7', '8', '9', 'a', 'b', 'c', 'd', 'e', 'f']
}

/// The lowercase hexadecimal form of `bytes`: two digits per byte, the high
/// half of the byte first.
pub open spec fn hex_text(bytes: Seq<u8>) -> Seq<char> {
    Seq::new(
        2 * bytes.len(),
        |i: int|
            if i % 2 == 0 {
                lower_hex_digits()[bytes[i / 2] as int / 16]
            } else {
                lower_hex_digits()[bytes[i / 2] as int % 16]
            },
    )
}

/// The checksummed text that the tag `hrp` and the payload `data` encode to.
pub uninterp spec fn bech32_text(hrp: Seq<char>, data: Seq<u8>) -> Seq<char>;

/// The tags that the encoder accepts: one to 83 printable ASCII characters
/// that do not mix upper and lower case.
pub open spec fn hrp_accepted(hrp: Seq<char>) -> bool {
    &&& 1 <= hrp.len() <= 83
    &&& forall|i: int| 0 <= i < hrp.len() ==> 33 <= #[trigger] hrp[i] as u32 <= 126
    &&& !((exists|i: int| 0 <= i < hrp.len() && 'a' <= #[trigger] hrp[i] && hrp[i] <= 'z') && (
    exists|j: int| 0 <= j < hrp.len() && 'A' <= #[trigger] hrp[j] && hrp[j] <= 'Z'))
}

/// The tag of an encoded public key.
pub open spec fn npub_hrp() -> Seq<char> {
    seq!['n', 'p', 'u', 'b']
}

/// The tag of an encoded secret key.
pub open spec fn nsec_hrp() -> Seq<char> {
    seq!['n', 's', 'e', 'c']
}

/// The hexadecimal form holds lowercase hexadecimal digits only, two for each
/// byte.
pub proof fn lemma_hex_text_is_hex(bytes: Seq<u8>)
    ensures
        hex_text(bytes).len() == 2 * bytes.len(),
        all_hex(hex_text(bytes)),
{
    assert forall|i: int| 0 <= i < hex_text(bytes).len() implies is_hex_char(
        #[trigger] hex_text(bytes)[i],
    ) by {
        let b = bytes[i / 2] as int;
        let d = if i % 2 == 0 {
            b / 16
        } else {
            b % 16
        };
        assert(0 <= d < 16);
        assert(hex_text(bytes)[i] == lower_hex_digits()[d]);
        assert(forall|k: int| 0 <= k < 16 ==> is_hex_char(#[trigger] lower_hex_digits()[k]));
    }
}

/// `bech32::encode` of the bech32 crate, with the `Bech32` checksum variant,
/// on the bytes regrouped five bits at a time by `to_base32`. Its source
/// refuses exactly the tags that `check_hrp` refuses: empty ones, ones longer
/// than 83 bytes, ones with a byte outside 33 to 126, and ones in mixed
/// case. The text itself is only named here.
#[verifier::external_body]
pub(crate) fn bech32_encode(hrp: &str, data: &[u8]) -> (text: Option<String>)
    ensures
        text is Some <==> hrp_accepted(hrp@),
        text matches Some(t) ==> t@ == bech32_text(hrp@, data@),
{
    bech32::encode(hrp, data.to_base32(), bech32::Variant::Bech32).ok()
}

/// The text of one lowercase hexadecimal digit.
fn hex_digit_text(value: u8) -> (text: &'static str)
    requires
        value < 16,
    ensures
        text@ == seq![lower_hex_digits()[value as int]],
{
    proof {
        reveal_strlit("0");
        reveal_strlit("1");
        reveal_strlit("2");
        reveal_strlit("3");
        reveal_strlit("4");
        reveal_strlit("5");
        reveal_strlit("6");
        reveal_strlit("7");
        reveal_strlit("8");
        reveal_strlit("9");
        reveal_strlit("a");
        reveal_strlit("b");
        reveal_strlit("c");
        reveal_strlit("d");
        reveal_strlit("e");
        reveal_strlit("f");
    }
    let text = match value {
        0 => "0",
        1 => "1",
        2 => "2",
        3 => "3",
        4 => "4",
        5 => "5",
        6 => "6",
        7 => "7",
        8 => "8",
        9 => "9",
        10 => "a",
        11 => "b",
        12 => "c",
        13 => "d",
        14 => "e",
        _ => "f",
    };
    assert(text@ =~= seq![lower_hex_digits()[value as int]]);
    text
}

/// The lowercase hexadecimal form of a key.
pub fn to_hex(bytes: &[u8]) -> (text: String)
    ensures
        text@ == hex_text(bytes@),
        text@.len() == 2 * bytes@.len(),
        all_hex(text@),
{
    let mut text = String::new();
    let mut i: usize = 0;
    while i < bytes.len()
        invariant
            i <= bytes.len(),
            text@ == hex_text(bytes@).subrange(0, 2 * i),
        decreases bytes.len() - i,
    {
        let byte: u8 = bytes[i];
        let ghost before = text@;
        text.append(hex_digit_text(byte / 16));
        text.append(hex_digit_text(byte % 16));
        proof {
            let whole = hex_text(bytes@);
            assert(whole[2 * i] == lower_hex_digits()[byte as int / 16]);
            assert(whole[2 * i + 1] == lower_hex_digits()[byte as int % 16]);
            assert(text@ =~= whole.subrange(0, 2 * (i + 1)));
        }
        i = i + 1;
    }
    proof {
        lemma_hex_text_is_hex(bytes@);
        assert(hex_text(bytes@).subrange(0, 2 * i) =~= hex_text(bytes@));
    }
    text
}

/// The encoded form of a public key, under the tag `npub`.
pub fn to_npub(public: &[u8]) -> (text: String)
    ensures
        text@ == bech32_text(npub_hrp(), public@),
{
    proof {
        reveal_strlit("npub");
        assert("npub"@ =~= npub_hrp());
        assert('n' as u32 == 110 && 'p' as u32 == 112 && 'u' as u32 == 117 && 'b' as u32 == 98);
    }
    match bech32_encode("npub", public) {
        Some(text) => text,
        None => unreached(),
    }
}

/// The encoded form of a secret key, under the tag `nsec`.
pub fn to_nsec(secret: &[u8]) -> (text: String)
    ensures
        text@ == bech32_text(nsec_hrp(), secret@),
{
    proof {
        reveal_strlit("nsec");
        assert("nsec"@ =~= nsec_hrp());
        assert('n' as u32 == 110 && 's' as u32 == 115 && 'e' as u32 == 101 && 'c' as u32 == 99);
    }
    match bech32_encode("nsec", secret) {
        Some(text) => text,
        None => unreached(),
    }
}

} // verus!
