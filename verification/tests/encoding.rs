use bech32::{ToBase32, Variant};
use nostr::nips::nip19::ToBech32;
use nostr::secp256k1::{SecretKey, XOnlyPublicKey};
use rana::encoding::{to_hex, to_npub, to_nsec};

#[test]
fn hex_form_has_two_lowercase_digits_per_byte() {
    assert_eq!(to_hex(&[]), "");
    assert_eq!(to_hex(&[0x00, 0xab, 0xcd, 0xef]), "00abcdef");
    assert_eq!(to_hex(&[1, 2, 3, 15, 16]), "0102030f10");
    assert_eq!(to_hex(&[0xff, 0x0a, 0xa0]), "ff0aa0");
}

#[test]
fn hex_form_of_every_byte() {
    for b in 0..=255u8 {
        assert_eq!(to_hex(&[b]), format!("{b:02x}"));
        assert_eq!(to_hex(&[b, 255 - b]), hex::encode([b, 255 - b]));
    }
}

#[test]
fn hex_form_agrees_with_the_hex_crate() {
    let key: Vec<u8> = (0..32u8).map(|i| i.wrapping_mul(37).wrapping_add(11)).collect();
    assert_eq!(to_hex(&key), hex::encode(&key));
    assert_eq!(hex::decode(to_hex(&key)).unwrap(), key);
    assert_eq!(to_hex(&[0u8; 32]), "0".repeat(64));
}

#[test]
fn encoded_public_key_of_a_known_key() {
    let public = hex::decode("3bf0c63fcb93463407af97a5e5ee64fa883d107ef9e558472c4eb9aaaefa459d").unwrap();
    assert_eq!(to_npub(&public), "npub180cvv07tjdrrgpa0j7j7tmnyl2yr6yr7l8j4s3evf6u64th6gkwsyjh6w6");
}

#[test]
fn encoded_secret_key_of_a_known_key() {
    let secret = hex::decode("67dea2ed018072d675f5415ecfaed7d2597555e202d85b3d65ea4e58d2d92ffa").unwrap();
    assert_eq!(to_nsec(&secret), "nsec1vl029mgpspedva04g90vltkh6fvh240zqtv9k0t9af8935ke9laqsnlfe5");
}

#[test]
fn encoded_forms_carry_tag_and_checksum() {
    let key = [0x5au8; 32];
    let npub = to_npub(&key);
    let nsec = to_nsec(&key);
    assert!(npub.starts_with("npub1"));
    assert!(nsec.starts_with("nsec1"));
    assert_eq!(npub.len(), 63);
    assert_eq!(nsec.len(), 63);
    assert_eq!(npub, bech32::encode("npub", key.to_base32(), Variant::Bech32).unwrap());
    assert_eq!(nsec, bech32::encode("nsec", key.to_base32(), Variant::Bech32).unwrap());
    let (hrp, data, variant) = bech32::decode(&npub).unwrap();
    assert_eq!(hrp, "npub");
    assert_eq!(variant, Variant::Bech32);
    assert_eq!(data, key.to_base32());
}

#[test]
fn encoded_forms_agree_with_the_key_types() {
    let secret_bytes = hex::decode("06992419a8fe821dd8de03d4c300614e8feefb5ea936b76f89976dcace8aebee").unwrap();
    let secret = SecretKey::from_slice(&secret_bytes).unwrap();
    let keys = nostr::Keys::new(secret);
    let public: XOnlyPublicKey = keys.public_key();
    assert_eq!(to_npub(&public.serialize()), public.to_bech32().unwrap());
    assert_eq!(to_nsec(&secret.secret_bytes()), secret.to_bech32().unwrap());
    assert_eq!(to_hex(&public.serialize()), public.to_string());
}
