//! The two alphabets that vanity patterns are written in.

use vstd::prelude::*;

verus! {

/// A lowercase hexadecimal digit.
pub open spec fn is_hex_char(c: char) -> bool {
    ('0' <= c && c <= '9') || ('a' <= c && c <= 'f')
}

/// A symbol of the 32-letter alphabet of the encoded key form.
pub open spec fn is_bech32_char(c: char) -> bool {
    c == '0' || ('2' <= c && c <= '9') || c == 'a' || ('c' <= c && c <= 'h') || ('j' <= c && c
        <= 'n') || ('p' <= c && c <= 'z')
}

/// Every character of `s` is a lowercase hexadecimal digit.
pub open spec fn all_hex(s: Seq<char>) -> bool {
    forall|i: int| 0 <= i < s.len() ==> is_hex_char(#[trigger] s[i])
}

/// Every character of `s` belongs to the alphabet of the encoded key form.
pub open spec fn all_bech32(s: Seq<char>) -> bool {
    forall|i: int| 0 <= i < s.len() ==> is_bech32_char(#[trigger] s[i])
}

/// The encoded alphabet is the lowercase letters and digits without `1`, `b`,
/// `i` and `o`.
pub proof fn lemma_bech32_alphabet(c: char)
    ensures
        is_bech32_char(c) <==> ((('0' <= c && c <= '9') || ('a' <= c && c <= 'z')) && c != '1'
            && c != 'b' && c != 'i' && c != 'o'),
{
}

/// Whether `c` is a lowercase hexadecimal digit.
pub fn is_hex_digit(c: char) -> (ok: bool)
    ensures
        ok == is_hex_char(c),
{
    (c >= '0' && c <= '9') || (c >= 'a' && c <= 'f')
}

/// Whether `c` is a symbol of the alphabet of the encoded key form.
pub fn is_bech32_symbol(c: char) -> (ok: bool)
    ensures
        ok == is_bech32_char(c),
{
    c == '0' || (c >= '2' && c <= '9') || c == 'a' || (c >= 'c' && c <= 'h') || (c >= 'j' && c
        <= 'n') || (c >= 'p' && c <= 'z')
}

/// Whether `s` is written in lowercase hexadecimal digits only.
pub fn is_hex_text(s: &str) -> (ok: bool)
    ensures
        ok == all_hex(s@),
{
    for c in it: s.chars()
        invariant
            it.seq() == s@,
            forall|j: int| 0 <= j < it.index() ==> is_hex_char(#[trigger] it.seq()[j]),
    {
        if !is_hex_digit(c) {
            assert(c == it.seq()[it.index() as int]);
            return false;
        }
    }
    true
}

/// Whether `s` is written in the alphabet of the encoded key form only.
pub fn is_bech32_text(s: &str) -> (ok: bool)
    ensures
        ok == all_bech32(s@),
{
    for c in it: s.chars()
        invariant
            it.seq() == s@,
            forall|j: int| 0 <= j < it.index() ==> is_bech32_char(#[trigger] it.seq()[j]),
    {
        if !is_bech32_symbol(c) {
            assert(c == it.seq()[it.index() as int]);
            return false;
        }
    }
    true
}

} // verus!
