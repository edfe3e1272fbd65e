//! Keys, digests and the decimal and hexadecimal notations the store uses.

use sha1::{Digest, Sha1};
use vstd::prelude::*;
use vstd::string::*;

verus! {

/// Number of characters in an object key: two per digest byte.
pub const KEY_LEN: usize = 40;

/// Number of bytes in a digest.
pub const DIGEST_LEN: usize = 20;

/// The SHA-1 digest of a byte sequence.
pub uninterp spec fn sha1_digest(bytes: Seq<u8>) -> Seq<u8>;

/// A lowercase hexadecimal digit.
pub open spec fn is_hex_digit(c: char) -> bool {
    ('0' <= c && c <= '9') || ('a' <= c && c <= 'f')
}

/// A well-formed key: exactly `KEY_LEN` lowercase hexadecimal digits.
pub open spec fn is_key(s: Seq<char>) -> bool {
    &&& s.len() == KEY_LEN
    &&& forall|i: int| 0 <= i < s.len() ==> is_hex_digit(#[trigger] s[i])
}

/// The lowercase hexadecimal digit for a value below sixteen.
pub open spec fn hex_digit(n: u8) -> char {
    if n < 10 {
        (48 + n) as char
    } else {
        (87 + n) as char
    }
}

/// The character at position `i` of the hexadecimal rendering of `bytes`.
pub open spec fn hex_char_at(bytes: Seq<u8>, i: int) -> char {
    if i % 2 == 0 {
        hex_digit(bytes[i / 2] / 16)
    } else {
        hex_digit(bytes[i / 2] % 16)
    }
}

/// The lowercase hexadecimal rendering of `bytes`, high nibble first.
pub open spec fn hex_of(bytes: Seq<u8>) -> Seq<char> {
    Seq::new(2 * bytes.len(), |i: int| hex_char_at(bytes, i))
}

/// The key under which `bytes` is stored.
pub open spec fn key_of(bytes: Seq<u8>) -> Seq<char> {
    hex_of(sha1_digest(bytes))
}

/// Every rendering of a digest-sized byte sequence is a well-formed key.
pub proof fn lemma_hex_is_key(bytes: Seq<u8>)
    requires
        bytes.len() == DIGEST_LEN,
    ensures
        is_key(hex_of(bytes)),
{
    assert forall|i: int| 0 <= i < hex_of(bytes).len() implies is_hex_digit(
        #[trigger] hex_of(bytes)[i],
    ) by {
        let b = bytes[i / 2];
        assert(b / 16 < 16 && b % 16 < 16) by (bit_vector);
    }
}

/// Appends one character to a string: `String::push` of the standard
/// library. The new contents are the old ones followed by `c`.
#[verifier::external_body]
pub(crate) fn push_char(s: &mut String, c: char)
    ensures
        final(s)@ == old(s)@.push(c),
{
    s.push(c)
}

/// Computes the SHA-1 digest of `header` followed by `data` with
/// `sha1::Sha1` (`new`, `update` twice, `finalize`). The digest is the one
/// of the concatenation and is `DIGEST_LEN` bytes long, the fixed output
/// size of the algorithm.
#[verifier::external_body]
fn sha1_bytes(header: &[u8], data: &[u8]) -> (digest: Vec<u8>)
    ensures
        digest@ == sha1_digest(header@ + data@),
        digest@.len() == DIGEST_LEN,
{
    let mut sha = Sha1::new();
    sha.update(header);
    sha.update(data);
    sha.finalize().to_vec()
}

fn hex_digit_char(n: u8) -> (c: char)
    requires
        n < 16,
    ensures
        c == hex_digit(n),
{
    if n < 10 {
        (48 + n) as char
    } else {
        (87 + n) as char
    }
}

/// Renders bytes as lowercase hexadecimal.
pub fn to_hex(bytes: &[u8]) -> (text: String)
    ensures
        text@ == hex_of(bytes@),
{
    let mut text = String::new();
    let mut i: usize = 0;
    while i < bytes.len()
        invariant
            i <= bytes.len(),
            text@.len() == 2 * i,
            forall|j: int| 0 <= j < 2 * i ==> #[trigger] text@[j] == hex_char_at(bytes@, j),
        decreases bytes.len() - i,
    {
        let b: u8 = bytes[i];
        assert(b / 16 < 16 && b % 16 < 16) by (bit_vector);
        push_char(&mut text, hex_digit_char(b / 16));
        push_char(&mut text, hex_digit_char(b % 16));
        i += 1;
    }
    assert(text@ =~= hex_of(bytes@));
    text
}

/// The key of an object whose framed form is `header` followed by `data`.
pub fn hash(header: &[u8], data: &[u8]) -> (key: String)
    ensures
        key@ == key_of(header@ + data@),
        is_key(key@),
{
    let digest = sha1_bytes(header, data);
    proof {
        lemma_hex_is_key(digest@);
    }
    to_hex(digest.as_slice())
}

/// Whether `hash` is a well-formed key. Uppercase digits are not accepted.
pub fn is_hash(hash: &str) -> (ok: bool)
    ensures
        ok == is_key(hash@),
{
    if hash.unicode_len() != KEY_LEN {
        return false;
    }
    let mut i: usize = 0;
    while i < KEY_LEN
        invariant
            i <= KEY_LEN,
            hash@.len() == KEY_LEN,
            forall|j: int| 0 <= j < i ==> is_hex_digit(#[trigger] hash@[j]),
        decreases KEY_LEN - i,
    {
        let c = hash.get_char(i);
        if !(('0' <= c && c <= '9') || ('a' <= c && c <= 'f')) {
            return false;
        }
        i += 1;
    }
    true
}

} // verus!
