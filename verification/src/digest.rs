//! SHA-256 labels: `sha256:` followed by the digest in lower-case hex.

use sha2::{Digest, Sha256};
use vstd::prelude::*;

use crate::text::{owned, push_chars};

verus! {

/// The SHA-256 digest of a byte sequence.
pub uninterp spec fn sha256_of(data: Seq<u8>) -> Seq<u8>;

/// `Digest::digest` of `sha2::Sha256`: the SHA-256 digest of `data`, which
/// is 32 bytes long.
#[verifier::external_body]
fn sha256(data: &[u8]) -> (r: Vec<u8>)
    ensures
        r@ == sha256_of(data@),
        r@.len() == 32,
{
    Sha256::digest(data).to_vec()
}

/// The lower-case hex digit of a value below 16.
pub open spec fn hex_digit(n: int) -> char {
    if n < 10 {
        crate::text::digit_char(n)
    } else if n == 10 {
        'a'
    } else if n == 11 {
        'b'
    } else if n == 12 {
        'c'
    } else if n == 13 {
        'd'
    } else if n == 14 {
        'e'
    } else {
        'f'
    }
}

/// Each byte as two lower-case hex digits, high digit first.
pub open spec fn lower_hex(bytes: Seq<u8>) -> Seq<char>
    decreases bytes.len(),
{
    if bytes.len() == 0 {
        Seq::empty()
    } else {
        lower_hex(bytes.drop_last()) + seq![
            hex_digit(bytes.last() as int / 16),
            hex_digit(bytes.last() as int % 16),
        ]
    }
}

/// The hex digit of a value below 16.
fn hex_char(n: u8) -> (c: char)
    requires
        n < 16,
    ensures
        c == hex_digit(n as int),
{
    if n < 10 {
        crate::text::digit(n as u64)
    } else if n == 10 {
        'a'
    } else if n == 11 {
        'b'
    } else if n == 12 {
        'c'
    } else if n == 13 {
        'd'
    } else if n == 14 {
        'e'
    } else {
        'f'
    }
}

/// `sha256:` and the lower-case hex SHA-256 digest of `data`.
pub open spec fn sha256_label_of(data: Seq<u8>) -> Seq<char> {
    "sha256:"@ + lower_hex(sha256_of(data))
}

/// Returns `sha256:` and the lower-case hex SHA-256 digest of `data`.
pub fn sha256_label(data: &[u8]) -> (r: String)
    ensures
        r@ == sha256_label_of(data@),
{
    let digest = sha256(data);
    let mut hex: Vec<char> = Vec::new();
    let mut i: usize = 0;
    while i < digest.len()
        invariant
            i <= digest@.len(),
            hex@ == lower_hex(digest@.take(i as int)),
        decreases digest@.len() - i,
    {
        let b = digest[i];
        hex.push(hex_char(b / 16));
        hex.push(hex_char(b % 16));
        assert(digest@.take(i + 1).drop_last() =~= digest@.take(i as int));
        assert(hex@ =~= lower_hex(digest@.take(i + 1)));
        i = i + 1;
    }
    assert(digest@.take(digest@.len() as int) =~= digest@);
    let mut r = owned("sha256:");
    push_chars(&mut r, &hex);
    proof {
        reveal_strlit("sha256:");
    }
    r
}

} // verus!
