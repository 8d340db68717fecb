//! Store keys: the lower-case hexadecimal form of a 64-bit hash of the URL.
//!
//! The hash is not collision-free, so two URLs may share a key; a record
//! stored under one of them then replaces the record of the other.

use vstd::prelude::*;

verus! {

/// The 64-bit hash of a URL: what the standard library's `DefaultHasher`,
/// in the state in which it is created, reports after the URL has been fed
/// to it.
pub uninterp spec fn url_hash(url: Seq<char>) -> u64;

/// `BuildHasher::hash_one` of the standard library, on a builder of
/// `DefaultHasher`s: the hash of the text by a hasher as `DefaultHasher::new`
/// makes it. Every such hasher starts from the same state, so the result
/// depends on the text alone.
#[verifier::external_body]
fn hash_text(url: &str) -> (h: u64)
    ensures
        h == url_hash(url@),
{
    let hashers = std::hash::BuildHasherDefault::<std::collections::hash_map::DefaultHasher>::default();
    std::hash::BuildHasher::hash_one(&hashers, url)
}

/// The character for a hexadecimal digit, in lower case.
pub open spec fn hex_digit(d: nat) -> u8
    recommends
        d < 16,
{
    if d < 10 {
        (48 + d) as u8
    } else {
        (87 + d) as u8
    }
}

/// The hexadecimal digits of `n`, most significant first, without leading zeros.
pub open spec fn hex_digits(n: nat) -> Seq<u8>
    decreases n,
{
    if n < 16 {
        seq![hex_digit(n)]
    } else {
        hex_digits(n / 16).push(hex_digit(n % 16))
    }
}

/// The key under which the record of a URL is stored.
pub open spec fn store_key(url: Seq<char>) -> Seq<u8> {
    hex_digits(url_hash(url) as nat)
}

fn push_hex(out: &mut Vec<u8>, n: u64)
    ensures
        final(out)@ == old(out)@ + hex_digits(n as nat),
    decreases n,
{
    if n >= 16 {
        push_hex(out, n / 16);
    }
    let d: u8 = (n % 16) as u8;
    let c: u8 = if d < 10 {
        48 + d
    } else {
        87 + d
    };
    out.push(c);
    assert(out@ =~= old(out)@ + hex_digits(n as nat));
}

/// Writes a number in lower-case hexadecimal.
pub fn to_hex(n: u64) -> (digits: Vec<u8>)
    ensures
        digits@ == hex_digits(n as nat),
{
    let mut out: Vec<u8> = Vec::new();
    push_hex(&mut out, n);
    assert(out@ =~= hex_digits(n as nat));
    out
}

/// Create a hash of the URL for use as a key
pub fn hash_url(url: &str) -> (key: Vec<u8>)
    ensures
        key@ == store_key(url@),
{
    to_hex(hash_text(url))
}

} // verus!
