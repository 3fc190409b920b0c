//! SHA-256 digests.

use crate::text::digit_char;
use sha2::Digest;
use vstd::prelude::*;

verus! {

/// The SHA-256 digest of a row of bytes.
pub uninterp spec fn sha256_digest(bytes: Seq<u8>) -> Seq<u8>;

/// `Sha256::digest`: the 32 bytes of the digest, which depend on the bytes alone.
#[verifier::external_body]
fn digest_bytes(bytes: &[u8]) -> (r: Vec<u8>)
    ensures
        r@ == sha256_digest(bytes@),
        r@.len() == 32,
{
    sha2::Sha256::digest(bytes).to_vec()
}

/// The two lower-case hexadecimal digits of each byte.
pub open spec fn hex_of(bytes: Seq<u8>) -> Seq<char>
    decreases bytes.len(),
{
    if bytes.len() == 0 {
        Seq::empty()
    } else {
        hex_of(bytes.drop_last()).push(digit_char(bytes.last() as int / 16)).push(
            digit_char(bytes.last() as int % 16),
        )
    }
}

/// The two lower-case hexadecimal digits of each byte.
pub(crate) fn hex(bytes: &[u8]) -> (r: String)
    ensures
        r@ == hex_of(bytes@),
{
    let mut out = String::new();
    let mut i: usize = 0;
    proof {
        assert(bytes@.take(0) == Seq::<u8>::empty());
    }
    while i < bytes.len()
        invariant
            i <= bytes.len(),
            out@ == hex_of(bytes@.take(i as int)),
        decreases bytes.len() - i,
    {
        let b: u8 = bytes[i];
        proof {
            assert(bytes@.take(i + 1).drop_last() == bytes@.take(i as int));
        }
        out.push(crate::text::digit_text(b / 16));
        out.push(crate::text::digit_text(b % 16));
        i = i + 1;
    }
    proof {
        assert(bytes@.take(bytes@.len() as int) == bytes@);
    }
    out
}

/// The lower-case hexadecimal SHA-256 digest of a row of bytes.
pub open spec fn sha256_text(bytes: Seq<u8>) -> Seq<char> {
    hex_of(sha256_digest(bytes))
}

/// The lower-case hexadecimal SHA-256 digest of a row of bytes.
pub(crate) fn sha256(bytes: &[u8]) -> (r: String)
    ensures
        r@ == sha256_text(bytes@),
{
    hex(digest_bytes(bytes).as_slice())
}

/// A streaming SHA-256 hasher: `sha2::Sha256`, whose contents are the bytes that it was fed.
#[derive(Debug)]
#[verifier::external_body]
pub struct ByteHasher {
    inner: sha2::Sha256,
}

/// The bytes that a hasher was fed, in order.
pub uninterp spec fn fed(h: ByteHasher) -> Seq<u8>;

/// `Sha256::new`: a hasher that was fed nothing.
#[verifier::external_body]
pub(crate) fn new_hasher() -> (r: ByteHasher)
    ensures
        fed(r) == Seq::<u8>::empty(),
{
    ByteHasher { inner: sha2::Sha256::new() }
}

/// `Update::update`: feeds the bytes behind those that were fed before.
#[verifier::external_body]
pub(crate) fn feed(h: &mut ByteHasher, bytes: &[u8])
    ensures
        fed(*final(h)) == fed(*old(h)) + bytes@,
{
    h.inner.update(bytes);
}

/// `Sha256::clone` and `finalize`: the digest of the bytes fed so far. The hasher can be fed on.
#[verifier::external_body]
fn digest_so_far(h: &ByteHasher) -> (r: Vec<u8>)
    ensures
        r@ == sha256_digest(fed(*h)),
        r@.len() == 32,
{
    h.inner.clone().finalize().to_vec()
}

/// The lower-case hexadecimal digest of the bytes fed so far.
pub(crate) fn hasher_text(h: &ByteHasher) -> (r: String)
    ensures
        r@ == sha256_text(fed(*h)),
        sha256_digest(fed(*h)).len() == 32,
{
    hex(digest_so_far(h).as_slice())
}

} // verus!
