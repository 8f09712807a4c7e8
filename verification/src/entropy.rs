//! The deterministic entropy generator: digests, text encodings of digests
//! and the seeded pseudo-random draw.

use sha2::Digest;
use vstd::prelude::*;
use vstd::utf8::encode_utf8;
use crate::bytes::{append_bytes, be_u64, push_be_u64};
use crate::env::Env;

verus! {

/// The SHA-256 digest of a byte string.
pub uninterp spec fn sha256_digest(data: Seq<u8>) -> Seq<u8>;

/// The standard, padded base64 text of a byte string.
pub uninterp spec fn base64_text(data: Seq<u8>) -> Seq<char>;

/// The first 32 bytes drawn from the generator that is seeded with `seed` and
/// `entropy`.
pub uninterp spec fn prng_bytes(seed: Seq<u8>, entropy: Seq<u8>) -> Seq<u8>;

/// The lower-case hexadecimal digit of a value below 16.
pub open spec fn hex_char(n: int) -> char {
    seq!['0', '1', '2', '3', '4', '5', '6', '7', '8', '9', 'a', 'b', 'c', 'd', 'e', 'f'][n]
}

/// Two lower-case hexadecimal digits for each byte, the high one first.
pub open spec fn hex_text(data: Seq<u8>) -> Seq<char> {
    Seq::new(
        2 * data.len(),
        |i: int| if i % 2 == 0 { hex_char(data[i / 2] as int / 16) } else { hex_char(data[i / 2] as int % 16) },
    )
}

/// `sha2::Sha256::digest`: the result is the SHA-256 digest of `data`, a
/// function of the bytes alone. Nothing else is claimed of it.
#[verifier::external_body]
pub(crate) fn sha_256(data: &[u8]) -> (r: [u8; 32])
    ensures
        r@ == sha256_digest(data@),
{
    sha2::Sha256::digest(data).into()
}

/// `base64::encode`: the result is the base64 text of `data` under the
/// standard alphabet with padding, a function of the bytes alone.
#[verifier::external_body]
pub(crate) fn base64_encode(data: &[u8]) -> (r: String)
    ensures
        r@ == base64_text(data@),
{
    base64::encode(data)
}

/// `hex::encode`: every byte becomes two lower-case hexadecimal digits, the
/// high four bits first, so the text is twice as long as `data`.
#[verifier::external_body]
pub(crate) fn hex_encode(data: &[u8]) -> (r: String)
    ensures
        r@ == hex_text(data@),
{
    hex::encode(data)
}

/// `secret_toolkit::crypto::Prng::new` followed by one `rand_bytes`: the
/// generator is keyed by a digest of `seed` and `entropy`, so its first block
/// is a function of those two byte strings alone.
#[verifier::external_body]
pub(crate) fn prng_draw(seed: &[u8], entropy: &[u8]) -> (r: [u8; 32])
    ensures
        r@ == prng_bytes(seed@, entropy@),
{
    let mut rng = secret_toolkit::crypto::Prng::new(seed, entropy);
    rng.rand_bytes()
}

/// The seed of a fresh pool: the digest of the base64 text of `entropy`.
pub open spec fn initial_seed(entropy: Seq<char>) -> Seq<u8> {
    sha256_digest(encode_utf8(base64_text(encode_utf8(entropy))))
}

/// Derives the first seed of a pool from the entropy text it is opened with.
pub fn seed_from_text(entropy: &String) -> (r: [u8; 32])
    ensures
        r@ == initial_seed(entropy@),
{
    let encoded = base64_encode(entropy.as_str().as_bytes());
    sha_256(encoded.as_str().as_bytes())
}

/// The entropy that is mixed into a draw: block height and block time, each as
/// eight big-endian bytes, then the caller's address, then `extra`.
pub open spec fn entropy_context(env: &Env, extra: Seq<u8>) -> Seq<u8> {
    be_u64(env.height) + be_u64(env.time) + encode_utf8(env.sender@) + extra
}

/// Builds the entropy buffer for a draw made during the call `env`.
pub fn build_context(env: &Env, extra: &[u8]) -> (r: Vec<u8>)
    ensures
        r@ == entropy_context(env, extra@),
{
    let mut out: Vec<u8> = Vec::new();
    push_be_u64(&mut out, env.height);
    push_be_u64(&mut out, env.time);
    append_bytes(&mut out, env.sender.as_str().as_bytes());
    append_bytes(&mut out, extra);
    assert(out@ =~= entropy_context(env, extra@));
    out
}

/// Derives a fresh 32-byte value from the persisted `seed` and the call's
/// context. The caller stores the result as the next seed.
pub fn new_entropy(env: &Env, seed: &[u8], entropy: &[u8]) -> (r: [u8; 32])
    requires
        seed@.len() == 32,
    ensures
        r@ == prng_bytes(seed@, entropy_context(env, entropy@)),
{
    let rng_entropy = build_context(env, entropy);
    prng_draw(seed, rng_entropy.as_slice())
}

} // verus!
