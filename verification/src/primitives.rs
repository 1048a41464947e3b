//! The hashes and ciphers that the pipeline is built from. Each is computed by
//! the crate that implements it; this module states what the rest of the
//! library relies on.

use vstd::prelude::*;
use sha2::Digest;
use rc4::KeyInit;
use rc4::cipher::StreamCipherCore;
use salsa20::cipher::StreamCipher;
use salsa20::cipher::KeyIvInit;
use std::hash::Hasher;
use crate::suffix::{entry_bytes, orders_all_suffixes};

verus! {

/// FNV-1a offset basis for 64-bit hashes.
pub const FNV_OFFSET: u64 = 0xcbf29ce484222325;

/// FNV-1a prime for 64-bit hashes.
pub const FNV_PRIME: u64 = 0x100000001b3;

/// The SHA-256 digest (FIPS 180-4) of a message, 32 bytes.
pub uninterp spec fn sha256_digest(message: Seq<u8>) -> Seq<u8>;

/// Byte `n` of the Salsa20 keystream for a 32-byte key and an 8-byte nonce.
pub uninterp spec fn salsa20_byte(key: Seq<u8>, nonce: Seq<u8>, n: nat) -> u8;

/// Byte `n` of the RC4 keystream for a key.
pub uninterp spec fn rc4_byte(key: Seq<u8>, n: nat) -> u8;

/// The XXH64 hash of a message under a seed.
pub uninterp spec fn xxh64_digest(message: Seq<u8>, seed: u64) -> u64;

/// The SipHash-2-4 hash of a message under the key `(k0, k1)`.
pub uninterp spec fn siphash24_digest(k0: u64, k1: u64, message: Seq<u8>) -> u64;

/// The key that a running RC4 stream was made with.
pub uninterp spec fn stream_key(stream: KeyStream) -> Seq<u8>;

/// How many keystream bytes a running RC4 stream has handed out.
pub uninterp spec fn stream_used(stream: KeyStream) -> nat;

/// The product of two 64-bit values, reduced modulo 2^64.
pub open spec fn mul64(a: u64, b: u64) -> u64 {
    ((a as int * b as int) % 0x1_0000_0000_0000_0000) as u64
}

/// The 64-bit FNV-1a hash: start from the offset basis; for each byte in
/// turn, XOR it in and multiply by the prime.
pub open spec fn fnv1a_hash(message: Seq<u8>) -> u64
    decreases message.len(),
{
    if message.len() == 0 {
        FNV_OFFSET
    } else {
        mul64(fnv1a_hash(message.drop_last()) ^ (message.last() as u64), FNV_PRIME)
    }
}

/// `rc4::Rc4Core`, the RC4 cipher: a key schedule and the place its
/// keystream has reached. What one holds is spoken of through `stream_key`
/// and `stream_used`.
#[verifier::external_type_specification]
#[verifier::external_body]
#[verifier::reject_recursive_types(KeySize)]
pub struct ExRc4Core<KeySize>(rc4::Rc4Core<KeySize>);

/// `typenum::UTerm`, the type-level number zero.
#[verifier::external_type_specification]
#[verifier::external_body]
pub struct ExUTerm(rc4::cipher::typenum::UTerm);

/// `typenum::B0`, the type-level bit zero.
#[verifier::external_type_specification]
#[verifier::external_body]
pub struct ExB0(rc4::cipher::typenum::B0);

/// `typenum::B1`, the type-level bit one.
#[verifier::external_type_specification]
#[verifier::external_body]
pub struct ExB1(rc4::cipher::typenum::B1);

/// `typenum::UInt`, a type-level number as its higher bits and its lowest
/// bit; key lengths are written with it.
#[verifier::external_type_specification]
#[verifier::external_body]
#[verifier::reject_recursive_types(U)]
#[verifier::reject_recursive_types(B)]
pub struct ExUInt<U, B>(rc4::cipher::typenum::UInt<U, B>);

/// A running RC4 cipher with a key of 256 bytes.
pub type KeyStream = rc4::Rc4Core<rc4::consts::U256>;

/// `sha2::Sha256` (`new`, `update`, `finalize`): the result is the SHA-256
/// digest of `message`.
#[verifier::external_body]
pub(crate) fn sha256(message: &[u8]) -> (digest: [u8; 32])
    ensures
        digest@ == sha256_digest(message@),
{
    let mut hasher = sha2::Sha256::new();
    hasher.update(message);
    hasher.finalize().into()
}

/// `salsa20::Salsa20` (`new`, `apply_keystream`): each byte of `buf` is XORed
/// with the keystream byte of its index, the stream starting at its
/// beginning.
#[verifier::external_body]
pub(crate) fn salsa20_apply(key: &[u8; 32], nonce: &[u8; 8], buf: &mut [u8; 256])
    ensures
        forall|i: int|
            0 <= i < 256 ==> #[trigger] final(buf)@[i] == old(buf)@[i] ^ salsa20_byte(
                key@,
                nonce@,
                i as nat,
            ),
{
    let mut cipher = salsa20::Salsa20::new(key.into(), nonce.into());
    cipher.apply_keystream(buf);
}

/// `fnv::FnvHasher` (`default`, `write`, `finish`): the result is the 64-bit
/// FNV-1a hash of `message`.
#[verifier::external_body]
pub(crate) fn fnv1a(message: &[u8]) -> (hash: u64)
    ensures
        hash == fnv1a_hash(message@),
{
    let mut hasher = fnv::FnvHasher::default();
    hasher.write(message);
    hasher.finish()
}

/// `xxhash_rust::xxh64::xxh64`: the result is the XXH64 hash of `message`
/// under `seed`.
#[verifier::external_body]
pub(crate) fn xxh64(message: &[u8], seed: u64) -> (hash: u64)
    ensures
        hash == xxh64_digest(message@, seed),
{
    xxhash_rust::xxh64::xxh64(message, seed)
}

/// `siphasher::sip::SipHasher24` (`new_with_keys`, `hash`): the result is the
/// SipHash-2-4 hash of `message` under the key `(k0, k1)`.
#[verifier::external_body]
pub(crate) fn siphash24(k0: u64, k1: u64, message: &[u8]) -> (hash: u64)
    ensures
        hash == siphash24_digest(k0, k1, message@),
{
    siphasher::sip::SipHasher24::new_with_keys(k0, k1).hash(message)
}

/// `rc4::Rc4Core::new`: a stream keyed with `key` that has handed out
/// nothing yet.
#[verifier::external_body]
pub(crate) fn stream_new(key: &[u8; 256]) -> (stream: KeyStream)
    ensures
        stream_key(stream) == key@,
        stream_used(stream) == 0,
{
    rc4::Rc4Core::new(&(*key).into())
}

/// `write_keystream_block` on an `rc4::Rc4Core`, whose blocks are one byte
/// long: the result is the next keystream byte, and the stream moves on by
/// one; the key stays.
#[verifier::external_body]
pub(crate) fn stream_next(stream: &mut KeyStream) -> (byte: u8)
    ensures
        byte == rc4_byte(stream_key(*old(stream)), stream_used(*old(stream))),
        stream_key(*final(stream)) == stream_key(*old(stream)),
        stream_used(*final(stream)) == stream_used(*old(stream)) + 1,
{
    let mut block = rc4::cipher::Block::<KeyStream>::default();
    stream.write_keystream_block(&mut block);
    block[0]
}

/// `suffix_array::SuffixArray::new` and `into_parts`: the positions of all
/// suffixes of `text`, the empty one included, in increasing order of the
/// suffixes. The crate refuses texts of `i32::MAX` bytes or more.
#[verifier::external_body]
pub(crate) fn sorted_suffixes(text: &[u8]) -> (order: Vec<u32>)
    requires
        text@.len() < 0x7FFF_FFFF,
    ensures
        orders_all_suffixes(text@, order@),
{
    suffix_array::SuffixArray::new(text).into_parts().1
}

/// `u32::to_ne_bytes`: the four bytes of `v` in the byte order of this
/// machine, which is one of the two orders.
#[verifier::external_body]
pub(crate) fn native_bytes(v: u32) -> (bytes: [u8; 4])
    ensures
        bytes@ == entry_bytes(v, true) || bytes@ == entry_bytes(v, false),
{
    v.to_ne_bytes()
}

} // verus!
