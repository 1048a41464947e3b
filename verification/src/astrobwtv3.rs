//! The hash itself: seeding the state, running the loop, and compressing
//! the suffix array of the accumulated snapshots.

use vstd::prelude::*;
use vstd::slice::slice_subrange;
use crate::mixer::{lemma_run_terminates, run, run_effect};
use crate::primitives::{
    fnv1a,
    fnv1a_hash,
    salsa20_apply,
    salsa20_byte,
    sha256,
    sha256_digest,
    stream_new,
};
use crate::state::{Model, State, MAX_TRIES, SCRATCH_LEN};
use crate::stream::{apply_keystream, xored_with_stream};
use crate::suffix::{
    build_suffix_array,
    host_is_little_endian,
    serialize,
    serialized,
    suffix_array_of,
};

verus! {

/// `n` zero bytes.
pub open spec fn zero_bytes(n: nat) -> Seq<u8> {
    Seq::new(n, |i: int| 0u8)
}

/// The first 256 bytes of the Salsa20 keystream under `key` and the all-zero
/// nonce.
pub open spec fn expanded(key: Seq<u8>) -> Seq<u8> {
    Seq::new(256, |i: int| salsa20_byte(key, zero_bytes(8), i as nat))
}

/// The state before the first iteration. The SHA-256 digest of the input is
/// expanded with Salsa20; the expansion keys an RC4 stream, whose first 256
/// bytes are XORed into it to give the working buffer; both running hashes
/// are the FNV-1a of that buffer; the scratch area is all zero.
pub open spec fn seeded(input: Seq<u8>) -> Model {
    let key = expanded(sha256_digest(input));
    let data = xored_with_stream(key, key, 0);
    Model {
        data: data,
        scratch: zero_bytes(SCRATCH_LEN as nat),
        lhash: fnv1a_hash(data),
        prev_lhash: fnv1a_hash(data),
        tries: 0,
        key: key,
        used: 256,
    }
}

/// The low ten bits of the 16-bit number whose high byte is `hi` and whose
/// low byte is `lo`.
pub open spec fn tail_len(hi: u8, lo: u8) -> int {
    ((((hi as u32) << 8) | (lo as u32)) & 0x3FF) as int
}

/// How much of the scratch area goes into the suffix array: all frames but
/// the last four, and up to 1023 bytes more, as the bytes at 253 and 254 of
/// the working buffer say.
pub open spec fn text_len(m: Model) -> int {
    (m.tries - 4) * 256 + tail_len(m.data[253], m.data[254])
}

/// The digest that a finished state gives: the SHA-256 of the serialized
/// suffix array of the scratch area's first `text_len` bytes.
pub open spec fn digest_of(m: Model, little: bool) -> Seq<u8> {
    sha256_digest(serialized(suffix_array_of(m.scratch.subrange(0, text_len(m))), little))
}

/// The hash of an input, with suffix array entries serialized in the given
/// byte order.
pub open spec fn hash_of(input: Seq<u8>, little: bool) -> Seq<u8> {
    digest_of(run_effect(seeded(input)), little)
}

/// The hash is a function of the input and the byte order: equal inputs
/// have equal hashes.
pub proof fn lemma_hash_deterministic(x: Seq<u8>, y: Seq<u8>, little: bool)
    requires
        x =~= y,
    ensures
        hash_of(x, little) == hash_of(y, little),
{
}

/// The seeded state is well-formed and no iteration has been made in it.
pub proof fn lemma_seeded_wf(input: Seq<u8>)
    ensures
        seeded(input).wf(),
        seeded(input).tries == 0,
{
}

/// Whatever the input, the loop ends after more than 260 and at most 277
/// iterations, so the text of the suffix array is not empty.
pub proof fn lemma_tries_bounded(input: Seq<u8>)
    ensures
        260 < run_effect(seeded(input)).tries <= MAX_TRIES,
        run_effect(seeded(input)).wf(),
        text_len(run_effect(seeded(input))) >= 257 * 256,
{
    lemma_seeded_wf(input);
    lemma_run_terminates(seeded(input));
    lemma_text_len_bounds(run_effect(seeded(input)));
}

/// The text of the suffix array lies within the frames that the loop has
/// written.
pub proof fn lemma_text_len_bounds(m: Model)
    requires
        m.wf(),
        m.tries >= 4,
    ensures
        (m.tries - 4) * 256 <= text_len(m) < m.tries * 256,
        text_len(m) <= SCRATCH_LEN,
{
    let hi = m.data[253];
    let lo = m.data[254];
    assert(((((hi as u32) << 8) | (lo as u32)) & 0x3FF) < 1024) by (bit_vector);
}

/// Sets up the state for an input.
pub fn seed(input: &[u8]) -> (s: State)
    ensures
        s.wf(),
        s@ == seeded(input@),
{
    let key = sha256(input);
    let nonce: [u8; 8] = [0u8; 8];
    let mut data: [u8; 256] = [0u8; 256];
    assert(nonce@ =~= zero_bytes(8));
    let ghost zeros = data@;
    salsa20_apply(&key, &nonce, &mut data);
    proof {
        assert forall|i: int| 0 <= i < 256 implies data@[i] == expanded(key@)[i] by {
            let k = salsa20_byte(key@, nonce@, i as nat);
            assert(zeros[i] == 0u8);
            assert(0u8 ^ k == k) by (bit_vector);
        }
        assert(data@ =~= expanded(key@));
    }
    let mut stream = stream_new(&data);
    apply_keystream(&mut stream, &mut data);
    let lhash = fnv1a(data.as_slice());
    let scratch: Vec<u8> = vec![0u8; SCRATCH_LEN];
    assert(scratch@ =~= zero_bytes(SCRATCH_LEN as nat));
    State { data: data, scratch: scratch, lhash: lhash, prev_lhash: lhash, tries: 0, stream: stream }
}

/// Computes how much of the scratch area goes into the suffix array.
pub fn scratch_text_len(tries: u64, hi: u8, lo: u8) -> (len: usize)
    requires
        4 <= tries <= MAX_TRIES,
    ensures
        len == (tries - 4) * 256 + tail_len(hi, lo),
        (tries - 4) * 256 <= len < tries * 256,
{
    let tail: u32 = (((hi as u32) << 8) | (lo as u32)) & 0x3FF;
    assert(tail < 1024) by (bit_vector)
        requires
            tail == (((hi as u32) << 8) | (lo as u32)) & 0x3FF,
    ;
    ((tries - 4) * 256) as usize + tail as usize
}

/// Compresses a state into its digest.
pub fn finish(s: &State, little: bool) -> (digest: [u8; 32])
    requires
        s.wf(),
        s.tries >= 4,
    ensures
        digest@ == digest_of(s@, little),
        digest@.len() == 32,
{
    let len = scratch_text_len(s.tries, s.data[253], s.data[254]);
    let text = slice_subrange(s.scratch.as_slice(), 0, len);
    let sa = build_suffix_array(text);
    let bytes = serialize(&sa, little);
    sha256(bytes.as_slice())
}

/// Hashes an input, with suffix array entries serialized least significant
/// byte first if `little`, most significant byte first if not.
pub fn astrobwtv3_hash_with_order(input: &[u8], little: bool) -> (digest: [u8; 32])
    ensures
        digest@ == hash_of(input@, little),
        digest@.len() == 32,
{
    let mut s = seed(input);
    run(&mut s);
    finish(&s, little)
}

/// Hashes an input, with suffix array entries serialized in the byte order
/// of this machine.
pub fn astrobwtv3_hash(input: &[u8]) -> (digest: [u8; 32])
    ensures
        digest@ == hash_of(input@, true) || digest@ == hash_of(input@, false),
        digest@.len() == 32,
{
    astrobwtv3_hash_with_order(input, host_is_little_endian())
}

} // verus!
