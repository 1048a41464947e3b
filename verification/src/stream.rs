//! Masking the working buffer with the RC4 keystream.

use vstd::prelude::*;
use crate::primitives::{rc4_byte, stream_key, stream_next, stream_used, KeyStream};

verus! {

/// `buf` XORed, byte by byte, with the keystream of `key` from its byte
/// `used` on.
pub open spec fn xored_with_stream(buf: Seq<u8>, key: Seq<u8>, used: nat) -> Seq<u8> {
    Seq::new(buf.len(), |i: int| buf[i] ^ rc4_byte(key, (used + i) as nat))
}

/// XORs the next 256 bytes of the keystream into `buf`.
pub fn apply_keystream(stream: &mut KeyStream, buf: &mut [u8; 256])
    ensures
        stream_key(*final(stream)) == stream_key(*old(stream)),
        stream_used(*final(stream)) == stream_used(*old(stream)) + 256,
        final(buf)@ == xored_with_stream(
            old(buf)@,
            stream_key(*old(stream)),
            stream_used(*old(stream)),
        ),
{
    let mut i: usize = 0;
    while i < 256
        invariant
            i <= 256,
            stream_key(*stream) == stream_key(*old(stream)),
            stream_used(*stream) == stream_used(*old(stream)) + i,
            forall|j: int|
                0 <= j < 256 ==> #[trigger] buf@[j] == (if j < i {
                    old(buf)@[j] ^ rc4_byte(
                        stream_key(*old(stream)),
                        (stream_used(*old(stream)) + j) as nat,
                    )
                } else {
                    old(buf)@[j]
                }),
        decreases 256 - i,
    {
        let k: u8 = stream_next(stream);
        let b: u8 = buf[i];
        buf[i] = b ^ k;
        i = i + 1;
    }
    assert(buf@ =~= xored_with_stream(
        old(buf)@,
        stream_key(*old(stream)),
        stream_used(*old(stream)),
    ));
}

} // verus!
