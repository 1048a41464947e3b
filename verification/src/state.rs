//! The state of one hash computation and its mathematical model.

use vstd::prelude::*;
use crate::primitives::{KeyStream, stream_key, stream_used};

verus! {

/// Length of the working buffer.
pub const DATA_LEN: usize = 256;

/// Length of the scratch area: room for 384 snapshots of the working buffer
/// and a tail of 64 bytes.
pub const SCRATCH_LEN: usize = 98368;

/// No computation makes more iterations than this.
pub const MAX_TRIES: u64 = 277;

/// The state of a computation as plain values.
pub struct Model {
    /// The working buffer, 256 bytes.
    pub data: Seq<u8>,
    /// The scratch area: the snapshot of iteration `n` lies at `(n - 1) * 256`.
    pub scratch: Seq<u8>,
    /// The running hash.
    pub lhash: u64,
    /// The running hash before the last update, accumulated.
    pub prev_lhash: u64,
    /// The number of iterations made.
    pub tries: u64,
    /// The key of the RC4 stream in use.
    pub key: Seq<u8>,
    /// The number of keystream bytes taken from that stream.
    pub used: nat,
}

impl Model {
    /// The buffers have their fixed lengths and the iteration count is within
    /// its cap.
    pub open spec fn wf(self) -> bool {
        &&& self.data.len() == DATA_LEN
        &&& self.scratch.len() == SCRATCH_LEN
        &&& self.tries <= MAX_TRIES
    }

    /// The snapshot that iteration `n` (counted from 1) left in the scratch
    /// area.
    pub open spec fn frame(self, n: int) -> Seq<u8> {
        self.scratch.subrange((n - 1) * 256, n * 256)
    }
}

/// The state of a computation.
pub struct State {
    /// The working buffer.
    pub data: [u8; 256],
    /// The scratch area.
    pub scratch: Vec<u8>,
    /// The running hash.
    pub lhash: u64,
    /// The running hash before the last update, accumulated.
    pub prev_lhash: u64,
    /// The number of iterations made.
    pub tries: u64,
    /// The RC4 stream in use.
    pub stream: KeyStream,
}

impl View for State {
    type V = Model;

    open spec fn view(&self) -> Model {
        Model {
            data: self.data@,
            scratch: self.scratch@,
            lhash: self.lhash,
            prev_lhash: self.prev_lhash,
            tries: self.tries,
            key: stream_key(self.stream),
            used: stream_used(self.stream),
        }
    }
}

impl State {
    /// The scratch area has its fixed length and the iteration count is
    /// within its cap.
    pub open spec fn wf(&self) -> bool {
        self@.wf()
    }
}

} // verus!
