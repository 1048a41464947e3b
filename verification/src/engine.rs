//! The opcode engine: one pass of a branch's program over a range of the
//! working buffer, with the hooks that three branch values add.

use vstd::prelude::*;
use vstd::slice::slice_subrange;
use crate::bits::{reversed, reverse_bits};
use crate::opcode::{branch_word, program_effect, program_word, run_program};
use crate::primitives::{xxh64, xxh64_digest, stream_new};
use crate::state::{Model, State};

verus! {

/// Seed of every XXH64 hash that the computation takes.
pub const XXH_SEED: u64 = 0;

/// The sum of two 64-bit values, reduced modulo 2^64.
pub open spec fn wrap_sum(a: u64, b: u64) -> u64 {
    ((a + b) % 0x1_0000_0000_0000_0000) as u64
}

/// The branch whose pass also mirrors and swaps the two ends of a range of
/// odd length.
pub open spec fn swaps_ends(branch: u8, pos1: int, pos2: int) -> bool {
    branch == 0 && (pos2 - pos1) % 2 == 1
}

/// The state with a new running hash: the old one is added to its
/// accumulator first.
pub open spec fn rehashed(m: Model, lhash: u64) -> Model {
    Model { prev_lhash: wrap_sum(m.prev_lhash, m.lhash), lhash: lhash, ..m }
}

/// What the pass does for the byte at `i`. The program of the branch runs on
/// it with the byte at `pos2` as pivot. Branch 0 then mirrors the bytes at
/// the two ends and swaps them, if the range has odd length. Branch 253 then
/// takes a new running hash over the buffer before `pos2`.
pub open spec fn mutate_byte(m: Model, branch: u8, pos1: int, pos2: int, i: int) -> Model {
    let t = program_effect(branch_word(branch), m.data[i], m.data[pos2]);
    let d1 = m.data.update(i, t);
    let d2 = if swaps_ends(branch, pos1, pos2) {
        d1.update(pos1, reversed(d1[pos2])).update(pos2, reversed(d1[pos1]))
    } else {
        d1
    };
    let m2 = Model { data: d2, ..m };
    if branch == 253 {
        rehashed(m2, xxh64_digest(d2.subrange(0, pos2), XXH_SEED))
    } else {
        m2
    }
}

/// What the pass does for the bytes from `i` up to `pos2`, in rising order.
pub open spec fn mutate_range(m: Model, branch: u8, pos1: int, pos2: int, i: int) -> Model
    decreases pos2 - i,
{
    if i >= pos2 {
        m
    } else {
        mutate_range(mutate_byte(m, branch, pos1, pos2, i), branch, pos1, pos2, i + 1)
    }
}

/// Branches 254 and 255 start a new RC4 stream, keyed with the working
/// buffer as it stands.
pub open spec fn rekeyed(m: Model, branch: u8) -> Model {
    if branch >= 254 {
        Model { key: m.data, used: 0, ..m }
    } else {
        m
    }
}

/// The whole pass of a branch over the range from `pos1` up to `pos2`.
pub open spec fn engine_effect(m: Model, branch: u8, pos1: int, pos2: int) -> Model {
    mutate_range(rekeyed(m, branch), branch, pos1, pos2, pos1)
}

/// The pass leaves the buffer's length, the scratch area and the iteration
/// count alone; the RC4 stream too, and the running hashes unless the branch
/// is 253. No byte before `pos1` or after `pos2` changes.
pub proof fn lemma_mutate_range_frame(m: Model, branch: u8, pos1: int, pos2: int, i: int)
    requires
        m.data.len() == 256,
        0 <= pos1 <= i <= pos2 < 256,
    ensures
        ({
            let r = mutate_range(m, branch, pos1, pos2, i);
            &&& r.data.len() == 256
            &&& r.scratch == m.scratch
            &&& r.tries == m.tries
            &&& r.key == m.key
            &&& r.used == m.used
            &&& branch != 253 ==> r.lhash == m.lhash && r.prev_lhash == m.prev_lhash
            &&& forall|k: int| 0 <= k < pos1 || pos2 < k < 256 ==> r.data[k] == m.data[k]
        }),
    decreases pos2 - i,
{
    if i < pos2 {
        let n = mutate_byte(m, branch, pos1, pos2, i);
        lemma_mutate_range_frame(n, branch, pos1, pos2, i + 1);
    }
}

/// Where no end-swapping takes place, the pass has a closed form: each byte
/// of the range becomes what the program makes of it under the pivot at
/// `pos2`, and every other byte stays.
pub proof fn lemma_mutate_range_closed_form(m: Model, branch: u8, pos1: int, pos2: int, i: int)
    requires
        m.data.len() == 256,
        0 <= pos1 <= i <= pos2 < 256,
        !swaps_ends(branch, pos1, pos2),
    ensures
        forall|k: int|
            0 <= k < 256 ==> #[trigger] mutate_range(m, branch, pos1, pos2, i).data[k] == (if i
                <= k < pos2 {
                program_effect(branch_word(branch), m.data[k], m.data[pos2])
            } else {
                m.data[k]
            }),
    decreases pos2 - i,
{
    if i < pos2 {
        let n = mutate_byte(m, branch, pos1, pos2, i);
        lemma_mutate_range_closed_form(n, branch, pos1, pos2, i + 1);
        let r = mutate_range(m, branch, pos1, pos2, i);
        assert(r == mutate_range(n, branch, pos1, pos2, i + 1));
        assert(n.data == m.data.update(i, program_effect(branch_word(branch), m.data[i], m.data[pos2])));
        assert forall|k: int| 0 <= k < 256 implies #[trigger] r.data[k] == (if i <= k < pos2 {
            program_effect(branch_word(branch), m.data[k], m.data[pos2])
        } else {
            m.data[k]
        }) by {}
    }
}

/// The closed form of a whole pass without end-swapping.
pub proof fn lemma_engine_closed_form(m: Model, branch: u8, pos1: int, pos2: int)
    requires
        m.data.len() == 256,
        0 <= pos1 <= pos2 < 256,
        !swaps_ends(branch, pos1, pos2),
    ensures
        forall|k: int|
            0 <= k < 256 ==> #[trigger] engine_effect(m, branch, pos1, pos2).data[k] == (if pos1
                <= k < pos2 {
                program_effect(branch_word(branch), m.data[k], m.data[pos2])
            } else {
                m.data[k]
            }),
{
    lemma_mutate_range_closed_form(rekeyed(m, branch), branch, pos1, pos2, pos1);
}

/// The bytes that a pass from `i` on leaves between `pos1` and `pos2`, both
/// included, depend on nothing but the bytes that were there.
pub proof fn lemma_mutate_range_local(a: Model, b: Model, branch: u8, pos1: int, pos2: int, i: int)
    requires
        a.data.len() == 256,
        b.data.len() == 256,
        0 <= pos1 <= i <= pos2 < 256,
        forall|k: int| pos1 <= k <= pos2 ==> a.data[k] == b.data[k],
    ensures
        forall|k: int|
            pos1 <= k <= pos2 ==> mutate_range(a, branch, pos1, pos2, i).data[k] == mutate_range(
                b,
                branch,
                pos1,
                pos2,
                i,
            ).data[k],
    decreases pos2 - i,
{
    if i < pos2 {
        let na = mutate_byte(a, branch, pos1, pos2, i);
        let nb = mutate_byte(b, branch, pos1, pos2, i);
        assert forall|k: int| pos1 <= k <= pos2 implies na.data[k] == nb.data[k] by {}
        lemma_mutate_range_local(na, nb, branch, pos1, pos2, i + 1);
        assert(mutate_range(a, branch, pos1, pos2, i) == mutate_range(na, branch, pos1, pos2, i + 1));
        assert(mutate_range(b, branch, pos1, pos2, i) == mutate_range(nb, branch, pos1, pos2, i + 1));
    }
}

/// A pass is local to its range. Run on two buffers that agree between
/// `pos1` and `pos2`, both included, it leaves buffers that agree there; and
/// it changes no byte outside.
pub proof fn lemma_engine_local(a: Model, b: Model, branch: u8, pos1: int, pos2: int)
    requires
        a.data.len() == 256,
        b.data.len() == 256,
        0 <= pos1 <= pos2 < 256,
        forall|k: int| pos1 <= k <= pos2 ==> a.data[k] == b.data[k],
    ensures
        forall|k: int|
            pos1 <= k <= pos2 ==> engine_effect(a, branch, pos1, pos2).data[k] == engine_effect(
                b,
                branch,
                pos1,
                pos2,
            ).data[k],
        forall|k: int|
            0 <= k < pos1 || pos2 < k < 256 ==> engine_effect(a, branch, pos1, pos2).data[k]
                == a.data[k],
        engine_effect(a, branch, pos1, pos2).data.len() == 256,
{
    lemma_mutate_range_local(rekeyed(a, branch), rekeyed(b, branch), branch, pos1, pos2, pos1);
    lemma_mutate_range_frame(rekeyed(a, branch), branch, pos1, pos2, pos1);
}

/// Runs the pass of `branch` over the bytes from `pos1` up to `pos2`.
pub fn run_engine(s: &mut State, branch: u8, pos1: u8, pos2: u8)
    requires
        old(s).wf(),
        pos1 <= pos2,
    ensures
        final(s).wf(),
        final(s)@ == engine_effect(old(s)@, branch, pos1 as int, pos2 as int),
{
    let word: u32 = program_word(branch);
    if branch >= 254 {
        s.stream = stream_new(&s.data);
    }
    let ghost start = s@;
    let swap: bool = branch == 0 && (pos2 - pos1) % 2 == 1;
    let mut i: u8 = pos1;
    while i < pos2
        invariant
            pos1 <= i <= pos2,
            s.wf(),
            word == branch_word(branch),
            swap == swaps_ends(branch, pos1 as int, pos2 as int),
            start == rekeyed(old(s)@, branch),
            mutate_range(s@, branch, pos1 as int, pos2 as int, i as int) == mutate_range(
                start,
                branch,
                pos1 as int,
                pos2 as int,
                pos1 as int,
            ),
        decreases pos2 - i,
    {
        let ghost before = s@;
        let pivot: u8 = s.data[pos2 as usize];
        let t: u8 = run_program(word, s.data[i as usize], pivot);
        s.data[i as usize] = t;
        if swap {
            let low: u8 = reverse_bits(s.data[pos1 as usize]);
            let high: u8 = reverse_bits(s.data[pos2 as usize]);
            s.data[pos1 as usize] = high;
            s.data[pos2 as usize] = low;
        }
        if branch == 253 {
            s.prev_lhash = s.prev_lhash.wrapping_add(s.lhash);
            s.lhash = xxh64(slice_subrange(s.data.as_slice(), 0, pos2 as usize), XXH_SEED);
        }
        proof {
            let after = mutate_byte(before, branch, pos1 as int, pos2 as int, i as int);
            assert(s@.data =~= after.data);
            assert(s@ == after);
        }
        i = i + 1;
    }
}

} // verus!
