//! The mixing controller: how one iteration picks its branch and range, what
//! follows the pass of the opcode engine, and when the loop ends.

use vstd::prelude::*;
use vstd::slice::slice_subrange;
use crate::bits::wrap8;
use crate::engine::{
    engine_effect,
    lemma_mutate_range_frame,
    mutate_byte,
    mutate_range,
    rehashed,
    rekeyed,
    run_engine,
    wrap_sum,
    XXH_SEED,
};
use crate::primitives::{
    fnv1a,
    fnv1a_hash,
    siphash24,
    siphash24_digest,
    xxh64,
    xxh64_digest,
};
use crate::state::{Model, State, MAX_TRIES};
use crate::stream::{apply_keystream, xored_with_stream};

verus! {

/// What an iteration draws from its 64-bit switcher: the branch, and the
/// range from `pos1` up to `pos2`.
#[derive(Clone, Copy, Debug, PartialEq, Eq, Structural)]
pub struct Selection {
    pub branch: u8,
    pub pos1: u8,
    pub pos2: u8,
}

/// Byte `j` of a switcher (byte 0 is the least significant).
pub open spec fn switcher_byte(rs: u64, j: u64) -> u8 {
    ((rs >> (8 * j) as u64) & 0xFF) as u8
}

/// The upper end of a range that starts at `lo`: `hi`, unless that makes the
/// range longer than 32, in which case only the low five bits of the length
/// are kept.
pub open spec fn capped_end(lo: u8, hi: u8) -> u8 {
    if hi - lo > 32 {
        (lo + (((hi - lo) as u8) & 0x1F)) as u8
    } else {
        hi
    }
}

/// The selection that a switcher stands for. Byte 0 is the branch; bytes 1
/// and 2 are the two ends of the range, the smaller one first; a range
/// longer than 32 is cut down.
pub open spec fn selection_of(rs: u64) -> Selection {
    let a = switcher_byte(rs, 1);
    let c = switcher_byte(rs, 2);
    let lo = if a > c {
        c
    } else {
        a
    };
    let hi = if a > c {
        a
    } else {
        c
    };
    Selection { branch: switcher_byte(rs, 0), pos1: lo, pos2: capped_end(lo, hi) }
}

/// The switcher of the iteration that a state is in.
pub open spec fn switcher_of(m: Model) -> u64 {
    m.prev_lhash ^ m.lhash ^ m.tries
}

/// The working buffer XORed with the next 256 bytes of the RC4 stream.
pub open spec fn masked(m: Model) -> Model {
    Model {
        data: xored_with_stream(m.data, m.key, m.used),
        used: m.used + 256,
        ..m
    }
}

/// The 8-bit wrapping difference of the bytes at the two ends of the range.
pub open spec fn end_gap(m: Model, pos1: int, pos2: int) -> u8 {
    wrap8(m.data[pos1] - m.data[pos2])
}

/// First gate: below 0x10 the running hash becomes the XXH64 of the buffer
/// before `pos2`.
pub open spec fn xxh_gate(m: Model, gap: u8, pos2: int) -> Model {
    if gap < 0x10 {
        rehashed(m, xxh64_digest(m.data.subrange(0, pos2), XXH_SEED))
    } else {
        m
    }
}

/// Second gate: below 0x20 the running hash becomes the FNV-1a of the buffer
/// before `pos2`.
pub open spec fn fnv_gate(m: Model, gap: u8, pos2: int) -> Model {
    if gap < 0x20 {
        rehashed(m, fnv1a_hash(m.data.subrange(0, pos2)))
    } else {
        m
    }
}

/// Third gate: below 0x30 the running hash becomes the SipHash-2-4 of the
/// buffer before `pos2`, keyed with the iteration count and the accumulator
/// as it is after taking in the old running hash.
pub open spec fn sip_gate(m: Model, gap: u8, pos2: int) -> Model {
    if gap < 0x30 {
        let prev = wrap_sum(m.prev_lhash, m.lhash);
        rehashed(m, siphash24_digest(m.tries, prev, m.data.subrange(0, pos2)))
    } else {
        m
    }
}

/// Fourth gate: up to 0x40 the buffer is XORed with the RC4 stream.
pub open spec fn rc4_gate(m: Model, gap: u8) -> Model {
    if gap <= 0x40 {
        masked(m)
    } else {
        m
    }
}

/// What follows the pass. The four gates test the same difference of the two
/// end bytes, taken once before the first; each that opens acts on what the
/// ones before it left.
pub open spec fn after_gates(m: Model, pos1: int, pos2: int) -> Model {
    let gap = end_gap(m, pos1, pos2);
    rc4_gate(sip_gate(fnv_gate(xxh_gate(m, gap, pos2), gap, pos2), gap, pos2), gap)
}

/// The last byte of the buffer XORed with the bytes at the two ends of the
/// range.
pub open spec fn folded(m: Model, pos1: int, pos2: int) -> Model {
    Model { data: m.data.update(255, m.data[255] ^ (m.data[pos1] ^ m.data[pos2])), ..m }
}

/// The scratch area with the working buffer copied into the frame of the
/// current iteration.
pub open spec fn snapshot(m: Model) -> Model {
    let base = (m.tries - 1) * 256;
    Model {
        scratch: Seq::new(
            m.scratch.len(),
            |j: int|
                if base <= j < base + 256 {
                    m.data[j - base]
                } else {
                    m.scratch[j]
                },
        ),
        ..m
    }
}

/// One iteration: count it, draw the selection, run the pass, the gates and
/// the fold, and take the snapshot.
pub open spec fn step_effect(m: Model) -> Model {
    let m0 = Model { tries: (m.tries + 1) as u64, ..m };
    let sel = selection_of(switcher_of(m0));
    let m1 = engine_effect(m0, sel.branch, sel.pos1 as int, sel.pos2 as int);
    let m2 = after_gates(m1, sel.pos1 as int, sel.pos2 as int);
    let m3 = folded(m2, sel.pos1 as int, sel.pos2 as int);
    snapshot(m3)
}

/// Whether the loop ends after the iteration that left `m`.
pub open spec fn finished(m: Model) -> bool {
    m.tries > 276 || (m.data[255] >= 0xF0 && m.tries > 260)
}

/// The selection of a switcher is a range within the buffer, at most 32
/// long.
pub proof fn lemma_selection_bounds(rs: u64)
    ensures
        selection_of(rs).pos1 <= selection_of(rs).pos2,
        selection_of(rs).pos2 - selection_of(rs).pos1 <= 32,
{
    let a = switcher_byte(rs, 1);
    let c = switcher_byte(rs, 2);
    let lo = if a > c {
        c
    } else {
        a
    };
    let hi = if a > c {
        a
    } else {
        c
    };
    let d: u8 = (hi - lo) as u8;
    assert(d & 0x1F <= 31 && d & 0x1F <= d) by (bit_vector);
}

/// Draws the selection from a switcher.
pub fn select(rs: u64) -> (sel: Selection)
    ensures
        sel == selection_of(rs),
        sel.pos1 <= sel.pos2,
        sel.pos2 - sel.pos1 <= 32,
{
    let b0: u64 = rs & 0xFF;
    let b1: u64 = (rs >> 8) & 0xFF;
    let b2: u64 = (rs >> 16) & 0xFF;
    assert(b0 < 256 && b1 < 256 && b2 < 256) by (bit_vector)
        requires
            b0 == rs & 0xFF,
            b1 == (rs >> 8) & 0xFF,
            b2 == (rs >> 16) & 0xFF,
    ;
    assert(rs >> 0 == rs) by (bit_vector);
    let branch: u8 = b0 as u8;
    let a: u8 = b1 as u8;
    let c: u8 = b2 as u8;
    let lo: u8 = if a > c {
        c
    } else {
        a
    };
    let hi: u8 = if a > c {
        a
    } else {
        c
    };
    let d: u8 = hi - lo;
    assert(d & 0x1F <= 31 && d & 0x1F <= d) by (bit_vector);
    let end: u8 = if d > 32 {
        lo + (d & 0x1F)
    } else {
        hi
    };
    Selection { branch: branch, pos1: lo, pos2: end }
}

/// Runs the first gate.
fn run_xxh_gate(s: &mut State, gap: u8, pos2: u8)
    ensures
        final(s)@ == xxh_gate(old(s)@, gap, pos2 as int),
        final(s).data == old(s).data,
        final(s).scratch == old(s).scratch,
        final(s).tries == old(s).tries,
{
    if gap < 0x10 {
        s.prev_lhash = s.prev_lhash.wrapping_add(s.lhash);
        s.lhash = xxh64(slice_subrange(s.data.as_slice(), 0, pos2 as usize), XXH_SEED);
    }
}

/// Runs the second gate.
fn run_fnv_gate(s: &mut State, gap: u8, pos2: u8)
    ensures
        final(s)@ == fnv_gate(old(s)@, gap, pos2 as int),
        final(s).data == old(s).data,
        final(s).scratch == old(s).scratch,
        final(s).tries == old(s).tries,
{
    if gap < 0x20 {
        s.prev_lhash = s.prev_lhash.wrapping_add(s.lhash);
        s.lhash = fnv1a(slice_subrange(s.data.as_slice(), 0, pos2 as usize));
    }
}

/// Runs the third gate.
fn run_sip_gate(s: &mut State, gap: u8, pos2: u8)
    ensures
        final(s)@ == sip_gate(old(s)@, gap, pos2 as int),
        final(s).data == old(s).data,
        final(s).scratch == old(s).scratch,
        final(s).tries == old(s).tries,
{
    if gap < 0x30 {
        s.prev_lhash = s.prev_lhash.wrapping_add(s.lhash);
        s.lhash = siphash24(
            s.tries,
            s.prev_lhash,
            slice_subrange(s.data.as_slice(), 0, pos2 as usize),
        );
    }
}

/// Runs the fourth gate.
fn run_rc4_gate(s: &mut State, gap: u8)
    ensures
        final(s)@ == rc4_gate(old(s)@, gap),
        final(s).scratch == old(s).scratch,
        final(s).tries == old(s).tries,
{
    if gap <= 0x40 {
        apply_keystream(&mut s.stream, &mut s.data);
    }
}

/// Runs the four gates that follow a pass over the range from `pos1` up to
/// `pos2`.
pub fn run_gates(s: &mut State, pos1: u8, pos2: u8)
    requires
        old(s).wf(),
    ensures
        final(s).wf(),
        final(s)@ == after_gates(old(s)@, pos1 as int, pos2 as int),
{
    let gap: u8 = s.data[pos1 as usize].wrapping_sub(s.data[pos2 as usize]);
    assert(gap == end_gap(old(s)@, pos1 as int, pos2 as int));
    run_xxh_gate(s, gap, pos2);
    run_fnv_gate(s, gap, pos2);
    run_sip_gate(s, gap, pos2);
    run_rc4_gate(s, gap);
}

/// Copies the working buffer into the scratch frame of the current
/// iteration.
pub fn take_snapshot(s: &mut State)
    requires
        old(s).wf(),
        old(s).tries >= 1,
    ensures
        final(s).wf(),
        final(s)@ == snapshot(old(s)@),
{
    let base: usize = ((s.tries - 1) * 256) as usize;
    let mut k: usize = 0;
    while k < 256
        invariant
            k <= 256,
            base == (old(s).tries - 1) * 256,
            1 <= old(s).tries <= MAX_TRIES,
            s.scratch@.len() == old(s).scratch@.len(),
            old(s).wf(),
            s.data == old(s).data,
            s.lhash == old(s).lhash,
            s.prev_lhash == old(s).prev_lhash,
            s.tries == old(s).tries,
            s.stream == old(s).stream,
            forall|j: int|
                0 <= j < s.scratch@.len() ==> #[trigger] s.scratch@[j] == (if base <= j < base + k {
                    s.data@[j - base]
                } else {
                    old(s).scratch@[j]
                }),
        decreases 256 - k,
    {
        s.scratch[base + k] = s.data[k];
        k = k + 1;
    }
    assert(s@.scratch =~= snapshot(old(s)@).scratch);
}

/// Makes one iteration.
pub fn step(s: &mut State)
    requires
        old(s).wf(),
        old(s).tries < MAX_TRIES,
    ensures
        final(s).wf(),
        final(s)@ == step_effect(old(s)@),
        final(s).tries == old(s).tries + 1,
        final(s)@.frame(final(s).tries as int) == final(s)@.data,
{
    s.tries = s.tries + 1;
    let sel = select(s.prev_lhash ^ s.lhash ^ s.tries);
    let ghost m0 = s@;
    proof {
        lemma_mutate_range_frame(
            rekeyed(m0, sel.branch),
            sel.branch,
            sel.pos1 as int,
            sel.pos2 as int,
            sel.pos1 as int,
        );
    }
    run_engine(s, sel.branch, sel.pos1, sel.pos2);
    run_gates(s, sel.pos1, sel.pos2);
    let ghost m2 = s@;
    let x: u8 = s.data[sel.pos1 as usize] ^ s.data[sel.pos2 as usize];
    let last: u8 = s.data[255];
    s.data[255] = last ^ x;
    assert(s@.data =~= folded(m2, sel.pos1 as int, sel.pos2 as int).data);
    take_snapshot(s);
    assert(s@.frame(s.tries as int) =~= s@.data);
}

/// The state after `k` iterations from `m`.
pub open spec fn after_steps(m: Model, k: nat) -> Model
    decreases k,
{
    if k == 0 {
        m
    } else {
        step_effect(after_steps(m, (k - 1) as nat))
    }
}

/// The state in which the loop ends when it starts from `m`: iterations are
/// made until one leaves a finished state.
pub open spec fn run_effect(m: Model) -> Model
    decreases MAX_TRIES - m.tries,
    via run_effect_decreases
{
    if m.tries >= MAX_TRIES {
        m
    } else {
        let n = step_effect(m);
        if finished(n) {
            n
        } else {
            run_effect(n)
        }
    }
}

#[via_fn]
proof fn run_effect_decreases(m: Model) {
    if m.tries < MAX_TRIES {
        lemma_step_counts(m);
    }
}

/// An iteration raises the iteration count by one.
pub proof fn lemma_step_counts(m: Model)
    requires
        m.tries < MAX_TRIES,
    ensures
        step_effect(m).tries == m.tries + 1,
{
    let m0 = Model { tries: (m.tries + 1) as u64, ..m };
    let sel = selection_of(switcher_of(m0));
    lemma_pass_keeps_count(
        rekeyed(m0, sel.branch),
        sel.branch,
        sel.pos1 as int,
        sel.pos2 as int,
        sel.pos1 as int,
    );
}

/// A pass of the opcode engine leaves the iteration count alone.
pub proof fn lemma_pass_keeps_count(m: Model, branch: u8, pos1: int, pos2: int, i: int)
    ensures
        mutate_range(m, branch, pos1, pos2, i).tries == m.tries,
    decreases pos2 - i,
{
    if i < pos2 {
        lemma_pass_keeps_count(mutate_byte(m, branch, pos1, pos2, i), branch, pos1, pos2, i + 1);
    }
}

/// An iteration on a well-formed state leaves a well-formed state whose
/// newest scratch frame holds the working buffer; every other byte of the
/// scratch area stays.
pub proof fn lemma_step_frames(m: Model)
    requires
        m.wf(),
        m.tries < MAX_TRIES,
    ensures
        step_effect(m).wf(),
        step_effect(m).tries == m.tries + 1,
        step_effect(m).frame(m.tries + 1) == step_effect(m).data,
        forall|j: int|
            0 <= j < m.tries * 256 || (m.tries + 1) * 256 <= j < m.scratch.len() ==> step_effect(
                m,
            ).scratch[j] == m.scratch[j],
{
    let m0 = Model { tries: (m.tries + 1) as u64, ..m };
    let sel = selection_of(switcher_of(m0));
    lemma_selection_bounds(switcher_of(m0));
    lemma_mutate_range_frame(
        rekeyed(m0, sel.branch),
        sel.branch,
        sel.pos1 as int,
        sel.pos2 as int,
        sel.pos1 as int,
    );
    let m1 = engine_effect(m0, sel.branch, sel.pos1 as int, sel.pos2 as int);
    let m2 = after_gates(m1, sel.pos1 as int, sel.pos2 as int);
    let m3 = folded(m2, sel.pos1 as int, sel.pos2 as int);
    assert(m2.data.len() == 256);
    assert(m2.scratch == m.scratch);
    assert(m3.tries == m.tries + 1);
    assert(step_effect(m).frame(m.tries + 1) =~= step_effect(m).data);
}

/// The RC4 stream only moves forward. An iteration of branch 254 or 255
/// starts a new stream, keyed with the working buffer as the iteration found
/// it; any other keeps the stream it found. Either way the iteration takes
/// 256 bytes from the stream or none.
pub proof fn lemma_step_stream(m: Model)
    requires
        m.wf(),
        m.tries < MAX_TRIES,
    ensures
        ({
            let counted = Model { tries: (m.tries + 1) as u64, ..m };
            let n = step_effect(m);
            if selection_of(switcher_of(counted)).branch >= 254 {
                n.key == m.data && (n.used == 0 || n.used == 256)
            } else {
                n.key == m.key && (n.used == m.used || n.used == m.used + 256)
            }
        }),
{
    let m0 = Model { tries: (m.tries + 1) as u64, ..m };
    let sel = selection_of(switcher_of(m0));
    lemma_selection_bounds(switcher_of(m0));
    lemma_mutate_range_frame(
        rekeyed(m0, sel.branch),
        sel.branch,
        sel.pos1 as int,
        sel.pos2 as int,
        sel.pos1 as int,
    );
}

/// The loop ends, in a finished and well-formed state, after at least one
/// iteration and with an iteration count of at most 277 that is above 260.
pub proof fn lemma_run_terminates(m: Model)
    requires
        m.wf(),
        m.tries < MAX_TRIES,
    ensures
        run_effect(m).wf(),
        finished(run_effect(m)),
        m.tries < run_effect(m).tries <= MAX_TRIES,
        run_effect(m).tries > 260,
    decreases MAX_TRIES - m.tries,
{
    lemma_step_frames(m);
    let n = step_effect(m);
    if !finished(n) {
        lemma_run_terminates(n);
    }
}

/// The loop ends after a number of iterations: its last state is the one
/// that so many iterations lead to.
pub proof fn lemma_run_is_iteration(m: Model)
    requires
        m.wf(),
        m.tries < MAX_TRIES,
    ensures
        run_effect(m).tries > m.tries,
        run_effect(m) == after_steps(m, (run_effect(m).tries - m.tries) as nat),
    decreases MAX_TRIES - m.tries,
{
    lemma_step_frames(m);
    lemma_run_terminates(m);
    let n = step_effect(m);
    if finished(n) {
        assert(after_steps(m, 1) == step_effect(after_steps(m, 0)));
    } else {
        lemma_run_is_iteration(n);
        lemma_run_terminates(n);
        lemma_steps_shift(m, (run_effect(n).tries - n.tries) as nat);
    }
}

/// `k` iterations after the first are `k + 1` iterations.
pub proof fn lemma_steps_shift(m: Model, k: nat)
    ensures
        after_steps(step_effect(m), k) == after_steps(m, k + 1),
    decreases k,
{
    if k > 0 {
        lemma_steps_shift(m, (k - 1) as nat);
    } else {
        assert(after_steps(m, 1) == step_effect(after_steps(m, 0)));
    }
}

/// Iterations keep a state well-formed and count up, as long as the cap is
/// not passed.
pub proof fn lemma_steps_count(m: Model, k: nat)
    requires
        m.wf(),
        m.tries + k <= MAX_TRIES,
    ensures
        after_steps(m, k).wf(),
        after_steps(m, k).tries == m.tries + k,
    decreases k,
{
    if k > 0 {
        lemma_steps_count(m, (k - 1) as nat);
        lemma_step_frames(after_steps(m, (k - 1) as nat));
    }
}

/// Scratch frames are written once: after `k` iterations, the frame of each
/// iteration `j` made among them holds the working buffer as that iteration
/// left it, and the frames before them are as they were.
pub proof fn lemma_scratch_frames(m: Model, k: nat, j: nat)
    requires
        m.wf(),
        m.tries + k <= MAX_TRIES,
        1 <= j <= k,
    ensures
        after_steps(m, k).frame(m.tries + j) == after_steps(m, j).data,
    decreases k,
{
    let prev = after_steps(m, (k - 1) as nat);
    lemma_steps_count(m, (k - 1) as nat);
    lemma_step_frames(prev);
    if j < k {
        lemma_scratch_frames(m, (k - 1) as nat, j);
        assert(after_steps(m, k).frame(m.tries + j) =~= prev.frame(m.tries + j));
    }
}

/// At the end of the loop, the scratch frame of every iteration that was
/// made holds the working buffer as that iteration left it.
pub proof fn lemma_run_frames(m: Model, j: nat)
    requires
        m.wf(),
        m.tries < MAX_TRIES,
        1 <= j <= run_effect(m).tries - m.tries,
    ensures
        run_effect(m).frame(m.tries + j) == after_steps(m, j).data,
{
    lemma_run_terminates(m);
    lemma_run_is_iteration(m);
    lemma_scratch_frames(m, (run_effect(m).tries - m.tries) as nat, j);
}

/// Tells whether the loop ends after the iteration that left `s`.
pub fn is_finished(s: &State) -> (done: bool)
    ensures
        done == finished(s@),
{
    s.tries > 276 || (s.data[255] >= 0xF0 && s.tries > 260)
}

/// Runs the loop: makes iterations until one leaves a finished state.
pub fn run(s: &mut State)
    requires
        old(s).wf(),
        old(s).tries < MAX_TRIES,
    ensures
        final(s).wf(),
        final(s)@ == run_effect(old(s)@),
        finished(final(s)@),
        old(s).tries < final(s).tries <= MAX_TRIES,
        final(s).tries > 260,
{
    loop
        invariant_except_break
            s.tries < MAX_TRIES,
            run_effect(s@) == run_effect(old(s)@),
        invariant
            s.wf(),
            old(s).tries <= s.tries,
        ensures
            s@ == run_effect(old(s)@),
            finished(s@),
            old(s).tries < s.tries,
        decreases MAX_TRIES - s.tries,
    {
        step(s);
        if is_finished(s) {
            break ;
        }
    }
}

} // verus!
