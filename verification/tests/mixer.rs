use spectrex::astrobwtv3::seed;
use spectrex::engine::run_engine;
use spectrex::mixer::{is_finished, run, run_gates, select, step, take_snapshot, Selection};
use spectrex::state::State;

fn fnv1a_by_hand(bytes: &[u8]) -> u64 {
    let mut h: u64 = 0xcbf29ce484222325;
    for b in bytes {
        h ^= u64::from(*b);
        h = h.wrapping_mul(0x100000001b3);
    }
    h
}

fn state_with_gap(gap: u8) -> State {
    let mut s = seed(b"gates");
    s.data[30] = gap.wrapping_add(0x77);
    s.data[50] = 0x77;
    s
}

#[test]
fn selection_reads_three_bytes_of_the_switcher() {
    assert_eq!(select(0x30_10_FE), Selection { branch: 0xFE, pos1: 0x10, pos2: 0x30 });
    assert_eq!(select(0xFFFF_FFFF_FF00_0000), Selection { branch: 0, pos1: 0, pos2: 0 });
    assert_eq!(select(0xABCD_EF01_2315_1777), Selection { branch: 0x77, pos1: 0x15, pos2: 0x17 });
}

#[test]
fn selection_puts_the_smaller_end_first() {
    assert_eq!(select(0x10_30_01), Selection { branch: 1, pos1: 0x10, pos2: 0x30 });
    assert_eq!(select(0x44_44_02), Selection { branch: 2, pos1: 0x44, pos2: 0x44 });
}

#[test]
fn selection_cuts_long_ranges_to_five_bits() {
    // 32 is not too long.
    assert_eq!(select(0x40_20_00), Selection { branch: 0, pos1: 0x20, pos2: 0x40 });
    // 33 is: 33 & 31 = 1.
    assert_eq!(select(0x41_20_00), Selection { branch: 0, pos1: 0x20, pos2: 0x21 });
    // 64 & 31 = 0: the range becomes empty.
    assert_eq!(select(0x10_50_07), Selection { branch: 7, pos1: 0x10, pos2: 0x10 });
    // 255 & 31 = 31.
    assert_eq!(select(0xFF_00_09), Selection { branch: 9, pos1: 0, pos2: 31 });
}

#[test]
fn selection_is_always_a_short_range() {
    let mut x: u64 = 0x9E3779B97F4A7C15;
    for _ in 0..20000 {
        x ^= x << 13;
        x ^= x >> 7;
        x ^= x << 17;
        let sel = select(x);
        assert_eq!(sel.branch, x as u8);
        assert!(sel.pos1 <= sel.pos2);
        assert!(sel.pos2 - sel.pos1 <= 32);
        assert_eq!(sel.pos1, ((x >> 8) as u8).min((x >> 16) as u8));
    }
}

#[test]
fn all_four_gates_open_below_0x10() {
    for gap in [0x00u8, 0x0F] {
        let mut s = state_with_gap(gap);
        s.tries = 5;
        let before = s.data;
        let (lhash0, prev0) = (s.lhash, s.prev_lhash);
        run_gates(&mut s, 30, 50);
        let x = xxhash_rust::xxh64::xxh64(&before[..50], 0);
        let f = fnv1a_by_hand(&before[..50]);
        let prev = prev0.wrapping_add(lhash0).wrapping_add(x).wrapping_add(f);
        let sip = siphasher::sip::SipHasher24::new_with_keys(5, prev).hash(&before[..50]);
        assert_eq!(s.prev_lhash, prev);
        assert_eq!(s.lhash, sip);
        assert_ne!(s.data, before);
    }
}

#[test]
fn gates_on_an_empty_prefix_hash_nothing() {
    let mut s = seed(b"gates");
    s.tries = 1;
    let (lhash0, prev0) = (s.lhash, s.prev_lhash);
    run_gates(&mut s, 0, 0);
    let prev = prev0
        .wrapping_add(lhash0)
        .wrapping_add(0xEF46DB3751D8E999)
        .wrapping_add(0xcbf29ce484222325);
    assert_eq!(s.prev_lhash, prev);
    assert_eq!(s.lhash, siphasher::sip::SipHasher24::new_with_keys(1, prev).hash(&[]));
}

#[test]
fn second_gate_takes_the_fnv1a_hash_of_the_prefix() {
    let mut s = seed(b"gates");
    s.data[0] = b'a';
    s.data[1] = 0x40;
    s.data[5] = 0x58;
    let (lhash0, prev0) = (s.lhash, s.prev_lhash);
    run_gates(&mut s, 5, 1);
    assert_eq!(s.prev_lhash, prev0.wrapping_add(lhash0).wrapping_add(0xaf63dc4c8601ec8c));
}

#[test]
fn three_gates_open_below_0x20() {
    for gap in [0x10u8, 0x1F] {
        let mut s = state_with_gap(gap);
        s.tries = 9;
        let before = s.data;
        let (lhash0, prev0) = (s.lhash, s.prev_lhash);
        run_gates(&mut s, 30, 50);
        let f = fnv1a_by_hand(&before[..50]);
        let prev = prev0.wrapping_add(lhash0).wrapping_add(f);
        let sip = siphasher::sip::SipHasher24::new_with_keys(9, prev).hash(&before[..50]);
        assert_eq!(s.prev_lhash, prev);
        assert_eq!(s.lhash, sip);
        assert_ne!(s.data, before);
    }
}

#[test]
fn two_gates_open_below_0x30() {
    for gap in [0x20u8, 0x2F] {
        let mut s = state_with_gap(gap);
        s.tries = 270;
        let before = s.data;
        let (lhash0, prev0) = (s.lhash, s.prev_lhash);
        run_gates(&mut s, 30, 50);
        let prev = prev0.wrapping_add(lhash0);
        let sip = siphasher::sip::SipHasher24::new_with_keys(270, prev).hash(&before[..50]);
        assert_eq!(s.prev_lhash, prev);
        assert_eq!(s.lhash, sip);
        assert_ne!(s.data, before);
    }
}

#[test]
fn last_gate_opens_up_to_0x40() {
    for gap in [0x30u8, 0x40] {
        let mut s = state_with_gap(gap);
        let before = s.data;
        let (lhash0, prev0) = (s.lhash, s.prev_lhash);
        run_gates(&mut s, 30, 50);
        assert_eq!((s.lhash, s.prev_lhash), (lhash0, prev0));
        assert_ne!(s.data, before);
    }
}

#[test]
fn no_gate_opens_above_0x40() {
    for gap in [0x41u8, 0x80, 0xFF] {
        let mut s = state_with_gap(gap);
        let before = s.data;
        let (lhash0, prev0) = (s.lhash, s.prev_lhash);
        run_gates(&mut s, 30, 50);
        assert_eq!((s.lhash, s.prev_lhash), (lhash0, prev0));
        assert_eq!(s.data, before);
    }
}

#[test]
fn gap_is_a_wrapping_difference() {
    let mut s = seed(b"gates");
    s.data[30] = 0x05;
    s.data[50] = 0xF0;
    let before = s.data;
    let (lhash0, prev0) = (s.lhash, s.prev_lhash);
    // 0x05 - 0xF0 wraps to 0x15: the first gate stays shut.
    run_gates(&mut s, 30, 50);
    let f = fnv1a_by_hand(&before[..50]);
    assert_eq!(s.prev_lhash, prev0.wrapping_add(lhash0).wrapping_add(f));
}

#[test]
fn snapshot_fills_the_frame_of_the_iteration() {
    let mut s = seed(b"frames");
    s.tries = 3;
    take_snapshot(&mut s);
    for j in 0..s.scratch.len() {
        if (512..768).contains(&j) {
            assert_eq!(s.scratch[j], s.data[j - 512]);
        } else {
            assert_eq!(s.scratch[j], 0);
        }
    }
}

#[test]
fn step_is_select_pass_gates_fold_snapshot() {
    let mut a = seed(b"step");
    let mut b = seed(b"step");
    for _ in 0..40 {
        step(&mut a);
        b.tries += 1;
        let sel = select(b.prev_lhash ^ b.lhash ^ b.tries);
        run_engine(&mut b, sel.branch, sel.pos1, sel.pos2);
        run_gates(&mut b, sel.pos1, sel.pos2);
        let x = b.data[usize::from(sel.pos1)] ^ b.data[usize::from(sel.pos2)];
        b.data[255] ^= x;
        take_snapshot(&mut b);
        assert_eq!(a.data, b.data);
        assert_eq!(a.scratch, b.scratch);
        assert_eq!((a.lhash, a.prev_lhash, a.tries), (b.lhash, b.prev_lhash, b.tries));
    }
}

#[test]
fn each_step_leaves_its_frame_equal_to_the_buffer() {
    let mut s = seed(b"frames");
    for n in 1..=100usize {
        let before = s.scratch.clone();
        step(&mut s);
        assert_eq!(s.tries, n as u64);
        assert_eq!(&s.scratch[(n - 1) * 256..n * 256], &s.data[..]);
        assert_eq!(&s.scratch[..(n - 1) * 256], &before[..(n - 1) * 256]);
        assert_eq!(&s.scratch[n * 256..], &before[n * 256..]);
    }
}

#[test]
fn run_stops_at_the_first_finished_state() {
    for input in [&b"abc"[..], &b""[..], &[0u8; 32][..], &b"termination"[..]] {
        let mut stepped = seed(input);
        let mut frames: Vec<[u8; 256]> = Vec::new();
        loop {
            step(&mut stepped);
            frames.push(stepped.data);
            if is_finished(&stepped) {
                break;
            }
        }
        let mut s = seed(input);
        run(&mut s);
        assert!(s.tries > 260);
        assert!(s.tries <= 277);
        assert!(is_finished(&s));
        assert_eq!(s.tries, frames.len() as u64);
        assert_eq!(s.data, stepped.data);
        assert_eq!((s.lhash, s.prev_lhash), (stepped.lhash, stepped.prev_lhash));
        for (n, frame) in frames.iter().enumerate() {
            assert_eq!(&s.scratch[n * 256..(n + 1) * 256], &frame[..]);
        }
        assert!(s.scratch[frames.len() * 256..].iter().all(|b| *b == 0));
    }
}

#[test]
fn loop_ends_on_a_high_last_byte_after_260_iterations() {
    let mut s = seed(b"finished");
    s.data[255] = 0xF0;
    s.tries = 260;
    assert!(!is_finished(&s));
    s.tries = 261;
    assert!(is_finished(&s));
    s.data[255] = 0xEF;
    assert!(!is_finished(&s));
    s.tries = 276;
    assert!(!is_finished(&s));
    s.tries = 277;
    assert!(is_finished(&s));
    s.data[255] = 0xFF;
    s.tries = 1;
    assert!(!is_finished(&s));
}

#[test]
fn run_finishes_a_loop_that_is_under_way() {
    let mut s = seed(b"late");
    s.tries = 276;
    run(&mut s);
    assert_eq!(s.tries, 277);
    assert_eq!(&s.scratch[276 * 256..277 * 256], &s.data[..]);
}
