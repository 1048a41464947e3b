use spectrex::astrobwtv3::seed;
use spectrex::bits::reverse_bits;
use spectrex::engine::run_engine;
use spectrex::mixer::run_gates;
use spectrex::opcode::{program_word, run_program};
use spectrex::stream::apply_keystream;

fn rc4_by_hand(key: &[u8], len: usize) -> Vec<u8> {
    let mut s: Vec<u8> = (0..=255u8).collect();
    let mut j: u8 = 0;
    for i in 0..256 {
        j = j.wrapping_add(s[i]).wrapping_add(key[i % key.len()]);
        s.swap(i, usize::from(j));
    }
    let mut i: u8 = 0;
    let mut j: u8 = 0;
    let mut out = Vec::new();
    for _ in 0..len {
        i = i.wrapping_add(1);
        j = j.wrapping_add(s[usize::from(i)]);
        s.swap(usize::from(i), usize::from(j));
        let k = s[usize::from(i)].wrapping_add(s[usize::from(j)]);
        out.push(s[usize::from(k)]);
    }
    out
}

#[test]
fn pass_applies_the_program_to_each_byte_of_the_range() {
    let mut s = seed(b"engine");
    let before = s.data;
    let (lhash, prev, tries) = (s.lhash, s.prev_lhash, s.tries);
    run_engine(&mut s, 9, 10, 20);
    for i in 0..256 {
        if (10..20).contains(&i) {
            assert_eq!(s.data[i], run_program(program_word(9), before[i], before[20]));
        } else {
            assert_eq!(s.data[i], before[i]);
        }
    }
    assert_eq!((s.lhash, s.prev_lhash, s.tries), (lhash, prev, tries));
    assert!(s.scratch.iter().all(|b| *b == 0));
}

#[test]
fn pass_over_an_empty_range_changes_nothing() {
    let mut s = seed(b"engine");
    let before = s.data;
    let (lhash, prev) = (s.lhash, s.prev_lhash);
    for branch in [0u8, 7, 253] {
        run_engine(&mut s, branch, 77, 77);
        assert_eq!(s.data, before);
        assert_eq!((s.lhash, s.prev_lhash), (lhash, prev));
    }
}

#[test]
fn pass_reads_nothing_outside_its_range() {
    for branch in [0u8, 1, 100, 253, 255] {
        let mut a = seed(b"one");
        let mut b = seed(b"two");
        assert_ne!(a.data, b.data);
        for i in 40..=59 {
            b.data[i] = a.data[i];
        }
        let (a0, b0) = (a.data, b.data);
        run_engine(&mut a, branch, 40, 59);
        run_engine(&mut b, branch, 40, 59);
        for i in 0..256 {
            if (40..=59).contains(&i) {
                assert_eq!(a.data[i], b.data[i]);
            } else {
                assert_eq!(a.data[i], a0[i]);
                assert_eq!(b.data[i], b0[i]);
            }
        }
    }
}

#[test]
fn pass_twice_from_equal_states_gives_equal_buffers() {
    let mut a = seed(b"same");
    let mut b = seed(b"same");
    run_engine(&mut a, 0, 3, 30);
    run_engine(&mut b, 0, 3, 30);
    assert_eq!(a.data, b.data);
    assert_eq!((a.lhash, a.prev_lhash), (b.lhash, b.prev_lhash));
}

#[test]
fn branch_0_mirrors_and_swaps_the_ends_of_an_odd_range() {
    let mut s = seed(b"swap");
    let mut d = s.data;
    let (pos1, pos2) = (100usize, 105usize);
    for i in pos1..pos2 {
        d[i] = run_program(program_word(0), d[i], d[pos2]);
        let low = reverse_bits(d[pos1]);
        let high = reverse_bits(d[pos2]);
        d[pos1] = high;
        d[pos2] = low;
    }
    run_engine(&mut s, 0, 100, 105);
    assert_eq!(s.data, d);
}

#[test]
fn branch_0_leaves_the_ends_of_an_even_range_alone() {
    let mut s = seed(b"swap");
    let before = s.data;
    run_engine(&mut s, 0, 100, 106);
    for i in 0..256 {
        if (100..106).contains(&i) {
            assert_eq!(s.data[i], run_program(program_word(0), before[i], before[106]));
        } else {
            assert_eq!(s.data[i], before[i]);
        }
    }
}

#[test]
fn branch_253_rehashes_after_every_byte() {
    let mut s = seed(b"rehash");
    let mut d = s.data;
    let mut lhash = s.lhash;
    let mut prev = s.prev_lhash;
    for i in 8..12 {
        d[i] = run_program(program_word(253), d[i], d[12]);
        prev = prev.wrapping_add(lhash);
        lhash = xxhash_rust::xxh64::xxh64(&d[..12], 0);
    }
    run_engine(&mut s, 253, 8, 12);
    assert_eq!(s.data, d);
    assert_eq!(s.lhash, lhash);
    assert_eq!(s.prev_lhash, prev);
    assert_ne!(s.lhash, 0);
}

#[test]
fn branches_254_and_255_start_a_new_stream() {
    for branch in [254u8, 255] {
        let mut s = seed(b"rekey");
        s.data[200] = 0x10;
        s.data[201] = 0x10;
        let before = s.data;
        run_engine(&mut s, branch, 201, 201);
        assert_eq!(s.data, before);
        run_gates(&mut s, 200, 201);
        let stream = rc4_by_hand(&before, 256);
        for i in 0..256 {
            assert_eq!(s.data[i], before[i] ^ stream[i]);
        }
    }
}

#[test]
fn other_branches_keep_the_stream_running() {
    let key: [u8; 32] = <sha2::Sha256 as sha2::Digest>::digest(b"rekey").into();
    let mut expanded = [0u8; 256];
    let mut cipher = <salsa20::Salsa20 as salsa20::cipher::KeyIvInit>::new(
        (&key).into(),
        (&[0u8; 8]).into(),
    );
    salsa20::cipher::StreamCipher::apply_keystream(&mut cipher, &mut expanded);
    let stream = rc4_by_hand(&expanded, 768);

    let mut s = seed(b"rekey");
    s.data[200] = 0x10;
    s.data[201] = 0x10;
    let before = s.data;
    run_engine(&mut s, 7, 201, 201);
    run_gates(&mut s, 200, 201);
    for i in 0..256 {
        assert_eq!(s.data[i], before[i] ^ stream[256 + i]);
    }
    s.data[200] = 0x50;
    s.data[201] = 0x10;
    let before = s.data;
    run_gates(&mut s, 200, 201);
    for i in 0..256 {
        assert_eq!(s.data[i], before[i] ^ stream[512 + i]);
    }
}

#[test]
fn keystream_is_taken_in_order() {
    let key: [u8; 32] = <sha2::Sha256 as sha2::Digest>::digest(b"stream").into();
    let mut expanded = [0u8; 256];
    let mut cipher = <salsa20::Salsa20 as salsa20::cipher::KeyIvInit>::new(
        (&key).into(),
        (&[0u8; 8]).into(),
    );
    salsa20::cipher::StreamCipher::apply_keystream(&mut cipher, &mut expanded);
    let stream = rc4_by_hand(&expanded, 768);

    let mut s = seed(b"stream");
    let mut buf = [0u8; 256];
    apply_keystream(&mut s.stream, &mut buf);
    assert_eq!(&buf[..], &stream[256..512]);
    let mut buf = [0xFFu8; 256];
    apply_keystream(&mut s.stream, &mut buf);
    for i in 0..256 {
        assert_eq!(buf[i], 0xFF ^ stream[512 + i]);
    }
}

#[test]
fn rc4_matches_a_published_keystream() {
    // The keystream of the key "Key" begins EB 9F 77 81 B7 34 CA 72 A7 19.
    assert_eq!(
        rc4_by_hand(b"Key", 10),
        vec![0xEB, 0x9F, 0x77, 0x81, 0xB7, 0x34, 0xCA, 0x72, 0xA7, 0x19]
    );
}
