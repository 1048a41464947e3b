use spectrex::bits::{count_ones, reverse_bits, rotate_left};
use spectrex::opcode::{decode_step, program_word, run_program, SubOp, BRANCH_TABLE};

#[test]
fn reverse_bits_mirrors_the_byte() {
    assert_eq!(reverse_bits(0x01), 0x80);
    assert_eq!(reverse_bits(0b0001_0110), 0b0110_1000);
    for t in 0..=255u8 {
        assert_eq!(reverse_bits(t), t.reverse_bits());
        assert_eq!(reverse_bits(reverse_bits(t)), t);
    }
}

#[test]
fn count_ones_counts_set_bits() {
    assert_eq!(count_ones(0), 0);
    assert_eq!(count_ones(0xFF), 8);
    assert_eq!(count_ones(0xA1), 3);
    for t in 0..=255u8 {
        assert_eq!(u32::from(count_ones(t)), t.count_ones());
    }
}

#[test]
fn rotate_left_wraps_around() {
    assert_eq!(rotate_left(0x81, 1), 0x03);
    assert_eq!(rotate_left(0x81, 8), 0x81);
    assert_eq!(rotate_left(0x81, 0), 0x81);
    for t in 0..=255u8 {
        for n in 0..=255u8 {
            assert_eq!(rotate_left(t, n), t.rotate_left(u32::from(n)));
        }
    }
}

#[test]
fn each_operation_on_a_sample_byte() {
    let t: u8 = 0xB5;
    let p: u8 = 0x6C;
    assert_eq!(SubOp::Double.apply(t, p), 0x6A);
    assert_eq!(SubOp::SubXor97.apply(t, p), 0xE1);
    assert_eq!(SubOp::Square.apply(t, p), 0xF9);
    assert_eq!(SubOp::XorPivot.apply(t, p), 0xD9);
    assert_eq!(SubOp::Invert.apply(t, p), 0x4A);
    assert_eq!(SubOp::AndPivot.apply(t, p), 0x24);
    assert_eq!(SubOp::ShiftLeft.apply(t, p), 0x6A);
    assert_eq!(SubOp::ShiftRight.apply(t, p), 0x5A);
    assert_eq!(SubOp::Reverse.apply(t, p), 0xAD);
    assert_eq!(SubOp::XorPopcount.apply(t, p), 0xB0);
    assert_eq!(SubOp::RotateSelf.apply(t, p), 0xB6);
    assert_eq!(SubOp::Rotate1.apply(t, p), 0x6B);
    assert_eq!(SubOp::XorRotate2.apply(t, p), 0x63);
    assert_eq!(SubOp::Rotate3.apply(t, p), 0xAD);
    assert_eq!(SubOp::XorRotate4.apply(t, p), 0xEE);
    assert_eq!(SubOp::Rotate5.apply(t, p), 0xB6);
}

#[test]
fn operations_agree_with_wrapping_arithmetic() {
    for t in 0..=255u8 {
        assert_eq!(SubOp::Double.apply(t, 0), t.wrapping_add(t));
        assert_eq!(SubOp::SubXor97.apply(t, 0), t.wrapping_sub(t ^ 97));
        assert_eq!(SubOp::Square.apply(t, 0), t.wrapping_mul(t));
        assert_eq!(SubOp::ShiftLeft.apply(t, 0), t.wrapping_shl(u32::from(t & 3)));
        assert_eq!(SubOp::ShiftRight.apply(t, 0), t.wrapping_shr(u32::from(t & 3)));
        assert_eq!(SubOp::RotateSelf.apply(t, 0), t.rotate_left(u32::from(t)));
        assert_eq!(SubOp::XorRotate2.apply(t, 0), t ^ t.rotate_left(2));
        assert_eq!(SubOp::XorRotate4.apply(t, 0), t ^ t.rotate_left(4));
    }
}

#[test]
fn codes_and_operations_correspond() {
    for code in 0..16u8 {
        let op = SubOp::from_code(code);
        assert!(op.is_some());
        assert_eq!(op.map(|o| o.code()), Some(code));
    }
    for code in 16..=255u8 {
        assert_eq!(SubOp::from_code(code), None);
    }
    assert_eq!(SubOp::from_code(0x0), Some(SubOp::Double));
    assert_eq!(SubOp::from_code(0x9), Some(SubOp::XorPopcount));
    assert_eq!(SubOp::from_code(0xF), Some(SubOp::Rotate5));
}

#[test]
fn table_has_a_program_for_every_branch() {
    assert_eq!(BRANCH_TABLE.len(), 256);
    assert_eq!(program_word(0), 0x090F020A);
    assert_eq!(program_word(1), 0x060B0500);
    assert_eq!(program_word(253), 0x0D0C030D);
    assert_eq!(program_word(254), 0x090D0C0D);
    assert_eq!(program_word(255), 0x090D0C0D);
    for b in 0..=255u8 {
        assert_eq!(program_word(b) & 0xF0F0F0F0, 0);
    }
}

#[test]
fn steps_are_decoded_from_the_bytes_of_a_word() {
    let word = 0x090F020A;
    assert_eq!(decode_step(word, 3), SubOp::XorPopcount);
    assert_eq!(decode_step(word, 2), SubOp::Rotate5);
    assert_eq!(decode_step(word, 1), SubOp::Square);
    assert_eq!(decode_step(word, 0), SubOp::RotateSelf);
}

#[test]
fn program_runs_most_significant_step_first() {
    let word = program_word(0);
    let t: u8 = 0x35;
    let a = t ^ 4;
    let b = a.rotate_left(5);
    let c = b.wrapping_mul(b);
    let d = c.rotate_left(u32::from(c));
    assert_eq!(run_program(word, t, 0), d);
    // 0x030E070C: xor pivot, xor rotate 4, shift right, xor rotate 2.
    let word = program_word(9);
    assert_eq!(word, 0x030E070C);
    let t: u8 = 0xC3;
    let p: u8 = 0x5F;
    let a = t ^ p;
    let b = a ^ a.rotate_left(4);
    let c = b >> (b & 3);
    let d = c ^ c.rotate_left(2);
    assert_eq!(run_program(word, t, p), d);
}
