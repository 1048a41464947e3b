//! The sixteen byte operations, the four-step programs built from them, and
//! the table that assigns a program to each branch value.

use vstd::prelude::*;
use crate::bits::{wrap8, reversed, popcount, rotated_left, reverse_bits, count_ones, rotate_left};

verus! {

/// One program per branch value. Each word packs four operation codes, one per
/// byte; the most significant byte is the step that runs first.
pub const BRANCH_TABLE: [u32; 256] = [
    0x090F020A, 0x060B0500, 0x09080609, 0x0A0D030B, 0x04070A01, 0x09030607, 0x060D0401, 0x000A0904,
    0x040F0F06, 0x030E070C, 0x04020D02, 0x0B0F050A, 0x0C020C04, 0x0B03070F, 0x07060206, 0x0C060501,
    0x0E020B04, 0x03020F04, 0x0E0D0B0F, 0x010F0600, 0x0503080C, 0x0B030005, 0x0608020B, 0x0D0B0905,
    0x00070E0F, 0x090D0A01, 0x02090008, 0x0F050E0F, 0x0600000F, 0x02030700, 0x050E0F06, 0x040C0602,
    0x0C080D0C, 0x0A0E0802, 0x01060601, 0x00040B03, 0x090B0C0B, 0x0A070702, 0x070D090A, 0x0C030705,
    0x0A030903, 0x0F010D0E, 0x0B0D0C0A, 0x05000501, 0x09090D0A, 0x0F0F0509, 0x09000F0E, 0x0F050F06,
    0x0A04040F, 0x0900080E, 0x080D000B, 0x030E0E0F, 0x0A070409, 0x00090E0E, 0x08030404, 0x080E0E0B,
    0x0C02040B, 0x0A0F0D08, 0x080C0500, 0x0B020A04, 0x0304020D, 0x0F060D0F, 0x05040C00, 0x0F090100,
    0x03080E02, 0x0F0D0C02, 0x0C080E0B, 0x0B090C0F, 0x05040E03, 0x00020807, 0x0302070E, 0x0F040206,
    0x08090306, 0x09080F01, 0x020D0805, 0x0209050E, 0x0A0C0F07, 0x0D000609, 0x0A080201, 0x0E0C0002,
    0x0A060005, 0x0E060A09, 0x03040407, 0x06080D08, 0x010B0600, 0x07030A06, 0x0E0A0E04, 0x000D0E00,
    0x0C0B0204, 0x0002040C, 0x080F0B07, 0x09050E08, 0x09040905, 0x0C020500, 0x0B0A0506, 0x0B040F0F,
    0x0C0C090B, 0x0B060907, 0x0E06070E, 0x0E010807, 0x0A060809, 0x07090704, 0x0D01000D, 0x0B08030A,
    0x08090F00, 0x060D0A0C, 0x080E0B02, 0x070C0F0B, 0x0304050C, 0x020A030C, 0x000C0C07, 0x02080207,
    0x0D040F01, 0x0F0B0904, 0x0B080A04, 0x0A0F050D, 0x05030906, 0x060D0605, 0x0700060F, 0x080C0403,
    0x0C020308, 0x07000902, 0x0E0A0F0C, 0x05040D0D, 0x0C0C0304, 0x080C0007, 0x0D0B0F08, 0x06020503,
    0x0A0C0C0F, 0x04090907, 0x070A0B0E, 0x010B0902, 0x05080F0C, 0x030F0C06, 0x040E0B05, 0x070C0008,
    0x0701030F, 0x0F07080A, 0x03030001, 0x0F0D0C0D, 0x0B0C030F, 0x0B010900, 0x050F080C, 0x050D0706,
    0x0A06040A, 0x080E0C0E, 0x05060509, 0x04060E02, 0x050F0601, 0x03080100, 0x06060605, 0x00060206,
    0x0704060C, 0x0B0D0404, 0x0F040309, 0x01030903, 0x07070D0B, 0x07060A0B, 0x090D000B, 0x01030A03,
    0x07080B0D, 0x03030F0A, 0x02080C01, 0x06010E0B, 0x02090104, 0x0E030600, 0x0D000C04, 0x04040207,
    0x0A050A0B, 0x0B060E05, 0x01080102, 0x0D010908, 0x0E01060B, 0x04060200, 0x040A0909, 0x0D01020F,
    0x0302030F, 0x090C0C05, 0x0500040B, 0x0C000708, 0x070E0301, 0x04060C0F, 0x030B0F0E, 0x00010102,
    0x06020F03, 0x040E0F07, 0x0C0E0107, 0x0304000D, 0x0E090E0E, 0x0F0E0301, 0x0F07050C, 0x000D0A07,
    0x00060002, 0x05060A0B, 0x050A0605, 0x090C030E, 0x0D08060B, 0x0E0A0202, 0x0707080B, 0x04000203,
    0x07090808, 0x0D0C0E04, 0x03040A0F, 0x03050B0A, 0x0F0C0A03, 0x090E0600, 0x0E080809, 0x0F0D0909,
    0x0000070D, 0x0F080901, 0x0C0A0F04, 0x0E00010A, 0x0A0C0303, 0x00060D01, 0x03010704, 0x03050602,
    0x0A040105, 0x0F000B0E, 0x08040201, 0x0E0D0508, 0x0B060806, 0x0F030408, 0x07060302, 0x0D030A01,
    0x0C0B0D06, 0x0407080D, 0x08010203, 0x04060105, 0x00070009, 0x0D0A0C09, 0x02050A0A, 0x0D070308,
    0x02020E0F, 0x0B090D09, 0x05020703, 0x0C020D04, 0x03000501, 0x0F060C0D, 0x00000D01, 0x0F0B0205,
    0x04000506, 0x0E09030B, 0x00000103, 0x0F0C090B, 0x040C080F, 0x010F0C07, 0x000B0700, 0x0F0C0F04,
    0x0401090F, 0x080E0E0A, 0x050A090E, 0x0009080C, 0x080E0C06, 0x0D0C030D, 0x090D0C0D, 0x090D0C0D,
];

/// One of the sixteen operations on an accumulator byte `t`. Two of them also
/// read a pivot byte `p`.
#[derive(Clone, Copy, Debug, PartialEq, Eq, Structural)]
pub enum SubOp {
    /// `t + t`
    Double,
    /// `t - (t ^ 97)`
    SubXor97,
    /// `t * t`
    Square,
    /// `t ^ p`
    XorPivot,
    /// `!t`
    Invert,
    /// `t & p`
    AndPivot,
    /// `t << (t & 3)`
    ShiftLeft,
    /// `t >> (t & 3)`
    ShiftRight,
    /// `t` with its bits in the opposite order
    Reverse,
    /// `t ^ popcount(t)`
    XorPopcount,
    /// `t` rotated left by `t mod 8`
    RotateSelf,
    /// `t` rotated left by 1
    Rotate1,
    /// `t ^ (t rotated left by 2)`
    XorRotate2,
    /// `t` rotated left by 3
    Rotate3,
    /// `t ^ (t rotated left by 4)`
    XorRotate4,
    /// `t` rotated left by 5
    Rotate5,
}

impl SubOp {
    /// The operation that a code stands for; codes are four bits wide.
    pub open spec fn of_code(code: u8) -> Option<SubOp> {
        if code == 0x0 {
            Some(SubOp::Double)
        } else if code == 0x1 {
            Some(SubOp::SubXor97)
        } else if code == 0x2 {
            Some(SubOp::Square)
        } else if code == 0x3 {
            Some(SubOp::XorPivot)
        } else if code == 0x4 {
            Some(SubOp::Invert)
        } else if code == 0x5 {
            Some(SubOp::AndPivot)
        } else if code == 0x6 {
            Some(SubOp::ShiftLeft)
        } else if code == 0x7 {
            Some(SubOp::ShiftRight)
        } else if code == 0x8 {
            Some(SubOp::Reverse)
        } else if code == 0x9 {
            Some(SubOp::XorPopcount)
        } else if code == 0xA {
            Some(SubOp::RotateSelf)
        } else if code == 0xB {
            Some(SubOp::Rotate1)
        } else if code == 0xC {
            Some(SubOp::XorRotate2)
        } else if code == 0xD {
            Some(SubOp::Rotate3)
        } else if code == 0xE {
            Some(SubOp::XorRotate4)
        } else if code == 0xF {
            Some(SubOp::Rotate5)
        } else {
            None
        }
    }

    /// The code of an operation.
    pub open spec fn code_spec(self) -> u8 {
        match self {
            SubOp::Double => 0x0,
            SubOp::SubXor97 => 0x1,
            SubOp::Square => 0x2,
            SubOp::XorPivot => 0x3,
            SubOp::Invert => 0x4,
            SubOp::AndPivot => 0x5,
            SubOp::ShiftLeft => 0x6,
            SubOp::ShiftRight => 0x7,
            SubOp::Reverse => 0x8,
            SubOp::XorPopcount => 0x9,
            SubOp::RotateSelf => 0xA,
            SubOp::Rotate1 => 0xB,
            SubOp::XorRotate2 => 0xC,
            SubOp::Rotate3 => 0xD,
            SubOp::XorRotate4 => 0xE,
            SubOp::Rotate5 => 0xF,
        }
    }

    /// What the operation makes of accumulator `t` under pivot `p`.
    pub open spec fn effect(self, t: u8, p: u8) -> u8 {
        match self {
            SubOp::Double => wrap8(t + t),
            SubOp::SubXor97 => wrap8(t - (t ^ 97)),
            SubOp::Square => wrap8(t * t),
            SubOp::XorPivot => t ^ p,
            SubOp::Invert => !t,
            SubOp::AndPivot => t & p,
            SubOp::ShiftLeft => t << (t & 3),
            SubOp::ShiftRight => t >> (t & 3),
            SubOp::Reverse => reversed(t),
            SubOp::XorPopcount => t ^ popcount(t),
            SubOp::RotateSelf => rotated_left(t, t),
            SubOp::Rotate1 => rotated_left(t, 1),
            SubOp::XorRotate2 => t ^ rotated_left(t, 2),
            SubOp::Rotate3 => rotated_left(t, 3),
            SubOp::XorRotate4 => t ^ rotated_left(t, 4),
            SubOp::Rotate5 => rotated_left(t, 5),
        }
    }

    /// Decodes an operation code. Codes above 15 stand for nothing.
    pub fn from_code(code: u8) -> (op: Option<SubOp>)
        ensures
            op == Self::of_code(code),
            op.is_some() <==> code < 16,
    {
        match code {
            0x0 => Some(SubOp::Double),
            0x1 => Some(SubOp::SubXor97),
            0x2 => Some(SubOp::Square),
            0x3 => Some(SubOp::XorPivot),
            0x4 => Some(SubOp::Invert),
            0x5 => Some(SubOp::AndPivot),
            0x6 => Some(SubOp::ShiftLeft),
            0x7 => Some(SubOp::ShiftRight),
            0x8 => Some(SubOp::Reverse),
            0x9 => Some(SubOp::XorPopcount),
            0xA => Some(SubOp::RotateSelf),
            0xB => Some(SubOp::Rotate1),
            0xC => Some(SubOp::XorRotate2),
            0xD => Some(SubOp::Rotate3),
            0xE => Some(SubOp::XorRotate4),
            0xF => Some(SubOp::Rotate5),
            _ => None,
        }
    }

    /// The code that decodes to this operation.
    pub fn code(self) -> (c: u8)
        ensures
            c == self.code_spec(),
            c < 16,
            Self::of_code(c) == Some(self),
    {
        match self {
            SubOp::Double => 0x0,
            SubOp::SubXor97 => 0x1,
            SubOp::Square => 0x2,
            SubOp::XorPivot => 0x3,
            SubOp::Invert => 0x4,
            SubOp::AndPivot => 0x5,
            SubOp::ShiftLeft => 0x6,
            SubOp::ShiftRight => 0x7,
            SubOp::Reverse => 0x8,
            SubOp::XorPopcount => 0x9,
            SubOp::RotateSelf => 0xA,
            SubOp::Rotate1 => 0xB,
            SubOp::XorRotate2 => 0xC,
            SubOp::Rotate3 => 0xD,
            SubOp::XorRotate4 => 0xE,
            SubOp::Rotate5 => 0xF,
        }
    }

    /// Applies the operation to accumulator `t` under pivot `p`.
    pub fn apply(self, t: u8, p: u8) -> (r: u8)
        ensures
            r == self.effect(t, p),
    {
        match self {
            SubOp::Double => t.wrapping_add(t),
            SubOp::SubXor97 => t.wrapping_sub(t ^ 97),
            SubOp::Square => t.wrapping_mul(t),
            SubOp::XorPivot => t ^ p,
            SubOp::Invert => !t,
            SubOp::AndPivot => t & p,
            SubOp::ShiftLeft => {
                assert(t & 3 < 8) by (bit_vector);
                t << (t & 3)
            },
            SubOp::ShiftRight => {
                assert(t & 3 < 8) by (bit_vector);
                t >> (t & 3)
            },
            SubOp::Reverse => reverse_bits(t),
            SubOp::XorPopcount => t ^ count_ones(t),
            SubOp::RotateSelf => rotate_left(t, t),
            SubOp::Rotate1 => rotate_left(t, 1),
            SubOp::XorRotate2 => t ^ rotate_left(t, 2),
            SubOp::Rotate3 => rotate_left(t, 3),
            SubOp::XorRotate4 => t ^ rotate_left(t, 4),
            SubOp::Rotate5 => rotate_left(t, 5),
        }
    }
}

/// The operation code in byte `j` of a program word (byte 0 is the least
/// significant). Only the low four bits of the byte are a code.
pub open spec fn code_at(word: u32, j: u32) -> u8 {
    ((word >> (8 * j) as u32) & 0xF) as u8
}

/// The operation in byte `j` of a program word.
pub open spec fn sub_op_at(word: u32, j: u32) -> SubOp {
    SubOp::of_code(code_at(word, j)).unwrap()
}

/// What a program word makes of accumulator `t` under pivot `p`: its four
/// operations in turn, from the most significant byte down.
pub open spec fn program_effect(word: u32, t: u8, p: u8) -> u8 {
    let t3 = sub_op_at(word, 3).effect(t, p);
    let t2 = sub_op_at(word, 2).effect(t3, p);
    let t1 = sub_op_at(word, 1).effect(t2, p);
    sub_op_at(word, 0).effect(t1, p)
}

/// The program word of a branch value.
pub open spec fn branch_word(branch: u8) -> u32 {
    BRANCH_TABLE[branch as int]
}

/// Decodes the operation in byte `j` of a program word.
pub fn decode_step(word: u32, j: u32) -> (op: SubOp)
    requires
        j < 4,
    ensures
        op == sub_op_at(word, j),
        SubOp::of_code(code_at(word, j)) == Some(op),
{
    let shift: u32 = 8 * j;
    let nibble: u32 = (word >> shift) & 0xF;
    assert(nibble < 16) by (bit_vector)
        requires
            nibble == (word >> shift) & 0xF,
    ;
    SubOp::from_code(nibble as u8).unwrap()
}

/// Runs the four steps of a program word on accumulator `t` under pivot `p`.
pub fn run_program(word: u32, t: u8, p: u8) -> (r: u8)
    ensures
        r == program_effect(word, t, p),
{
    let t3: u8 = decode_step(word, 3).apply(t, p);
    let t2: u8 = decode_step(word, 2).apply(t3, p);
    let t1: u8 = decode_step(word, 1).apply(t2, p);
    decode_step(word, 0).apply(t1, p)
}

/// Looks up the program word of a branch value.
pub fn program_word(branch: u8) -> (word: u32)
    ensures
        word == branch_word(branch),
{
    BRANCH_TABLE[branch as usize]
}

} // verus!
