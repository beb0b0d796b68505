//! The pitch table: for each note number the divider and wrap value that
//! make a timer slice overflow twice in each period of the note's tone. It
//! takes two overflows to pulse a drive's step line once.
//!
//! A slice counts the main clock, divided by `div_int`, up to `top`. The
//! slice of note `n` is to overflow `880 * 2^((n - 69) / 12)` times a second,
//! so its period is `MAIN_CLOCK / (880 * 2^((n - 69) / 12))` clock ticks. The
//! divider is that period over 65536, rounded up; the wrap value is the
//! period over the divider, rounded to the nearest integer. Each table entry
//! is proved to be exactly that, in integer arithmetic: a comparison of the
//! period with a fraction is decided by raising both sides to the twelfth
//! power.

use vstd::prelude::*;

verus! {

/// Frequency of the clock that the slices count, in Hz.
pub const MAIN_CLOCK: u32 = 125_000_000;

/// Frequency, in Hz, at which the slice of the reference note wraps.
pub const REFERENCE_FREQUENCY: u32 = 880;

/// Note number of the reference note.
pub const REFERENCE_NOTE: u8 = 69;

/// Number of notes in the table.
pub const NOTE_COUNT: u8 = 128;

/// Timer settings for one note.
#[derive(Clone, Copy, PartialEq, Eq, Structural, Debug)]
pub struct PwmSetting {
    /// Integer clock divider.
    pub div_int: u8,
    /// Wrap value for the note itself.
    pub top: u16,
    /// Wrap value, under the same divider, for the note one semitone up.
    pub top_pb: u16,
}

/// Clock divider of each note.
pub const DIV_INT: [u8; 128] = [
    117, 111, 104, 99, 93, 88, 83, 78, 74, 70, 66, 62, 59, 56, 52, 50,
    47, 44, 42, 39, 37, 35, 33, 31, 30, 28, 26, 25, 24, 22, 21, 20,
    19, 18, 17, 16, 15, 14, 13, 13, 12, 11, 11, 10, 10, 9, 9, 8,
    8, 7, 7, 7, 6, 6, 6, 5, 5, 5, 5, 4, 4, 4, 4, 4,
    3, 3, 3, 3, 3, 3, 3, 2, 2, 2, 2, 2, 2, 2, 2, 2,
    2, 2, 2, 1, 1, 1, 1, 1, 1, 1, 1, 1, 1, 1, 1, 1,
    1, 1, 1, 1, 1, 1, 1, 1, 1, 1, 1, 1, 1, 1, 1, 1,
    1, 1, 1, 1, 1, 1, 1, 1, 1, 1, 1, 1, 1, 1, 1, 1,
];

/// Wrap value of each note.
pub const TOP: [u16; 128] = [
    65338, 65004, 65485, 64932, 65241, 65079, 65126, 65412,
    65078, 64935, 65005, 65315, 64784, 64424, 65485, 64282,
    64547, 65079, 64351, 65412, 65078, 64935, 65005, 65315,
    63704, 64424, 65485, 64282, 63203, 65079, 64351, 63776,
    63365, 63131, 63093, 63274, 63704, 64424, 65485, 61810,
    63203, 65079, 61426, 63776, 60197, 63131, 59588, 63274,
    59723, 64424, 60808, 57395, 63203, 59655, 56307, 63776,
    60197, 56818, 53629, 63274, 59723, 56371, 53207, 50221,
    63203, 59655, 56307, 53147, 50164, 47348, 44691, 63274,
    59723, 56371, 53207, 50221, 47402, 44742, 42230, 39860,
    37623, 35511, 33518, 63274, 59723, 56371, 53207, 50221,
    47402, 44742, 42230, 39860, 37623, 35511, 33518, 31637,
    29861, 28185, 26603, 25110, 23701, 22371, 21115, 19930,
    18811, 17756, 16759, 15819, 14931, 14093, 13302, 12555,
    11850, 11185, 10558, 9965, 9406, 8878, 8380, 7909,
    7465, 7046, 6651, 6278, 5925, 5593, 5279, 4983,
];

/// Wrap value of the note one semitone above each note, under the divider of
/// the note itself.
pub const TOP_PB: [u16; 128] = [
    61671, 61356, 61810, 61287, 61580, 61426, 61471, 61740,
    61425, 61291, 61357, 61649, 61148, 60808, 61810, 60675,
    60925, 61426, 60739, 61740, 61425, 61291, 61357, 61649,
    60129, 60808, 61810, 60675, 59655, 61426, 60739, 60197,
    59809, 59588, 59552, 59723, 60129, 60808, 61810, 58341,
    59655, 61426, 57978, 60197, 56818, 59588, 56244, 59723,
    56371, 60808, 57395, 54174, 59655, 56307, 53147, 60197,
    56818, 53629, 50619, 59723, 56371, 53207, 50221, 47402,
    59655, 56307, 53147, 50164, 47348, 44691, 42183, 59723,
    56371, 53207, 50221, 47402, 44742, 42230, 39860, 37623,
    35511, 33518, 31637, 59723, 56371, 53207, 50221, 47402,
    44742, 42230, 39860, 37623, 35511, 33518, 31637, 29861,
    28185, 26603, 25110, 23701, 22371, 21115, 19930, 18811,
    17756, 16759, 15819, 14931, 14093, 13302, 12555, 11850,
    11185, 10558, 9965, 9406, 8878, 8380, 7909, 7465,
    7046, 6651, 6278, 5925, 5593, 5279, 4983, 4703,
];

/// Two to the power `n`.
pub open spec fn pow2(n: nat) -> int
    decreases n,
{
    if n == 0 {
        1
    } else {
        2 * pow2((n - 1) as nat)
    }
}

/// `x` to the power twelve.
pub open spec fn pow12(x: int) -> int {
    let x2 = x * x;
    let x4 = x2 * x2;
    x4 * x4 * x4
}

/// Whether the period of `note`, in clock ticks, is at most `num / den`.
///
/// For `den > 0` the period `MAIN_CLOCK / (880 * 2^((note - 69) / 12))` is
/// at most `num / den` exactly when `num >= 0` and
/// `(MAIN_CLOCK * den)^12 * 2^69 <= (880 * num)^12 * 2^note`.
pub open spec fn period_at_most(note: nat, num: int, den: int) -> bool {
    num >= 0 && pow12(MAIN_CLOCK * den) * pow2(REFERENCE_NOTE as nat) <= pow12(
        REFERENCE_FREQUENCY * num,
    ) * pow2(note)
}

/// Whether the period of `note`, in clock ticks, is less than `num / den`,
/// for `den > 0`.
pub open spec fn period_below(note: nat, num: int, den: int) -> bool {
    num >= 0 && pow12(MAIN_CLOCK * den) * pow2(REFERENCE_NOTE as nat) < pow12(
        REFERENCE_FREQUENCY * num,
    ) * pow2(note)
}

/// Whether `div` is the period of `note` over 65536, rounded up.
pub open spec fn is_div_int(note: nat, div: int) -> bool {
    &&& div >= 1
    &&& period_at_most(note, 65536 * div, 1)
    &&& !period_at_most(note, 65536 * (div - 1), 1)
}

/// Whether `top` is the period of `note` over `div`, rounded to the nearest
/// integer, a half rounded up: `top - 1/2 <= period / div < top + 1/2`.
pub open spec fn is_top(note: nat, div: int, top: int) -> bool {
    &&& div >= 1
    &&& !period_below(note, (2 * top - 1) * div, 2)
    &&& period_below(note, (2 * top + 1) * div, 2)
}

/// Whether `setting` is what the formulas give for `note`.
pub open spec fn is_setting_for(note: nat, setting: PwmSetting) -> bool {
    &&& is_div_int(note, setting.div_int as int)
    &&& is_top(note, setting.div_int as int, setting.top as int)
    &&& is_top(note + 1, setting.div_int as int, setting.top_pb as int)
}

/// The table as a function: the entry of `note`, none beyond the last note.
pub open spec fn note_setting(note: u8) -> Option<PwmSetting> {
    if note < NOTE_COUNT {
        Some(
            PwmSetting {
                div_int: DIV_INT[note as int],
                top: TOP[note as int],
                top_pb: TOP_PB[note as int],
            },
        )
    } else {
        None
    }
}

/// Powers of two are positive.
pub proof fn lemma_pow2_positive(n: nat)
    ensures
        pow2(n) > 0,
    decreases n,
{
    if n > 0 {
        lemma_pow2_positive((n - 1) as nat);
    }
}

/// The twelfth power grows with its base, from 0 on.
pub proof fn lemma_pow12_grows(a: int, b: int)
    requires
        0 <= a <= b,
    ensures
        0 <= pow12(a) <= pow12(b),
        a < b ==> pow12(a) < pow12(b),
{
    let a2 = a * a;
    let b2 = b * b;
    assert(0 <= a2 <= b2 && (a < b ==> a2 < b2)) by (nonlinear_arith)
        requires
            0 <= a <= b,
            a2 == a * a,
            b2 == b * b,
    ;
    let a4 = a2 * a2;
    let b4 = b2 * b2;
    assert(0 <= a4 <= b4 && (a2 < b2 ==> a4 < b4)) by (nonlinear_arith)
        requires
            0 <= a2 <= b2,
            a4 == a2 * a2,
            b4 == b2 * b2,
    ;
    let a8 = a4 * a4;
    let b8 = b4 * b4;
    assert(0 <= a8 <= b8 && (a4 < b4 ==> a8 < b8)) by (nonlinear_arith)
        requires
            0 <= a4 <= b4,
            a8 == a4 * a4,
            b8 == b4 * b4,
    ;
    assert(0 <= a8 * a4 <= b8 * b4 && (a4 < b4 ==> a8 * a4 < b8 * b4)) by (nonlinear_arith)
        requires
            0 <= a4 <= b4,
            0 <= a8 <= b8,
            a4 < b4 ==> a8 < b8,
    ;
}

/// A period that is at most, or less than, a fraction is at most, or less
/// than, every greater fraction of the same denominator.
pub proof fn lemma_period_bound_grows(note: nat, num: int, greater: int, den: int)
    requires
        num <= greater,
    ensures
        period_at_most(note, num, den) ==> period_at_most(note, greater, den),
        period_below(note, num, den) ==> period_below(note, greater, den),
{
    if num >= 0 {
        lemma_pow2_positive(note);
        let f = REFERENCE_FREQUENCY as int;
        lemma_pow12_grows(f * num, f * greater);
        let p = pow2(note);
        let x = pow12(f * num);
        let y = pow12(f * greater);
        assert(x * p <= y * p) by (nonlinear_arith)
            requires
                x <= y,
                p > 0,
        ;
    }
}

/// The formulas give each note one setting only.
pub proof fn lemma_setting_unique(note: nat, a: PwmSetting, b: PwmSetting)
    requires
        is_setting_for(note, a),
        is_setting_for(note, b),
    ensures
        a == b,
{
    let da = a.div_int as int;
    let db = b.div_int as int;
    if da < db {
        lemma_period_bound_grows(note, 65536 * da, 65536 * (db - 1), 1);
    }
    if db < da {
        lemma_period_bound_grows(note, 65536 * db, 65536 * (da - 1), 1);
    }
    assert(da == db);
    lemma_top_unique(note, da, a.top as int, b.top as int);
    lemma_top_unique(note + 1, da, a.top_pb as int, b.top_pb as int);
}

/// The period of a note over a divider rounds to one wrap value only.
pub proof fn lemma_top_unique(note: nat, div: int, a: int, b: int)
    requires
        is_top(note, div, a),
        is_top(note, div, b),
    ensures
        a == b,
{
    if a < b {
        assert((2 * a + 1) * div <= (2 * b - 1) * div) by (nonlinear_arith)
            requires
                a < b,
                div >= 1,
        ;
        lemma_period_bound_grows(note, (2 * a + 1) * div, (2 * b - 1) * div, 2);
    }
    if b < a {
        assert((2 * b + 1) * div <= (2 * a - 1) * div) by (nonlinear_arith)
            requires
                b < a,
                div >= 1,
        ;
        lemma_period_bound_grows(note, (2 * b + 1) * div, (2 * a - 1) * div, 2);
    }
}

/// The powers of two up to the 128th.
proof fn lemma_pow2_values()
    ensures
        pow2(0) == 0x1int,
        pow2(1) == 0x2int,
        pow2(2) == 0x4int,
        pow2(3) == 0x8int,
        pow2(4) == 0x10int,
        pow2(5) == 0x20int,
        pow2(6) == 0x40int,
        pow2(7) == 0x80int,
        pow2(8) == 0x100int,
        pow2(9) == 0x200int,
        pow2(10) == 0x400int,
        pow2(11) == 0x800int,
        pow2(12) == 0x1000int,
        pow2(13) == 0x2000int,
        pow2(14) == 0x4000int,
        pow2(15) == 0x8000int,
        pow2(16) == 0x10000int,
        pow2(17) == 0x20000int,
        pow2(18) == 0x40000int,
        pow2(19) == 0x80000int,
        pow2(20) == 0x100000int,
        pow2(21) == 0x200000int,
        pow2(22) == 0x400000int,
        pow2(23) == 0x800000int,
        pow2(24) == 0x1000000int,
        pow2(25) == 0x2000000int,
        pow2(26) == 0x4000000int,
        pow2(27) == 0x8000000int,
        pow2(28) == 0x10000000int,
        pow2(29) == 0x20000000int,
        pow2(30) == 0x40000000int,
        pow2(31) == 0x80000000int,
        pow2(32) == 0x100000000int,
        pow2(33) == 0x200000000int,
        pow2(34) == 0x400000000int,
        pow2(35) == 0x800000000int,
        pow2(36) == 0x1000000000int,
        pow2(37) == 0x2000000000int,
        pow2(38) == 0x4000000000int,
        pow2(39) == 0x8000000000int,
        pow2(40) == 0x10000000000int,
        pow2(41) == 0x20000000000int,
        pow2(42) == 0x40000000000int,
        pow2(43) == 0x80000000000int,
        pow2(44) == 0x100000000000int,
        pow2(45) == 0x200000000000int,
        pow2(46) == 0x400000000000int,
        pow2(47) == 0x800000000000int,
        pow2(48) == 0x1000000000000int,
        pow2(49) == 0x2000000000000int,
        pow2(50) == 0x4000000000000int,
        pow2(51) == 0x8000000000000int,
        pow2(52) == 0x10000000000000int,
        pow2(53) == 0x20000000000000int,
        pow2(54) == 0x40000000000000int,
        pow2(55) == 0x80000000000000int,
        pow2(56) == 0x100000000000000int,
        pow2(57) == 0x200000000000000int,
        pow2(58) == 0x400000000000000int,
        pow2(59) == 0x800000000000000int,
        pow2(60) == 0x1000000000000000int,
        pow2(61) == 0x2000000000000000int,
        pow2(62) == 0x4000000000000000int,
        pow2(63) == 0x8000000000000000int,
        pow2(64) == 0x10000000000000000int,
        pow2(65) == 0x20000000000000000int,
        pow2(66) == 0x40000000000000000int,
        pow2(67) == 0x80000000000000000int,
        pow2(68) == 0x100000000000000000int,
        pow2(69) == 0x200000000000000000int,
        pow2(70) == 0x400000000000000000int,
        pow2(71) == 0x800000000000000000int,
        pow2(72) == 0x1000000000000000000int,
        pow2(73) == 0x2000000000000000000int,
        pow2(74) == 0x4000000000000000000int,
        pow2(75) == 0x8000000000000000000int,
        pow2(76) == 0x10000000000000000000int,
        pow2(77) == 0x20000000000000000000int,
        pow2(78) == 0x40000000000000000000int,
        pow2(79) == 0x80000000000000000000int,
        pow2(80) == 0x100000000000000000000int,
        pow2(81) == 0x200000000000000000000int,
        pow2(82) == 0x400000000000000000000int,
        pow2(83) == 0x800000000000000000000int,
        pow2(84) == 0x1000000000000000000000int,
        pow2(85) == 0x2000000000000000000000int,
        pow2(86) == 0x4000000000000000000000int,
        pow2(87) == 0x8000000000000000000000int,
        pow2(88) == 0x10000000000000000000000int,
        pow2(89) == 0x20000000000000000000000int,
        pow2(90) == 0x40000000000000000000000int,
        pow2(91) == 0x80000000000000000000000int,
        pow2(92) == 0x100000000000000000000000int,
        pow2(93) == 0x200000000000000000000000int,
        pow2(94) == 0x400000000000000000000000int,
        pow2(95) == 0x800000000000000000000000int,
        pow2(96) == 0x1000000000000000000000000int,
        pow2(97) == 0x2000000000000000000000000int,
        pow2(98) == 0x4000000000000000000000000int,
        pow2(99) == 0x8000000000000000000000000int,
        pow2(100) == 0x10000000000000000000000000int,
        pow2(101) == 0x20000000000000000000000000int,
        pow2(102) == 0x40000000000000000000000000int,
        pow2(103) == 0x80000000000000000000000000int,
        pow2(104) == 0x100000000000000000000000000int,
        pow2(105) == 0x200000000000000000000000000int,
        pow2(106) == 0x400000000000000000000000000int,
        pow2(107) == 0x800000000000000000000000000int,
        pow2(108) == 0x1000000000000000000000000000int,
        pow2(109) == 0x2000000000000000000000000000int,
        pow2(110) == 0x4000000000000000000000000000int,
        pow2(111) == 0x8000000000000000000000000000int,
        pow2(112) == 0x10000000000000000000000000000int,
        pow2(113) == 0x20000000000000000000000000000int,
        pow2(114) == 0x40000000000000000000000000000int,
        pow2(115) == 0x80000000000000000000000000000int,
        pow2(116) == 0x100000000000000000000000000000int,
        pow2(117) == 0x200000000000000000000000000000int,
        pow2(118) == 0x400000000000000000000000000000int,
        pow2(119) == 0x800000000000000000000000000000int,
        pow2(120) == 0x1000000000000000000000000000000int,
        pow2(121) == 0x2000000000000000000000000000000int,
        pow2(122) == 0x4000000000000000000000000000000int,
        pow2(123) == 0x8000000000000000000000000000000int,
        pow2(124) == 0x10000000000000000000000000000000int,
        pow2(125) == 0x20000000000000000000000000000000int,
        pow2(126) == 0x40000000000000000000000000000000int,
        pow2(127) == 0x80000000000000000000000000000000int,
        pow2(128) == 0x100000000000000000000000000000000int,
{
    assert(pow2(0) == 0x1int);
    assert(pow2(1) == 0x2int);
    assert(pow2(2) == 0x4int);
    assert(pow2(3) == 0x8int);
    assert(pow2(4) == 0x10int);
    assert(pow2(5) == 0x20int);
    assert(pow2(6) == 0x40int);
    assert(pow2(7) == 0x80int);
    assert(pow2(8) == 0x100int);
    assert(pow2(9) == 0x200int);
    assert(pow2(10) == 0x400int);
    assert(pow2(11) == 0x800int);
    assert(pow2(12) == 0x1000int);
    assert(pow2(13) == 0x2000int);
    assert(pow2(14) == 0x4000int);
    assert(pow2(15) == 0x8000int);
    assert(pow2(16) == 0x10000int);
    assert(pow2(17) == 0x20000int);
    assert(pow2(18) == 0x40000int);
    assert(pow2(19) == 0x80000int);
    assert(pow2(20) == 0x100000int);
    assert(pow2(21) == 0x200000int);
    assert(pow2(22) == 0x400000int);
    assert(pow2(23) == 0x800000int);
    assert(pow2(24) == 0x1000000int);
    assert(pow2(25) == 0x2000000int);
    assert(pow2(26) == 0x4000000int);
    assert(pow2(27) == 0x8000000int);
    assert(pow2(28) == 0x10000000int);
    assert(pow2(29) == 0x20000000int);
    assert(pow2(30) == 0x40000000int);
    assert(pow2(31) == 0x80000000int);
    assert(pow2(32) == 0x100000000int);
    assert(pow2(33) == 0x200000000int);
    assert(pow2(34) == 0x400000000int);
    assert(pow2(35) == 0x800000000int);
    assert(pow2(36) == 0x1000000000int);
    assert(pow2(37) == 0x2000000000int);
    assert(pow2(38) == 0x4000000000int);
    assert(pow2(39) == 0x8000000000int);
    assert(pow2(40) == 0x10000000000int);
    assert(pow2(41) == 0x20000000000int);
    assert(pow2(42) == 0x40000000000int);
    assert(pow2(43) == 0x80000000000int);
    assert(pow2(44) == 0x100000000000int);
    assert(pow2(45) == 0x200000000000int);
    assert(pow2(46) == 0x400000000000int);
    assert(pow2(47) == 0x800000000000int);
    assert(pow2(48) == 0x1000000000000int);
    assert(pow2(49) == 0x2000000000000int);
    assert(pow2(50) == 0x4000000000000int);
    assert(pow2(51) == 0x8000000000000int);
    assert(pow2(52) == 0x10000000000000int);
    assert(pow2(53) == 0x20000000000000int);
    assert(pow2(54) == 0x40000000000000int);
    assert(pow2(55) == 0x80000000000000int);
    assert(pow2(56) == 0x100000000000000int);
    assert(pow2(57) == 0x200000000000000int);
    assert(pow2(58) == 0x400000000000000int);
    assert(pow2(59) == 0x800000000000000int);
    assert(pow2(60) == 0x1000000000000000int);
    assert(pow2(61) == 0x2000000000000000int);
    assert(pow2(62) == 0x4000000000000000int);
    assert(pow2(63) == 0x8000000000000000int);
    assert(pow2(64) == 0x10000000000000000int);
    assert(pow2(65) == 0x20000000000000000int);
    assert(pow2(66) == 0x40000000000000000int);
    assert(pow2(67) == 0x80000000000000000int);
    assert(pow2(68) == 0x100000000000000000int);
    assert(pow2(69) == 0x200000000000000000int);
    assert(pow2(70) == 0x400000000000000000int);
    assert(pow2(71) == 0x800000000000000000int);
    assert(pow2(72) == 0x1000000000000000000int);
    assert(pow2(73) == 0x2000000000000000000int);
    assert(pow2(74) == 0x4000000000000000000int);
    assert(pow2(75) == 0x8000000000000000000int);
    assert(pow2(76) == 0x10000000000000000000int);
    assert(pow2(77) == 0x20000000000000000000int);
    assert(pow2(78) == 0x40000000000000000000int);
    assert(pow2(79) == 0x80000000000000000000int);
    assert(pow2(80) == 0x100000000000000000000int);
    assert(pow2(81) == 0x200000000000000000000int);
    assert(pow2(82) == 0x400000000000000000000int);
    assert(pow2(83) == 0x800000000000000000000int);
    assert(pow2(84) == 0x1000000000000000000000int);
    assert(pow2(85) == 0x2000000000000000000000int);
    assert(pow2(86) == 0x4000000000000000000000int);
    assert(pow2(87) == 0x8000000000000000000000int);
    assert(pow2(88) == 0x10000000000000000000000int);
    assert(pow2(89) == 0x20000000000000000000000int);
    assert(pow2(90) == 0x40000000000000000000000int);
    assert(pow2(91) == 0x80000000000000000000000int);
    assert(pow2(92) == 0x100000000000000000000000int);
    assert(pow2(93) == 0x200000000000000000000000int);
    assert(pow2(94) == 0x400000000000000000000000int);
    assert(pow2(95) == 0x800000000000000000000000int);
    assert(pow2(96) == 0x1000000000000000000000000int);
    assert(pow2(97) == 0x2000000000000000000000000int);
    assert(pow2(98) == 0x4000000000000000000000000int);
    assert(pow2(99) == 0x8000000000000000000000000int);
    assert(pow2(100) == 0x10000000000000000000000000int);
    assert(pow2(101) == 0x20000000000000000000000000int);
    assert(pow2(102) == 0x40000000000000000000000000int);
    assert(pow2(103) == 0x80000000000000000000000000int);
    assert(pow2(104) == 0x100000000000000000000000000int);
    assert(pow2(105) == 0x200000000000000000000000000int);
    assert(pow2(106) == 0x400000000000000000000000000int);
    assert(pow2(107) == 0x800000000000000000000000000int);
    assert(pow2(108) == 0x1000000000000000000000000000int);
    assert(pow2(109) == 0x2000000000000000000000000000int);
    assert(pow2(110) == 0x4000000000000000000000000000int);
    assert(pow2(111) == 0x8000000000000000000000000000int);
    assert(pow2(112) == 0x10000000000000000000000000000int);
    assert(pow2(113) == 0x20000000000000000000000000000int);
    assert(pow2(114) == 0x40000000000000000000000000000int);
    assert(pow2(115) == 0x80000000000000000000000000000int);
    assert(pow2(116) == 0x100000000000000000000000000000int);
    assert(pow2(117) == 0x200000000000000000000000000000int);
    assert(pow2(118) == 0x400000000000000000000000000000int);
    assert(pow2(119) == 0x800000000000000000000000000000int);
    assert(pow2(120) == 0x1000000000000000000000000000000int);
    assert(pow2(121) == 0x2000000000000000000000000000000int);
    assert(pow2(122) == 0x4000000000000000000000000000000int);
    assert(pow2(123) == 0x8000000000000000000000000000000int);
    assert(pow2(124) == 0x10000000000000000000000000000000int);
    assert(pow2(125) == 0x20000000000000000000000000000000int);
    assert(pow2(126) == 0x40000000000000000000000000000000int);
    assert(pow2(127) == 0x80000000000000000000000000000000int);
    assert(pow2(128) == 0x100000000000000000000000000000000int);
}

/// The entries of notes 0 to 7 are what the formulas give.
proof fn lemma_notes_from_0(note: u8)
    requires
        0 <= note < 8,
    ensures
        is_setting_for(note as nat, note_setting(note).unwrap()),
{
    lemma_pow2_values();
    assert(is_setting_for(0, PwmSetting { div_int: 117, top: 65338, top_pb: 61671 })) by (nonlinear_arith)
        requires
            pow2(69) == 0x200000000000000000int,
            pow2(0) == 0x1int,
            pow2(1) == 0x2int,
    ;
    assert(is_setting_for(1, PwmSetting { div_int: 111, top: 65004, top_pb: 61356 })) by (nonlinear_arith)
        requires
            pow2(69) == 0x200000000000000000int,
            pow2(1) == 0x2int,
            pow2(2) == 0x4int,
    ;
    assert(is_setting_for(2, PwmSetting { div_int: 104, top: 65485, top_pb: 61810 })) by (nonlinear_arith)
        requires
            pow2(69) == 0x200000000000000000int,
            pow2(2) == 0x4int,
            pow2(3) == 0x8int,
    ;
    assert(is_setting_for(3, PwmSetting { div_int: 99, top: 64932, top_pb: 61287 })) by (nonlinear_arith)
        requires
            pow2(69) == 0x200000000000000000int,
            pow2(3) == 0x8int,
            pow2(4) == 0x10int,
    ;
    assert(is_setting_for(4, PwmSetting { div_int: 93, top: 65241, top_pb: 61580 })) by (nonlinear_arith)
        requires
            pow2(69) == 0x200000000000000000int,
            pow2(4) == 0x10int,
            pow2(5) == 0x20int,
    ;
    assert(is_setting_for(5, PwmSetting { div_int: 88, top: 65079, top_pb: 61426 })) by (nonlinear_arith)
        requires
            pow2(69) == 0x200000000000000000int,
            pow2(5) == 0x20int,
            pow2(6) == 0x40int,
    ;
    assert(is_setting_for(6, PwmSetting { div_int: 83, top: 65126, top_pb: 61471 })) by (nonlinear_arith)
        requires
            pow2(69) == 0x200000000000000000int,
            pow2(6) == 0x40int,
            pow2(7) == 0x80int,
    ;
    assert(is_setting_for(7, PwmSetting { div_int: 78, top: 65412, top_pb: 61740 })) by (nonlinear_arith)
        requires
            pow2(69) == 0x200000000000000000int,
            pow2(7) == 0x80int,
            pow2(8) == 0x100int,
    ;
}

/// The entries of notes 8 to 15 are what the formulas give.
proof fn lemma_notes_from_8(note: u8)
    requires
        8 <= note < 16,
    ensures
        is_setting_for(note as nat, note_setting(note).unwrap()),
{
    lemma_pow2_values();
    assert(is_setting_for(8, PwmSetting { div_int: 74, top: 65078, top_pb: 61425 })) by (nonlinear_arith)
        requires
            pow2(69) == 0x200000000000000000int,
            pow2(8) == 0x100int,
            pow2(9) == 0x200int,
    ;
    assert(is_setting_for(9, PwmSetting { div_int: 70, top: 64935, top_pb: 61291 })) by (nonlinear_arith)
        requires
            pow2(69) == 0x200000000000000000int,
            pow2(9) == 0x200int,
            pow2(10) == 0x400int,
    ;
    assert(is_setting_for(10, PwmSetting { div_int: 66, top: 65005, top_pb: 61357 })) by (nonlinear_arith)
        requires
            pow2(69) == 0x200000000000000000int,
            pow2(10) == 0x400int,
            pow2(11) == 0x800int,
    ;
    assert(is_setting_for(11, PwmSetting { div_int: 62, top: 65315, top_pb: 61649 })) by (nonlinear_arith)
        requires
            pow2(69) == 0x200000000000000000int,
            pow2(11) == 0x800int,
            pow2(12) == 0x1000int,
    ;
    assert(is_setting_for(12, PwmSetting { div_int: 59, top: 64784, top_pb: 61148 })) by (nonlinear_arith)
        requires
            pow2(69) == 0x200000000000000000int,
            pow2(12) == 0x1000int,
            pow2(13) == 0x2000int,
    ;
    assert(is_setting_for(13, PwmSetting { div_int: 56, top: 64424, top_pb: 60808 })) by (nonlinear_arith)
        requires
            pow2(69) == 0x200000000000000000int,
            pow2(13) == 0x2000int,
            pow2(14) == 0x4000int,
    ;
    assert(is_setting_for(14, PwmSetting { div_int: 52, top: 65485, top_pb: 61810 })) by (nonlinear_arith)
        requires
            pow2(69) == 0x200000000000000000int,
            pow2(14) == 0x4000int,
            pow2(15) == 0x8000int,
    ;
    assert(is_setting_for(15, PwmSetting { div_int: 50, top: 64282, top_pb: 60675 })) by (nonlinear_arith)
        requires
            pow2(69) == 0x200000000000000000int,
            pow2(15) == 0x8000int,
            pow2(16) == 0x10000int,
    ;
}

/// The entries of notes 16 to 23 are what the formulas give.
proof fn lemma_notes_from_16(note: u8)
    requires
        16 <= note < 24,
    ensures
        is_setting_for(note as nat, note_setting(note).unwrap()),
{
    lemma_pow2_values();
    assert(is_setting_for(16, PwmSetting { div_int: 47, top: 64547, top_pb: 60925 })) by (nonlinear_arith)
        requires
            pow2(69) == 0x200000000000000000int,
            pow2(16) == 0x10000int,
            pow2(17) == 0x20000int,
    ;
    assert(is_setting_for(17, PwmSetting { div_int: 44, top: 65079, top_pb: 61426 })) by (nonlinear_arith)
        requires
            pow2(69) == 0x200000000000000000int,
            pow2(17) == 0x20000int,
            pow2(18) == 0x40000int,
    ;
    assert(is_setting_for(18, PwmSetting { div_int: 42, top: 64351, top_pb: 60739 })) by (nonlinear_arith)
        requires
            pow2(69) == 0x200000000000000000int,
            pow2(18) == 0x40000int,
            pow2(19) == 0x80000int,
    ;
    assert(is_setting_for(19, PwmSetting { div_int: 39, top: 65412, top_pb: 61740 })) by (nonlinear_arith)
        requires
            pow2(69) == 0x200000000000000000int,
            pow2(19) == 0x80000int,
            pow2(20) == 0x100000int,
    ;
    assert(is_setting_for(20, PwmSetting { div_int: 37, top: 65078, top_pb: 61425 })) by (nonlinear_arith)
        requires
            pow2(69) == 0x200000000000000000int,
            pow2(20) == 0x100000int,
            pow2(21) == 0x200000int,
    ;
    assert(is_setting_for(21, PwmSetting { div_int: 35, top: 64935, top_pb: 61291 })) by (nonlinear_arith)
        requires
            pow2(69) == 0x200000000000000000int,
            pow2(21) == 0x200000int,
            pow2(22) == 0x400000int,
    ;
    assert(is_setting_for(22, PwmSetting { div_int: 33, top: 65005, top_pb: 61357 })) by (nonlinear_arith)
        requires
            pow2(69) == 0x200000000000000000int,
            pow2(22) == 0x400000int,
            pow2(23) == 0x800000int,
    ;
    assert(is_setting_for(23, PwmSetting { div_int: 31, top: 65315, top_pb: 61649 })) by (nonlinear_arith)
        requires
            pow2(69) == 0x200000000000000000int,
            pow2(23) == 0x800000int,
            pow2(24) == 0x1000000int,
    ;
}

/// The entries of notes 24 to 31 are what the formulas give.
proof fn lemma_notes_from_24(note: u8)
    requires
        24 <= note < 32,
    ensures
        is_setting_for(note as nat, note_setting(note).unwrap()),
{
    lemma_pow2_values();
    assert(is_setting_for(24, PwmSetting { div_int: 30, top: 63704, top_pb: 60129 })) by (nonlinear_arith)
        requires
            pow2(69) == 0x200000000000000000int,
            pow2(24) == 0x1000000int,
            pow2(25) == 0x2000000int,
    ;
    assert(is_setting_for(25, PwmSetting { div_int: 28, top: 64424, top_pb: 60808 })) by (nonlinear_arith)
        requires
            pow2(69) == 0x200000000000000000int,
            pow2(25) == 0x2000000int,
            pow2(26) == 0x4000000int,
    ;
    assert(is_setting_for(26, PwmSetting { div_int: 26, top: 65485, top_pb: 61810 })) by (nonlinear_arith)
        requires
            pow2(69) == 0x200000000000000000int,
            pow2(26) == 0x4000000int,
            pow2(27) == 0x8000000int,
    ;
    assert(is_setting_for(27, PwmSetting { div_int: 25, top: 64282, top_pb: 60675 })) by (nonlinear_arith)
        requires
            pow2(69) == 0x200000000000000000int,
            pow2(27) == 0x8000000int,
            pow2(28) == 0x10000000int,
    ;
    assert(is_setting_for(28, PwmSetting { div_int: 24, top: 63203, top_pb: 59655 })) by (nonlinear_arith)
        requires
            pow2(69) == 0x200000000000000000int,
            pow2(28) == 0x10000000int,
            pow2(29) == 0x20000000int,
    ;
    assert(is_setting_for(29, PwmSetting { div_int: 22, top: 65079, top_pb: 61426 })) by (nonlinear_arith)
        requires
            pow2(69) == 0x200000000000000000int,
            pow2(29) == 0x20000000int,
            pow2(30) == 0x40000000int,
    ;
    assert(is_setting_for(30, PwmSetting { div_int: 21, top: 64351, top_pb: 60739 })) by (nonlinear_arith)
        requires
            pow2(69) == 0x200000000000000000int,
            pow2(30) == 0x40000000int,
            pow2(31) == 0x80000000int,
    ;
    assert(is_setting_for(31, PwmSetting { div_int: 20, top: 63776, top_pb: 60197 })) by (nonlinear_arith)
        requires
            pow2(69) == 0x200000000000000000int,
            pow2(31) == 0x80000000int,
            pow2(32) == 0x100000000int,
    ;
}

/// The entries of notes 32 to 39 are what the formulas give.
proof fn lemma_notes_from_32(note: u8)
    requires
        32 <= note < 40,
    ensures
        is_setting_for(note as nat, note_setting(note).unwrap()),
{
    lemma_pow2_values();
    assert(is_setting_for(32, PwmSetting { div_int: 19, top: 63365, top_pb: 59809 })) by (nonlinear_arith)
        requires
            pow2(69) == 0x200000000000000000int,
            pow2(32) == 0x100000000int,
            pow2(33) == 0x200000000int,
    ;
    assert(is_setting_for(33, PwmSetting { div_int: 18, top: 63131, top_pb: 59588 })) by (nonlinear_arith)
        requires
            pow2(69) == 0x200000000000000000int,
            pow2(33) == 0x200000000int,
            pow2(34) == 0x400000000int,
    ;
    assert(is_setting_for(34, PwmSetting { div_int: 17, top: 63093, top_pb: 59552 })) by (nonlinear_arith)
        requires
            pow2(69) == 0x200000000000000000int,
            pow2(34) == 0x400000000int,
            pow2(35) == 0x800000000int,
    ;
    assert(is_setting_for(35, PwmSetting { div_int: 16, top: 63274, top_pb: 59723 })) by (nonlinear_arith)
        requires
            pow2(69) == 0x200000000000000000int,
            pow2(35) == 0x800000000int,
            pow2(36) == 0x1000000000int,
    ;
    assert(is_setting_for(36, PwmSetting { div_int: 15, top: 63704, top_pb: 60129 })) by (nonlinear_arith)
        requires
            pow2(69) == 0x200000000000000000int,
            pow2(36) == 0x1000000000int,
            pow2(37) == 0x2000000000int,
    ;
    assert(is_setting_for(37, PwmSetting { div_int: 14, top: 64424, top_pb: 60808 })) by (nonlinear_arith)
        requires
            pow2(69) == 0x200000000000000000int,
            pow2(37) == 0x2000000000int,
            pow2(38) == 0x4000000000int,
    ;
    assert(is_setting_for(38, PwmSetting { div_int: 13, top: 65485, top_pb: 61810 })) by (nonlinear_arith)
        requires
            pow2(69) == 0x200000000000000000int,
            pow2(38) == 0x4000000000int,
            pow2(39) == 0x8000000000int,
    ;
    assert(is_setting_for(39, PwmSetting { div_int: 13, top: 61810, top_pb: 58341 })) by (nonlinear_arith)
        requires
            pow2(69) == 0x200000000000000000int,
            pow2(39) == 0x8000000000int,
            pow2(40) == 0x10000000000int,
    ;
}

/// The entries of notes 40 to 47 are what the formulas give.
proof fn lemma_notes_from_40(note: u8)
    requires
        40 <= note < 48,
    ensures
        is_setting_for(note as nat, note_setting(note).unwrap()),
{
    lemma_pow2_values();
    assert(is_setting_for(40, PwmSetting { div_int: 12, top: 63203, top_pb: 59655 })) by (nonlinear_arith)
        requires
            pow2(69) == 0x200000000000000000int,
            pow2(40) == 0x10000000000int,
            pow2(41) == 0x20000000000int,
    ;
    assert(is_setting_for(41, PwmSetting { div_int: 11, top: 65079, top_pb: 61426 })) by (nonlinear_arith)
        requires
            pow2(69) == 0x200000000000000000int,
            pow2(41) == 0x20000000000int,
            pow2(42) == 0x40000000000int,
    ;
    assert(is_setting_for(42, PwmSetting { div_int: 11, top: 61426, top_pb: 57978 })) by (nonlinear_arith)
        requires
            pow2(69) == 0x200000000000000000int,
            pow2(42) == 0x40000000000int,
            pow2(43) == 0x80000000000int,
    ;
    assert(is_setting_for(43, PwmSetting { div_int: 10, top: 63776, top_pb: 60197 })) by (nonlinear_arith)
        requires
            pow2(69) == 0x200000000000000000int,
            pow2(43) == 0x80000000000int,
            pow2(44) == 0x100000000000int,
    ;
    assert(is_setting_for(44, PwmSetting { div_int: 10, top: 60197, top_pb: 56818 })) by (nonlinear_arith)
        requires
            pow2(69) == 0x200000000000000000int,
            pow2(44) == 0x100000000000int,
            pow2(45) == 0x200000000000int,
    ;
    assert(is_setting_for(45, PwmSetting { div_int: 9, top: 63131, top_pb: 59588 })) by (nonlinear_arith)
        requires
            pow2(69) == 0x200000000000000000int,
            pow2(45) == 0x200000000000int,
            pow2(46) == 0x400000000000int,
    ;
    assert(is_setting_for(46, PwmSetting { div_int: 9, top: 59588, top_pb: 56244 })) by (nonlinear_arith)
        requires
            pow2(69) == 0x200000000000000000int,
            pow2(46) == 0x400000000000int,
            pow2(47) == 0x800000000000int,
    ;
    assert(is_setting_for(47, PwmSetting { div_int: 8, top: 63274, top_pb: 59723 })) by (nonlinear_arith)
        requires
            pow2(69) == 0x200000000000000000int,
            pow2(47) == 0x800000000000int,
            pow2(48) == 0x1000000000000int,
    ;
}

/// The entries of notes 48 to 55 are what the formulas give.
proof fn lemma_notes_from_48(note: u8)
    requires
        48 <= note < 56,
    ensures
        is_setting_for(note as nat, note_setting(note).unwrap()),
{
    lemma_pow2_values();
    assert(is_setting_for(48, PwmSetting { div_int: 8, top: 59723, top_pb: 56371 })) by (nonlinear_arith)
        requires
            pow2(69) == 0x200000000000000000int,
            pow2(48) == 0x1000000000000int,
            pow2(49) == 0x2000000000000int,
    ;
    assert(is_setting_for(49, PwmSetting { div_int: 7, top: 64424, top_pb: 60808 })) by (nonlinear_arith)
        requires
            pow2(69) == 0x200000000000000000int,
            pow2(49) == 0x2000000000000int,
            pow2(50) == 0x4000000000000int,
    ;
    assert(is_setting_for(50, PwmSetting { div_int: 7, top: 60808, top_pb: 57395 })) by (nonlinear_arith)
        requires
            pow2(69) == 0x200000000000000000int,
            pow2(50) == 0x4000000000000int,
            pow2(51) == 0x8000000000000int,
    ;
    assert(is_setting_for(51, PwmSetting { div_int: 7, top: 57395, top_pb: 54174 })) by (nonlinear_arith)
        requires
            pow2(69) == 0x200000000000000000int,
            pow2(51) == 0x8000000000000int,
            pow2(52) == 0x10000000000000int,
    ;
    assert(is_setting_for(52, PwmSetting { div_int: 6, top: 63203, top_pb: 59655 })) by (nonlinear_arith)
        requires
            pow2(69) == 0x200000000000000000int,
            pow2(52) == 0x10000000000000int,
            pow2(53) == 0x20000000000000int,
    ;
    assert(is_setting_for(53, PwmSetting { div_int: 6, top: 59655, top_pb: 56307 })) by (nonlinear_arith)
        requires
            pow2(69) == 0x200000000000000000int,
            pow2(53) == 0x20000000000000int,
            pow2(54) == 0x40000000000000int,
    ;
    assert(is_setting_for(54, PwmSetting { div_int: 6, top: 56307, top_pb: 53147 })) by (nonlinear_arith)
        requires
            pow2(69) == 0x200000000000000000int,
            pow2(54) == 0x40000000000000int,
            pow2(55) == 0x80000000000000int,
    ;
    assert(is_setting_for(55, PwmSetting { div_int: 5, top: 63776, top_pb: 60197 })) by (nonlinear_arith)
        requires
            pow2(69) == 0x200000000000000000int,
            pow2(55) == 0x80000000000000int,
            pow2(56) == 0x100000000000000int,
    ;
}

/// The entries of notes 56 to 63 are what the formulas give.
proof fn lemma_notes_from_56(note: u8)
    requires
        56 <= note < 64,
    ensures
        is_setting_for(note as nat, note_setting(note).unwrap()),
{
    lemma_pow2_values();
    assert(is_setting_for(56, PwmSetting { div_int: 5, top: 60197, top_pb: 56818 })) by (nonlinear_arith)
        requires
            pow2(69) == 0x200000000000000000int,
            pow2(56) == 0x100000000000000int,
            pow2(57) == 0x200000000000000int,
    ;
    assert(is_setting_for(57, PwmSetting { div_int: 5, top: 56818, top_pb: 53629 })) by (nonlinear_arith)
        requires
            pow2(69) == 0x200000000000000000int,
            pow2(57) == 0x200000000000000int,
            pow2(58) == 0x400000000000000int,
    ;
    assert(is_setting_for(58, PwmSetting { div_int: 5, top: 53629, top_pb: 50619 })) by (nonlinear_arith)
        requires
            pow2(69) == 0x200000000000000000int,
            pow2(58) == 0x400000000000000int,
            pow2(59) == 0x800000000000000int,
    ;
    assert(is_setting_for(59, PwmSetting { div_int: 4, top: 63274, top_pb: 59723 })) by (nonlinear_arith)
        requires
            pow2(69) == 0x200000000000000000int,
            pow2(59) == 0x800000000000000int,
            pow2(60) == 0x1000000000000000int,
    ;
    assert(is_setting_for(60, PwmSetting { div_int: 4, top: 59723, top_pb: 56371 })) by (nonlinear_arith)
        requires
            pow2(69) == 0x200000000000000000int,
            pow2(60) == 0x1000000000000000int,
            pow2(61) == 0x2000000000000000int,
    ;
    assert(is_setting_for(61, PwmSetting { div_int: 4, top: 56371, top_pb: 53207 })) by (nonlinear_arith)
        requires
            pow2(69) == 0x200000000000000000int,
            pow2(61) == 0x2000000000000000int,
            pow2(62) == 0x4000000000000000int,
    ;
    assert(is_setting_for(62, PwmSetting { div_int: 4, top: 53207, top_pb: 50221 })) by (nonlinear_arith)
        requires
            pow2(69) == 0x200000000000000000int,
            pow2(62) == 0x4000000000000000int,
            pow2(63) == 0x8000000000000000int,
    ;
    assert(is_setting_for(63, PwmSetting { div_int: 4, top: 50221, top_pb: 47402 })) by (nonlinear_arith)
        requires
            pow2(69) == 0x200000000000000000int,
            pow2(63) == 0x8000000000000000int,
            pow2(64) == 0x10000000000000000int,
    ;
}

/// The entries of notes 64 to 71 are what the formulas give.
proof fn lemma_notes_from_64(note: u8)
    requires
        64 <= note < 72,
    ensures
        is_setting_for(note as nat, note_setting(note).unwrap()),
{
    lemma_pow2_values();
    assert(is_setting_for(64, PwmSetting { div_int: 3, top: 63203, top_pb: 59655 })) by (nonlinear_arith)
        requires
            pow2(69) == 0x200000000000000000int,
            pow2(64) == 0x10000000000000000int,
            pow2(65) == 0x20000000000000000int,
    ;
    assert(is_setting_for(65, PwmSetting { div_int: 3, top: 59655, top_pb: 56307 })) by (nonlinear_arith)
        requires
            pow2(69) == 0x200000000000000000int,
            pow2(65) == 0x20000000000000000int,
            pow2(66) == 0x40000000000000000int,
    ;
    assert(is_setting_for(66, PwmSetting { div_int: 3, top: 56307, top_pb: 53147 })) by (nonlinear_arith)
        requires
            pow2(69) == 0x200000000000000000int,
            pow2(66) == 0x40000000000000000int,
            pow2(67) == 0x80000000000000000int,
    ;
    assert(is_setting_for(67, PwmSetting { div_int: 3, top: 53147, top_pb: 50164 })) by (nonlinear_arith)
        requires
            pow2(69) == 0x200000000000000000int,
            pow2(67) == 0x80000000000000000int,
            pow2(68) == 0x100000000000000000int,
    ;
    assert(is_setting_for(68, PwmSetting { div_int: 3, top: 50164, top_pb: 47348 })) by (nonlinear_arith)
        requires
            pow2(69) == 0x200000000000000000int,
            pow2(68) == 0x100000000000000000int,
            pow2(69) == 0x200000000000000000int,
    ;
    assert(is_setting_for(69, PwmSetting { div_int: 3, top: 47348, top_pb: 44691 })) by (nonlinear_arith)
        requires
            pow2(69) == 0x200000000000000000int,
            pow2(69) == 0x200000000000000000int,
            pow2(70) == 0x400000000000000000int,
    ;
    assert(is_setting_for(70, PwmSetting { div_int: 3, top: 44691, top_pb: 42183 })) by (nonlinear_arith)
        requires
            pow2(69) == 0x200000000000000000int,
            pow2(70) == 0x400000000000000000int,
            pow2(71) == 0x800000000000000000int,
    ;
    assert(is_setting_for(71, PwmSetting { div_int: 2, top: 63274, top_pb: 59723 })) by (nonlinear_arith)
        requires
            pow2(69) == 0x200000000000000000int,
            pow2(71) == 0x800000000000000000int,
            pow2(72) == 0x1000000000000000000int,
    ;
}

/// The entries of notes 72 to 79 are what the formulas give.
proof fn lemma_notes_from_72(note: u8)
    requires
        72 <= note < 80,
    ensures
        is_setting_for(note as nat, note_setting(note).unwrap()),
{
    lemma_pow2_values();
    assert(is_setting_for(72, PwmSetting { div_int: 2, top: 59723, top_pb: 56371 })) by (nonlinear_arith)
        requires
            pow2(69) == 0x200000000000000000int,
            pow2(72) == 0x1000000000000000000int,
            pow2(73) == 0x2000000000000000000int,
    ;
    assert(is_setting_for(73, PwmSetting { div_int: 2, top: 56371, top_pb: 53207 })) by (nonlinear_arith)
        requires
            pow2(69) == 0x200000000000000000int,
            pow2(73) == 0x2000000000000000000int,
            pow2(74) == 0x4000000000000000000int,
    ;
    assert(is_setting_for(74, PwmSetting { div_int: 2, top: 53207, top_pb: 50221 })) by (nonlinear_arith)
        requires
            pow2(69) == 0x200000000000000000int,
            pow2(74) == 0x4000000000000000000int,
            pow2(75) == 0x8000000000000000000int,
    ;
    assert(is_setting_for(75, PwmSetting { div_int: 2, top: 50221, top_pb: 47402 })) by (nonlinear_arith)
        requires
            pow2(69) == 0x200000000000000000int,
            pow2(75) == 0x8000000000000000000int,
            pow2(76) == 0x10000000000000000000int,
    ;
    assert(is_setting_for(76, PwmSetting { div_int: 2, top: 47402, top_pb: 44742 })) by (nonlinear_arith)
        requires
            pow2(69) == 0x200000000000000000int,
            pow2(76) == 0x10000000000000000000int,
            pow2(77) == 0x20000000000000000000int,
    ;
    assert(is_setting_for(77, PwmSetting { div_int: 2, top: 44742, top_pb: 42230 })) by (nonlinear_arith)
        requires
            pow2(69) == 0x200000000000000000int,
            pow2(77) == 0x20000000000000000000int,
            pow2(78) == 0x40000000000000000000int,
    ;
    assert(is_setting_for(78, PwmSetting { div_int: 2, top: 42230, top_pb: 39860 })) by (nonlinear_arith)
        requires
            pow2(69) == 0x200000000000000000int,
            pow2(78) == 0x40000000000000000000int,
            pow2(79) == 0x80000000000000000000int,
    ;
    assert(is_setting_for(79, PwmSetting { div_int: 2, top: 39860, top_pb: 37623 })) by (nonlinear_arith)
        requires
            pow2(69) == 0x200000000000000000int,
            pow2(79) == 0x80000000000000000000int,
            pow2(80) == 0x100000000000000000000int,
    ;
}

/// The entries of notes 80 to 87 are what the formulas give.
proof fn lemma_notes_from_80(note: u8)
    requires
        80 <= note < 88,
    ensures
        is_setting_for(note as nat, note_setting(note).unwrap()),
{
    lemma_pow2_values();
    assert(is_setting_for(80, PwmSetting { div_int: 2, top: 37623, top_pb: 35511 })) by (nonlinear_arith)
        requires
            pow2(69) == 0x200000000000000000int,
            pow2(80) == 0x100000000000000000000int,
            pow2(81) == 0x200000000000000000000int,
    ;
    assert(is_setting_for(81, PwmSetting { div_int: 2, top: 35511, top_pb: 33518 })) by (nonlinear_arith)
        requires
            pow2(69) == 0x200000000000000000int,
            pow2(81) == 0x200000000000000000000int,
            pow2(82) == 0x400000000000000000000int,
    ;
    assert(is_setting_for(82, PwmSetting { div_int: 2, top: 33518, top_pb: 31637 })) by (nonlinear_arith)
        requires
            pow2(69) == 0x200000000000000000int,
            pow2(82) == 0x400000000000000000000int,
            pow2(83) == 0x800000000000000000000int,
    ;
    assert(is_setting_for(83, PwmSetting { div_int: 1, top: 63274, top_pb: 59723 })) by (nonlinear_arith)
        requires
            pow2(69) == 0x200000000000000000int,
            pow2(83) == 0x800000000000000000000int,
            pow2(84) == 0x1000000000000000000000int,
    ;
    assert(is_setting_for(84, PwmSetting { div_int: 1, top: 59723, top_pb: 56371 })) by (nonlinear_arith)
        requires
            pow2(69) == 0x200000000000000000int,
            pow2(84) == 0x1000000000000000000000int,
            pow2(85) == 0x2000000000000000000000int,
    ;
    assert(is_setting_for(85, PwmSetting { div_int: 1, top: 56371, top_pb: 53207 })) by (nonlinear_arith)
        requires
            pow2(69) == 0x200000000000000000int,
            pow2(85) == 0x2000000000000000000000int,
            pow2(86) == 0x4000000000000000000000int,
    ;
    assert(is_setting_for(86, PwmSetting { div_int: 1, top: 53207, top_pb: 50221 })) by (nonlinear_arith)
        requires
            pow2(69) == 0x200000000000000000int,
            pow2(86) == 0x4000000000000000000000int,
            pow2(87) == 0x8000000000000000000000int,
    ;
    assert(is_setting_for(87, PwmSetting { div_int: 1, top: 50221, top_pb: 47402 })) by (nonlinear_arith)
        requires
            pow2(69) == 0x200000000000000000int,
            pow2(87) == 0x8000000000000000000000int,
            pow2(88) == 0x10000000000000000000000int,
    ;
}

/// The entries of notes 88 to 95 are what the formulas give.
proof fn lemma_notes_from_88(note: u8)
    requires
        88 <= note < 96,
    ensures
        is_setting_for(note as nat, note_setting(note).unwrap()),
{
    lemma_pow2_values();
    assert(is_setting_for(88, PwmSetting { div_int: 1, top: 47402, top_pb: 44742 })) by (nonlinear_arith)
        requires
            pow2(69) == 0x200000000000000000int,
            pow2(88) == 0x10000000000000000000000int,
            pow2(89) == 0x20000000000000000000000int,
    ;
    assert(is_setting_for(89, PwmSetting { div_int: 1, top: 44742, top_pb: 42230 })) by (nonlinear_arith)
        requires
            pow2(69) == 0x200000000000000000int,
            pow2(89) == 0x20000000000000000000000int,
            pow2(90) == 0x40000000000000000000000int,
    ;
    assert(is_setting_for(90, PwmSetting { div_int: 1, top: 42230, top_pb: 39860 })) by (nonlinear_arith)
        requires
            pow2(69) == 0x200000000000000000int,
            pow2(90) == 0x40000000000000000000000int,
            pow2(91) == 0x80000000000000000000000int,
    ;
    assert(is_setting_for(91, PwmSetting { div_int: 1, top: 39860, top_pb: 37623 })) by (nonlinear_arith)
        requires
            pow2(69) == 0x200000000000000000int,
            pow2(91) == 0x80000000000000000000000int,
            pow2(92) == 0x100000000000000000000000int,
    ;
    assert(is_setting_for(92, PwmSetting { div_int: 1, top: 37623, top_pb: 35511 })) by (nonlinear_arith)
        requires
            pow2(69) == 0x200000000000000000int,
            pow2(92) == 0x100000000000000000000000int,
            pow2(93) == 0x200000000000000000000000int,
    ;
    assert(is_setting_for(93, PwmSetting { div_int: 1, top: 35511, top_pb: 33518 })) by (nonlinear_arith)
        requires
            pow2(69) == 0x200000000000000000int,
            pow2(93) == 0x200000000000000000000000int,
            pow2(94) == 0x400000000000000000000000int,
    ;
    assert(is_setting_for(94, PwmSetting { div_int: 1, top: 33518, top_pb: 31637 })) by (nonlinear_arith)
        requires
            pow2(69) == 0x200000000000000000int,
            pow2(94) == 0x400000000000000000000000int,
            pow2(95) == 0x800000000000000000000000int,
    ;
    assert(is_setting_for(95, PwmSetting { div_int: 1, top: 31637, top_pb: 29861 })) by (nonlinear_arith)
        requires
            pow2(69) == 0x200000000000000000int,
            pow2(95) == 0x800000000000000000000000int,
            pow2(96) == 0x1000000000000000000000000int,
    ;
}

/// The entries of notes 96 to 103 are what the formulas give.
proof fn lemma_notes_from_96(note: u8)
    requires
        96 <= note < 104,
    ensures
        is_setting_for(note as nat, note_setting(note).unwrap()),
{
    lemma_pow2_values();
    assert(is_setting_for(96, PwmSetting { div_int: 1, top: 29861, top_pb: 28185 })) by (nonlinear_arith)
        requires
            pow2(69) == 0x200000000000000000int,
            pow2(96) == 0x1000000000000000000000000int,
            pow2(97) == 0x2000000000000000000000000int,
    ;
    assert(is_setting_for(97, PwmSetting { div_int: 1, top: 28185, top_pb: 26603 })) by (nonlinear_arith)
        requires
            pow2(69) == 0x200000000000000000int,
            pow2(97) == 0x2000000000000000000000000int,
            pow2(98) == 0x4000000000000000000000000int,
    ;
    assert(is_setting_for(98, PwmSetting { div_int: 1, top: 26603, top_pb: 25110 })) by (nonlinear_arith)
        requires
            pow2(69) == 0x200000000000000000int,
            pow2(98) == 0x4000000000000000000000000int,
            pow2(99) == 0x8000000000000000000000000int,
    ;
    assert(is_setting_for(99, PwmSetting { div_int: 1, top: 25110, top_pb: 23701 })) by (nonlinear_arith)
        requires
            pow2(69) == 0x200000000000000000int,
            pow2(99) == 0x8000000000000000000000000int,
            pow2(100) == 0x10000000000000000000000000int,
    ;
    assert(is_setting_for(100, PwmSetting { div_int: 1, top: 23701, top_pb: 22371 })) by (nonlinear_arith)
        requires
            pow2(69) == 0x200000000000000000int,
            pow2(100) == 0x10000000000000000000000000int,
            pow2(101) == 0x20000000000000000000000000int,
    ;
    assert(is_setting_for(101, PwmSetting { div_int: 1, top: 22371, top_pb: 21115 })) by (nonlinear_arith)
        requires
            pow2(69) == 0x200000000000000000int,
            pow2(101) == 0x20000000000000000000000000int,
            pow2(102) == 0x40000000000000000000000000int,
    ;
    assert(is_setting_for(102, PwmSetting { div_int: 1, top: 21115, top_pb: 19930 })) by (nonlinear_arith)
        requires
            pow2(69) == 0x200000000000000000int,
            pow2(102) == 0x40000000000000000000000000int,
            pow2(103) == 0x80000000000000000000000000int,
    ;
    assert(is_setting_for(103, PwmSetting { div_int: 1, top: 19930, top_pb: 18811 })) by (nonlinear_arith)
        requires
            pow2(69) == 0x200000000000000000int,
            pow2(103) == 0x80000000000000000000000000int,
            pow2(104) == 0x100000000000000000000000000int,
    ;
}

/// The entries of notes 104 to 111 are what the formulas give.
proof fn lemma_notes_from_104(note: u8)
    requires
        104 <= note < 112,
    ensures
        is_setting_for(note as nat, note_setting(note).unwrap()),
{
    lemma_pow2_values();
    assert(is_setting_for(104, PwmSetting { div_int: 1, top: 18811, top_pb: 17756 })) by (nonlinear_arith)
        requires
            pow2(69) == 0x200000000000000000int,
            pow2(104) == 0x100000000000000000000000000int,
            pow2(105) == 0x200000000000000000000000000int,
    ;
    assert(is_setting_for(105, PwmSetting { div_int: 1, top: 17756, top_pb: 16759 })) by (nonlinear_arith)
        requires
            pow2(69) == 0x200000000000000000int,
            pow2(105) == 0x200000000000000000000000000int,
            pow2(106) == 0x400000000000000000000000000int,
    ;
    assert(is_setting_for(106, PwmSetting { div_int: 1, top: 16759, top_pb: 15819 })) by (nonlinear_arith)
        requires
            pow2(69) == 0x200000000000000000int,
            pow2(106) == 0x400000000000000000000000000int,
            pow2(107) == 0x800000000000000000000000000int,
    ;
    assert(is_setting_for(107, PwmSetting { div_int: 1, top: 15819, top_pb: 14931 })) by (nonlinear_arith)
        requires
            pow2(69) == 0x200000000000000000int,
            pow2(107) == 0x800000000000000000000000000int,
            pow2(108) == 0x1000000000000000000000000000int,
    ;
    assert(is_setting_for(108, PwmSetting { div_int: 1, top: 14931, top_pb: 14093 })) by (nonlinear_arith)
        requires
            pow2(69) == 0x200000000000000000int,
            pow2(108) == 0x1000000000000000000000000000int,
            pow2(109) == 0x2000000000000000000000000000int,
    ;
    assert(is_setting_for(109, PwmSetting { div_int: 1, top: 14093, top_pb: 13302 })) by (nonlinear_arith)
        requires
            pow2(69) == 0x200000000000000000int,
            pow2(109) == 0x2000000000000000000000000000int,
            pow2(110) == 0x4000000000000000000000000000int,
    ;
    assert(is_setting_for(110, PwmSetting { div_int: 1, top: 13302, top_pb: 12555 })) by (nonlinear_arith)
        requires
            pow2(69) == 0x200000000000000000int,
            pow2(110) == 0x4000000000000000000000000000int,
            pow2(111) == 0x8000000000000000000000000000int,
    ;
    assert(is_setting_for(111, PwmSetting { div_int: 1, top: 12555, top_pb: 11850 })) by (nonlinear_arith)
        requires
            pow2(69) == 0x200000000000000000int,
            pow2(111) == 0x8000000000000000000000000000int,
            pow2(112) == 0x10000000000000000000000000000int,
    ;
}

/// The entries of notes 112 to 119 are what the formulas give.
proof fn lemma_notes_from_112(note: u8)
    requires
        112 <= note < 120,
    ensures
        is_setting_for(note as nat, note_setting(note).unwrap()),
{
    lemma_pow2_values();
    assert(is_setting_for(112, PwmSetting { div_int: 1, top: 11850, top_pb: 11185 })) by (nonlinear_arith)
        requires
            pow2(69) == 0x200000000000000000int,
            pow2(112) == 0x10000000000000000000000000000int,
            pow2(113) == 0x20000000000000000000000000000int,
    ;
    assert(is_setting_for(113, PwmSetting { div_int: 1, top: 11185, top_pb: 10558 })) by (nonlinear_arith)
        requires
            pow2(69) == 0x200000000000000000int,
            pow2(113) == 0x20000000000000000000000000000int,
            pow2(114) == 0x40000000000000000000000000000int,
    ;
    assert(is_setting_for(114, PwmSetting { div_int: 1, top: 10558, top_pb: 9965 })) by (nonlinear_arith)
        requires
            pow2(69) == 0x200000000000000000int,
            pow2(114) == 0x40000000000000000000000000000int,
            pow2(115) == 0x80000000000000000000000000000int,
    ;
    assert(is_setting_for(115, PwmSetting { div_int: 1, top: 9965, top_pb: 9406 })) by (nonlinear_arith)
        requires
            pow2(69) == 0x200000000000000000int,
            pow2(115) == 0x80000000000000000000000000000int,
            pow2(116) == 0x100000000000000000000000000000int,
    ;
    assert(is_setting_for(116, PwmSetting { div_int: 1, top: 9406, top_pb: 8878 })) by (nonlinear_arith)
        requires
            pow2(69) == 0x200000000000000000int,
            pow2(116) == 0x100000000000000000000000000000int,
            pow2(117) == 0x200000000000000000000000000000int,
    ;
    assert(is_setting_for(117, PwmSetting { div_int: 1, top: 8878, top_pb: 8380 })) by (nonlinear_arith)
        requires
            pow2(69) == 0x200000000000000000int,
            pow2(117) == 0x200000000000000000000000000000int,
            pow2(118) == 0x400000000000000000000000000000int,
    ;
    assert(is_setting_for(118, PwmSetting { div_int: 1, top: 8380, top_pb: 7909 })) by (nonlinear_arith)
        requires
            pow2(69) == 0x200000000000000000int,
            pow2(118) == 0x400000000000000000000000000000int,
            pow2(119) == 0x800000000000000000000000000000int,
    ;
    assert(is_setting_for(119, PwmSetting { div_int: 1, top: 7909, top_pb: 7465 })) by (nonlinear_arith)
        requires
            pow2(69) == 0x200000000000000000int,
            pow2(119) == 0x800000000000000000000000000000int,
            pow2(120) == 0x1000000000000000000000000000000int,
    ;
}

/// The entries of notes 120 to 127 are what the formulas give.
proof fn lemma_notes_from_120(note: u8)
    requires
        120 <= note < 128,
    ensures
        is_setting_for(note as nat, note_setting(note).unwrap()),
{
    lemma_pow2_values();
    assert(is_setting_for(120, PwmSetting { div_int: 1, top: 7465, top_pb: 7046 })) by (nonlinear_arith)
        requires
            pow2(69) == 0x200000000000000000int,
            pow2(120) == 0x1000000000000000000000000000000int,
            pow2(121) == 0x2000000000000000000000000000000int,
    ;
    assert(is_setting_for(121, PwmSetting { div_int: 1, top: 7046, top_pb: 6651 })) by (nonlinear_arith)
        requires
            pow2(69) == 0x200000000000000000int,
            pow2(121) == 0x2000000000000000000000000000000int,
            pow2(122) == 0x4000000000000000000000000000000int,
    ;
    assert(is_setting_for(122, PwmSetting { div_int: 1, top: 6651, top_pb: 6278 })) by (nonlinear_arith)
        requires
            pow2(69) == 0x200000000000000000int,
            pow2(122) == 0x4000000000000000000000000000000int,
            pow2(123) == 0x8000000000000000000000000000000int,
    ;
    assert(is_setting_for(123, PwmSetting { div_int: 1, top: 6278, top_pb: 5925 })) by (nonlinear_arith)
        requires
            pow2(69) == 0x200000000000000000int,
            pow2(123) == 0x8000000000000000000000000000000int,
            pow2(124) == 0x10000000000000000000000000000000int,
    ;
    assert(is_setting_for(124, PwmSetting { div_int: 1, top: 5925, top_pb: 5593 })) by (nonlinear_arith)
        requires
            pow2(69) == 0x200000000000000000int,
            pow2(124) == 0x10000000000000000000000000000000int,
            pow2(125) == 0x20000000000000000000000000000000int,
    ;
    assert(is_setting_for(125, PwmSetting { div_int: 1, top: 5593, top_pb: 5279 })) by (nonlinear_arith)
        requires
            pow2(69) == 0x200000000000000000int,
            pow2(125) == 0x20000000000000000000000000000000int,
            pow2(126) == 0x40000000000000000000000000000000int,
    ;
    assert(is_setting_for(126, PwmSetting { div_int: 1, top: 5279, top_pb: 4983 })) by (nonlinear_arith)
        requires
            pow2(69) == 0x200000000000000000int,
            pow2(126) == 0x40000000000000000000000000000000int,
            pow2(127) == 0x80000000000000000000000000000000int,
    ;
    assert(is_setting_for(127, PwmSetting { div_int: 1, top: 4983, top_pb: 4703 })) by (nonlinear_arith)
        requires
            pow2(69) == 0x200000000000000000int,
            pow2(127) == 0x80000000000000000000000000000000int,
            pow2(128) == 0x100000000000000000000000000000000int,
    ;
}

/// Every entry of the table is what the formulas give for its note.
pub proof fn lemma_note_dict_exact(note: u8)
    requires
        note < NOTE_COUNT,
    ensures
        is_setting_for(note as nat, note_setting(note).unwrap()),
{
    if note < 8 {
        lemma_notes_from_0(note);
    } else if note < 16 {
        lemma_notes_from_8(note);
    } else if note < 24 {
        lemma_notes_from_16(note);
    } else if note < 32 {
        lemma_notes_from_24(note);
    } else if note < 40 {
        lemma_notes_from_32(note);
    } else if note < 48 {
        lemma_notes_from_40(note);
    } else if note < 56 {
        lemma_notes_from_48(note);
    } else if note < 64 {
        lemma_notes_from_56(note);
    } else if note < 72 {
        lemma_notes_from_64(note);
    } else if note < 80 {
        lemma_notes_from_72(note);
    } else if note < 88 {
        lemma_notes_from_80(note);
    } else if note < 96 {
        lemma_notes_from_88(note);
    } else if note < 104 {
        lemma_notes_from_96(note);
    } else if note < 112 {
        lemma_notes_from_104(note);
    } else if note < 120 {
        lemma_notes_from_112(note);
    } else {
        lemma_notes_from_120(note);
    }
}

/// Looks a note up in the table. Notes from 128 on have no entry.
pub fn note_dict(note: u8) -> (r: Option<PwmSetting>)
    ensures
        r == note_setting(note),
        r is Some <==> note < NOTE_COUNT,
        r matches Some(setting) ==> is_setting_for(note as nat, setting),
{
    if note < NOTE_COUNT {
        proof {
            lemma_note_dict_exact(note);
        }
        let i: usize = note as usize;
        Some(PwmSetting { div_int: DIV_INT[i], top: TOP[i], top_pb: TOP_PB[i] })
    } else {
        None
    }
}

} // verus!
