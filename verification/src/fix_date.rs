//! Calendar timestamps, millisecond precision, as the protocols write
//! them: the FIX `SendingTime` shape `YYYYMMDD-HH:MM:SS.mmm`, the wire
//! stamp `YYYYMMDDHHMMSS.mmm`, and the ISO shape `YYYY-MM-DDTHH:MM:SS.mmm`.
use vstd::prelude::*;

use crate::text::{
    all_digits, dec_value, is_digit, lemma_dec_value_bound, lemma_pad2_value, lemma_pad3_value,
    lemma_pad4_value, pad2, pad3, pad4, parse_number, pow10, u32_pad2, u32_pad3, u32_pad4, DOT,
    MINUS,
};

verus! {

/// ASCII colon.
pub const COLON: u8 = 58;

/// ASCII capital T, the date/time separator of the ISO shape.
pub const LETTER_T: u8 = 84;

/// A wall-clock timestamp with millisecond precision, held as plain
/// calendar fields.
#[derive(Clone, Copy, PartialEq, Eq, Structural, Debug)]
pub struct FixDateTime {
    pub year: u32,
    pub month: u32,
    pub day: u32,
    pub hour: u32,
    pub minute: u32,
    pub second: u32,
    pub millisecond: u32,
}

impl FixDateTime {
    /// Field ranges under which every textual shape round-trips.
    pub open spec fn wf(self) -> bool {
        &&& self.year <= 9999
        &&& 1 <= self.month <= 12
        &&& 1 <= self.day <= 31
        &&& self.hour <= 23
        &&& self.minute <= 59
        &&& self.second <= 59
        &&& self.millisecond <= 999
    }
}

/// The FIX `SendingTime` shape `YYYYMMDD-HH:MM:SS.mmm`, 21 bytes.
pub open spec fn spec_fix_date(t: FixDateTime) -> Seq<u8> {
    pad4(t.year as nat) + pad2(t.month as nat) + pad2(t.day as nat) + seq![MINUS] + pad2(
        t.hour as nat,
    ) + seq![COLON] + pad2(t.minute as nat) + seq![COLON] + pad2(t.second as nat) + seq![DOT]
        + pad3(t.millisecond as nat)
}

/// The broadcast wire stamp `YYYYMMDDHHMMSS.mmm`, 18 bytes.
pub open spec fn spec_wire_stamp(t: FixDateTime) -> Seq<u8> {
    pad4(t.year as nat) + pad2(t.month as nat) + pad2(t.day as nat) + pad2(t.hour as nat) + pad2(
        t.minute as nat,
    ) + pad2(t.second as nat) + seq![DOT] + pad3(t.millisecond as nat)
}

/// The ISO shape `YYYY-MM-DDTHH:MM:SS.mmm`, 23 bytes.
pub open spec fn spec_iso_date(t: FixDateTime) -> Seq<u8> {
    pad4(t.year as nat) + seq![MINUS] + pad2(t.month as nat) + seq![MINUS] + pad2(t.day as nat)
        + seq![LETTER_T] + pad2(t.hour as nat) + seq![COLON] + pad2(t.minute as nat) + seq![COLON]
        + pad2(t.second as nat) + seq![DOT] + pad3(t.millisecond as nat)
}

proof fn lemma_pow10_small()
    ensures
        pow10(2) == 100,
        pow10(3) == 1000,
        pow10(4) == 10000,
{
    reveal_with_fuel(pow10, 5);
}

/// Renders the FIX `SendingTime` shape.
pub fn to_fix_date_string(src: &FixDateTime) -> (r: Vec<u8>)
    requires
        src.wf(),
    ensures
        r@ == spec_fix_date(*src),
{
    let mut r: Vec<u8> = Vec::new();
    let mut part = u32_pad4(src.year);
    r.append(&mut part);
    let mut part = u32_pad2(src.month);
    r.append(&mut part);
    let mut part = u32_pad2(src.day);
    r.append(&mut part);
    r.push(MINUS);
    let mut part = u32_pad2(src.hour);
    r.append(&mut part);
    r.push(COLON);
    let mut part = u32_pad2(src.minute);
    r.append(&mut part);
    r.push(COLON);
    let mut part = u32_pad2(src.second);
    r.append(&mut part);
    r.push(DOT);
    let mut part = u32_pad3(src.millisecond);
    r.append(&mut part);
    proof {
        assert(r@ =~= spec_fix_date(*src));
    }
    r
}

/// Renders the broadcast wire stamp.
pub fn to_wire_stamp(src: &FixDateTime) -> (r: Vec<u8>)
    requires
        src.wf(),
    ensures
        r@ == spec_wire_stamp(*src),
{
    let mut r: Vec<u8> = Vec::new();
    let mut part = u32_pad4(src.year);
    r.append(&mut part);
    let mut part = u32_pad2(src.month);
    r.append(&mut part);
    let mut part = u32_pad2(src.day);
    r.append(&mut part);
    let mut part = u32_pad2(src.hour);
    r.append(&mut part);
    let mut part = u32_pad2(src.minute);
    r.append(&mut part);
    let mut part = u32_pad2(src.second);
    r.append(&mut part);
    r.push(DOT);
    let mut part = u32_pad3(src.millisecond);
    r.append(&mut part);
    proof {
        assert(r@ =~= spec_wire_stamp(*src));
    }
    r
}

/// Renders the ISO shape.
pub fn to_iso_date_string(src: &FixDateTime) -> (r: Vec<u8>)
    requires
        src.wf(),
    ensures
        r@ == spec_iso_date(*src),
{
    let mut r: Vec<u8> = Vec::new();
    let mut part = u32_pad4(src.year);
    r.append(&mut part);
    r.push(MINUS);
    let mut part = u32_pad2(src.month);
    r.append(&mut part);
    r.push(MINUS);
    let mut part = u32_pad2(src.day);
    r.append(&mut part);
    r.push(LETTER_T);
    let mut part = u32_pad2(src.hour);
    r.append(&mut part);
    r.push(COLON);
    let mut part = u32_pad2(src.minute);
    r.append(&mut part);
    r.push(COLON);
    let mut part = u32_pad2(src.second);
    r.append(&mut part);
    r.push(DOT);
    let mut part = u32_pad3(src.millisecond);
    r.append(&mut part);
    proof {
        assert(r@ =~= spec_iso_date(*src));
    }
    r
}

/// Fixed-width zero-padded digit runs are read back by `dec_value`.
proof fn lemma_pad2_inverse(s: Seq<u8>)
    requires
        s.len() == 2,
        all_digits(s),
    ensures
        pad2(dec_value(s)) == s,
{
    let v = dec_value(s);
    assert(s.drop_last().drop_last() =~= Seq::<u8>::empty());
    assert(s.drop_last().len() == 1);
    let a = (s[0] - 48) as nat;
    let b = (s[1] - 48) as nat;
    assert(s.drop_last().last() == s[0]);
    assert(dec_value(Seq::<u8>::empty()) == 0);
    assert(dec_value(s.drop_last()) == a);
    assert(v == a * 10 + b);
    assert((a * 10 + b) / 10 % 10 == a && (a * 10 + b) % 10 == b) by (nonlinear_arith)
        requires
            a <= 9,
            b <= 9,
    ;
    assert(pad2(v) =~= s);
}

proof fn lemma_pad3_inverse(s: Seq<u8>)
    requires
        s.len() == 3,
        all_digits(s),
    ensures
        pad3(dec_value(s)) == s,
{
    let v = dec_value(s);
    let h = s.drop_last();
    assert(all_digits(h));
    lemma_pad2_inverse(h);
    let hv = dec_value(h);
    let c = (s[2] - 48) as nat;
    assert(v == hv * 10 + c);
    assert(hv < 100) by {
        lemma_dec_value_bound(h);
        lemma_pow10_small();
    }
    assert((hv * 10 + c) / 10 % 10 == hv % 10 && (hv * 10 + c) / 100 % 10 == hv / 10 % 10 && (hv
        * 10 + c) % 10 == c) by (nonlinear_arith)
        requires
            hv < 100,
            c <= 9,
    ;
    assert(pad3(v)[0] == pad2(hv)[0]);
    assert(pad3(v)[1] == pad2(hv)[1]);
    assert(pad3(v) =~= s);
}

proof fn lemma_pad4_inverse(s: Seq<u8>)
    requires
        s.len() == 4,
        all_digits(s),
    ensures
        pad4(dec_value(s)) == s,
{
    let v = dec_value(s);
    let h = s.drop_last();
    assert(all_digits(h));
    lemma_pad3_inverse(h);
    let hv = dec_value(h);
    let c = (s[3] - 48) as nat;
    assert(v == hv * 10 + c);
    assert(hv < 1000) by {
        lemma_dec_value_bound(h);
        lemma_pow10_small();
    }
    assert((hv * 10 + c) / 10 % 10 == hv % 10 && (hv * 10 + c) / 100 % 10 == hv / 10 % 10 && (hv
        * 10 + c) / 1000 % 10 == hv / 100 % 10 && (hv * 10 + c) % 10 == c) by (nonlinear_arith)
        requires
            hv < 1000,
            c <= 9,
    ;
    assert(pad4(v)[0] == pad3(hv)[0]);
    assert(pad4(v)[1] == pad3(hv)[1]);
    assert(pad4(v)[2] == pad3(hv)[2]);
    assert(pad4(v) =~= s);
}

/// Where each field stands inside the FIX `SendingTime` rendering.
pub proof fn lemma_fix_date_fields(t: FixDateTime)
    requires
        t.wf(),
    ensures
        spec_fix_date(t).len() == 21,
        spec_fix_date(t).subrange(0, 4) == pad4(t.year as nat),
        spec_fix_date(t).subrange(4, 6) == pad2(t.month as nat),
        spec_fix_date(t).subrange(6, 8) == pad2(t.day as nat),
        spec_fix_date(t)[8] == MINUS,
        spec_fix_date(t).subrange(9, 11) == pad2(t.hour as nat),
        spec_fix_date(t)[11] == COLON,
        spec_fix_date(t).subrange(12, 14) == pad2(t.minute as nat),
        spec_fix_date(t)[14] == COLON,
        spec_fix_date(t).subrange(15, 17) == pad2(t.second as nat),
        spec_fix_date(t)[17] == DOT,
        spec_fix_date(t).subrange(18, 21) == pad3(t.millisecond as nat),
{
    let s = spec_fix_date(t);
    assert(s.subrange(0, 4) =~= pad4(t.year as nat));
    assert(s.subrange(4, 6) =~= pad2(t.month as nat));
    assert(s.subrange(6, 8) =~= pad2(t.day as nat));
    assert(s.subrange(9, 11) =~= pad2(t.hour as nat));
    assert(s.subrange(12, 14) =~= pad2(t.minute as nat));
    assert(s.subrange(15, 17) =~= pad2(t.second as nat));
    assert(s.subrange(18, 21) =~= pad3(t.millisecond as nat));
}

/// Where each field stands inside the wire stamp rendering.
pub proof fn lemma_wire_stamp_fields(t: FixDateTime)
    requires
        t.wf(),
    ensures
        spec_wire_stamp(t).len() == 18,
        spec_wire_stamp(t).subrange(0, 4) == pad4(t.year as nat),
        spec_wire_stamp(t).subrange(4, 6) == pad2(t.month as nat),
        spec_wire_stamp(t).subrange(6, 8) == pad2(t.day as nat),
        spec_wire_stamp(t).subrange(8, 10) == pad2(t.hour as nat),
        spec_wire_stamp(t).subrange(10, 12) == pad2(t.minute as nat),
        spec_wire_stamp(t).subrange(12, 14) == pad2(t.second as nat),
        spec_wire_stamp(t)[14] == DOT,
        spec_wire_stamp(t).subrange(15, 18) == pad3(t.millisecond as nat),
{
    let s = spec_wire_stamp(t);
    assert(s.subrange(0, 4) =~= pad4(t.year as nat));
    assert(s.subrange(4, 6) =~= pad2(t.month as nat));
    assert(s.subrange(6, 8) =~= pad2(t.day as nat));
    assert(s.subrange(8, 10) =~= pad2(t.hour as nat));
    assert(s.subrange(10, 12) =~= pad2(t.minute as nat));
    assert(s.subrange(12, 14) =~= pad2(t.second as nat));
    assert(s.subrange(15, 18) =~= pad3(t.millisecond as nat));
}

/// Validates the calendar ranges of parsed fields.
fn check_ranges(year: u32, month: u32, day: u32, hour: u32, minute: u32, second: u32, ms: u32) -> (
    r: bool)
    ensures
        r <==> (FixDateTime { year, month, day, hour, minute, second, millisecond: ms }).wf(),
{
    year <= 9999 && 1 <= month && month <= 12 && 1 <= day && day <= 31 && hour <= 23 && minute
        <= 59 && second <= 59 && ms <= 999
}

/// The shape test of a FIX `SendingTime`: all-digit fields in their
/// fixed positions, the separators in theirs, and calendar ranges
/// respected.
pub open spec fn fix_date_ok(s: Seq<u8>) -> bool {
    &&& s.len() == 21
    &&& all_digits(s.subrange(0, 4))
    &&& all_digits(s.subrange(4, 6))
    &&& all_digits(s.subrange(6, 8))
    &&& s[8] == MINUS
    &&& all_digits(s.subrange(9, 11))
    &&& s[11] == COLON
    &&& all_digits(s.subrange(12, 14))
    &&& s[14] == COLON
    &&& all_digits(s.subrange(15, 17))
    &&& s[17] == DOT
    &&& all_digits(s.subrange(18, 21))
    &&& fix_date_value(s).wf()
}

/// The timestamp read off a FIX `SendingTime` by its fixed positions.
pub open spec fn fix_date_value(s: Seq<u8>) -> FixDateTime {
    FixDateTime {
        year: dec_value(s.subrange(0, 4)) as u32,
        month: dec_value(s.subrange(4, 6)) as u32,
        day: dec_value(s.subrange(6, 8)) as u32,
        hour: dec_value(s.subrange(9, 11)) as u32,
        minute: dec_value(s.subrange(12, 14)) as u32,
        second: dec_value(s.subrange(15, 17)) as u32,
        millisecond: dec_value(s.subrange(18, 21)) as u32,
    }
}

/// A well-shaped `SendingTime` renders back to itself.
pub proof fn lemma_fix_date_sound(s: Seq<u8>)
    requires
        fix_date_ok(s),
    ensures
        fix_date_value(s).wf(),
        spec_fix_date(fix_date_value(s)) == s,
{
    lemma_pad4_inverse(s.subrange(0, 4));
    lemma_pad2_inverse(s.subrange(4, 6));
    lemma_pad2_inverse(s.subrange(6, 8));
    lemma_pad2_inverse(s.subrange(9, 11));
    lemma_pad2_inverse(s.subrange(12, 14));
    lemma_pad2_inverse(s.subrange(15, 17));
    lemma_pad3_inverse(s.subrange(18, 21));
    lemma_dec_value_bound(s.subrange(0, 4));
    lemma_dec_value_bound(s.subrange(4, 6));
    lemma_dec_value_bound(s.subrange(6, 8));
    lemma_dec_value_bound(s.subrange(9, 11));
    lemma_dec_value_bound(s.subrange(12, 14));
    lemma_dec_value_bound(s.subrange(15, 17));
    lemma_dec_value_bound(s.subrange(18, 21));
    lemma_pow10_small();
    assert(spec_fix_date(fix_date_value(s)) =~= s.subrange(0, 4) + s.subrange(4, 6) + s.subrange(
        6,
        8,
    ) + seq![MINUS] + s.subrange(9, 11) + seq![COLON] + s.subrange(12, 14) + seq![COLON]
        + s.subrange(15, 17) + seq![DOT] + s.subrange(18, 21));
    assert(s =~= s.subrange(0, 4) + s.subrange(4, 6) + s.subrange(6, 8) + seq![MINUS] + s.subrange(
        9,
        11,
    ) + seq![COLON] + s.subrange(12, 14) + seq![COLON] + s.subrange(15, 17) + seq![DOT]
        + s.subrange(18, 21));
}

/// Round trip of the FIX `SendingTime` shape: a rendered well-formed
/// timestamp passes the shape test and reads back to the same timestamp.
pub proof fn lemma_fix_date_complete(t: FixDateTime)
    requires
        t.wf(),
    ensures
        fix_date_ok(spec_fix_date(t)),
        fix_date_value(spec_fix_date(t)) == t,
{
    let s = spec_fix_date(t);
    lemma_fix_date_fields(t);
    lemma_pad4_value(t.year as nat);
    lemma_pad2_value(t.month as nat);
    lemma_pad2_value(t.day as nat);
    lemma_pad2_value(t.hour as nat);
    lemma_pad2_value(t.minute as nat);
    lemma_pad2_value(t.second as nat);
    lemma_pad3_value(t.millisecond as nat);
    assert(fix_date_value(s) == t);
}

/// Parses the FIX `SendingTime` shape by fixed positions: year at 0..4,
/// month at 4..6, day at 6..8, hour at 9..11, minute at 12..14, second at
/// 15..17, millisecond at 18..21. Any other shape is refused.
pub fn parse_fix_date(date: &[u8]) -> (r: Option<FixDateTime>)
    ensures
        r matches Some(t) ==> fix_date_ok(date@) && t == fix_date_value(date@) && t.wf(),
        r is None ==> !fix_date_ok(date@),
{
    if date.len() != 21 {
        return None;
    }
    if !(date[8] == MINUS && date[11] == COLON && date[14] == COLON && date[17] == DOT) {
        return None;
    }
    let year = parse_number(&date[0..4]);
    let month = parse_number(&date[4..6]);
    let day = parse_number(&date[6..8]);
    let hour = parse_number(&date[9..11]);
    let minute = parse_number(&date[12..14]);
    let second = parse_number(&date[15..17]);
    let ms = parse_number(&date[18..21]);
    proof {
        lemma_dec_value_bound(date@.subrange(0, 4));
        lemma_dec_value_bound(date@.subrange(4, 6));
        lemma_dec_value_bound(date@.subrange(6, 8));
        lemma_dec_value_bound(date@.subrange(9, 11));
        lemma_dec_value_bound(date@.subrange(12, 14));
        lemma_dec_value_bound(date@.subrange(15, 17));
        lemma_dec_value_bound(date@.subrange(18, 21));
        lemma_pow10_small();
    }
    match (year, month, day, hour, minute, second, ms) {
        (Some(y), Some(mo), Some(d), Some(h), Some(mi), Some(s), Some(m3)) => {
            let t = FixDateTime {
                year: y as u32,
                month: mo as u32,
                day: d as u32,
                hour: h as u32,
                minute: mi as u32,
                second: s as u32,
                millisecond: m3 as u32,
            };
            if check_ranges(t.year, t.month, t.day, t.hour, t.minute, t.second, t.millisecond) {
                proof {
                    assert(t == fix_date_value(date@));
                }
                Some(t)
            } else {
                proof {
                    assert(t == fix_date_value(date@));
                }
                None
            }
        },
        _ => {
            proof {
                assert(!fix_date_ok(date@)) by {
                    if fix_date_ok(date@) {
                        assert(year is Some && month is Some && day is Some && hour is Some
                            && minute is Some && second is Some && ms is Some);
                    }
                }
            }
            None
        },
    }
}

/// The shape test of a wire stamp `YYYYMMDDHHMMSS.mmm`: all-digit fields
/// in their fixed positions, a dot before the milliseconds, and calendar
/// ranges respected.
pub open spec fn wire_stamp_ok(s: Seq<u8>) -> bool {
    &&& s.len() == 18
    &&& all_digits(s.subrange(0, 4))
    &&& all_digits(s.subrange(4, 6))
    &&& all_digits(s.subrange(6, 8))
    &&& all_digits(s.subrange(8, 10))
    &&& all_digits(s.subrange(10, 12))
    &&& all_digits(s.subrange(12, 14))
    &&& s[14] == DOT
    &&& all_digits(s.subrange(15, 18))
    &&& wire_stamp_value(s).wf()
}

/// The timestamp read off a wire stamp by its fixed positions.
pub open spec fn wire_stamp_value(s: Seq<u8>) -> FixDateTime {
    FixDateTime {
        year: dec_value(s.subrange(0, 4)) as u32,
        month: dec_value(s.subrange(4, 6)) as u32,
        day: dec_value(s.subrange(6, 8)) as u32,
        hour: dec_value(s.subrange(8, 10)) as u32,
        minute: dec_value(s.subrange(10, 12)) as u32,
        second: dec_value(s.subrange(12, 14)) as u32,
        millisecond: dec_value(s.subrange(15, 18)) as u32,
    }
}

/// A well-shaped wire stamp renders back to itself.
pub proof fn lemma_wire_stamp_sound(s: Seq<u8>)
    requires
        wire_stamp_ok(s),
    ensures
        spec_wire_stamp(wire_stamp_value(s)) == s,
{
    lemma_pad4_inverse(s.subrange(0, 4));
    lemma_pad2_inverse(s.subrange(4, 6));
    lemma_pad2_inverse(s.subrange(6, 8));
    lemma_pad2_inverse(s.subrange(8, 10));
    lemma_pad2_inverse(s.subrange(10, 12));
    lemma_pad2_inverse(s.subrange(12, 14));
    lemma_pad3_inverse(s.subrange(15, 18));
    lemma_dec_value_bound(s.subrange(0, 4));
    lemma_dec_value_bound(s.subrange(4, 6));
    lemma_dec_value_bound(s.subrange(6, 8));
    lemma_dec_value_bound(s.subrange(8, 10));
    lemma_dec_value_bound(s.subrange(10, 12));
    lemma_dec_value_bound(s.subrange(12, 14));
    lemma_dec_value_bound(s.subrange(15, 18));
    lemma_pow10_small();
    assert(spec_wire_stamp(wire_stamp_value(s)) =~= s.subrange(0, 4) + s.subrange(4, 6)
        + s.subrange(6, 8) + s.subrange(8, 10) + s.subrange(10, 12) + s.subrange(12, 14)
        + seq![DOT] + s.subrange(15, 18));
    assert(s =~= s.subrange(0, 4) + s.subrange(4, 6) + s.subrange(6, 8) + s.subrange(8, 10)
        + s.subrange(10, 12) + s.subrange(12, 14) + seq![DOT] + s.subrange(15, 18));
}

/// A rendered well-formed timestamp passes the shape test and reads back
/// to the same timestamp.
pub proof fn lemma_wire_stamp_complete(t: FixDateTime)
    requires
        t.wf(),
    ensures
        wire_stamp_ok(spec_wire_stamp(t)),
        wire_stamp_value(spec_wire_stamp(t)) == t,
{
    let s = spec_wire_stamp(t);
    lemma_wire_stamp_fields(t);
    lemma_pad4_value(t.year as nat);
    lemma_pad2_value(t.month as nat);
    lemma_pad2_value(t.day as nat);
    lemma_pad2_value(t.hour as nat);
    lemma_pad2_value(t.minute as nat);
    lemma_pad2_value(t.second as nat);
    lemma_pad3_value(t.millisecond as nat);
    assert(wire_stamp_value(s) == t);
}

/// Every byte of a wire stamp is a digit or the dot; in particular none
/// is a space.
#[verifier::rlimit(60)]
pub proof fn lemma_wire_stamp_bytes(t: FixDateTime)
    requires
        t.wf(),
    ensures
        forall|i: int|
            0 <= i < spec_wire_stamp(t).len() ==> (is_digit(#[trigger] spec_wire_stamp(t)[i])
                || spec_wire_stamp(t)[i] == DOT),
{
    let s = spec_wire_stamp(t);
    lemma_wire_stamp_fields(t);
    assert forall|i: int| 0 <= i < s.len() implies (is_digit(#[trigger] s[i]) || s[i] == DOT) by {
        if i < 4 {
            assert(s[i] == s.subrange(0, 4)[i]);
        } else if i < 6 {
            assert(s[i] == s.subrange(4, 6)[i - 4]);
        } else if i < 8 {
            assert(s[i] == s.subrange(6, 8)[i - 6]);
        } else if i < 10 {
            assert(s[i] == s.subrange(8, 10)[i - 8]);
        } else if i < 12 {
            assert(s[i] == s.subrange(10, 12)[i - 10]);
        } else if i < 14 {
            assert(s[i] == s.subrange(12, 14)[i - 12]);
        } else if i == 14 {
        } else {
            assert(s[i] == s.subrange(15, 18)[i - 15]);
        }
    }
}

/// Parses the broadcast wire stamp by fixed positions.
pub fn parse_wire_stamp(s: &[u8]) -> (r: Option<FixDateTime>)
    ensures
        r matches Some(t) ==> wire_stamp_ok(s@) && t == wire_stamp_value(s@) && t.wf(),
        r is None ==> !wire_stamp_ok(s@),
{
    if s.len() != 18 {
        return None;
    }
    if s[14] != DOT {
        return None;
    }
    let year = parse_number(&s[0..4]);
    let month = parse_number(&s[4..6]);
    let day = parse_number(&s[6..8]);
    let hour = parse_number(&s[8..10]);
    let minute = parse_number(&s[10..12]);
    let second = parse_number(&s[12..14]);
    let ms = parse_number(&s[15..18]);
    proof {
        lemma_dec_value_bound(s@.subrange(0, 4));
        lemma_dec_value_bound(s@.subrange(4, 6));
        lemma_dec_value_bound(s@.subrange(6, 8));
        lemma_dec_value_bound(s@.subrange(8, 10));
        lemma_dec_value_bound(s@.subrange(10, 12));
        lemma_dec_value_bound(s@.subrange(12, 14));
        lemma_dec_value_bound(s@.subrange(15, 18));
        lemma_pow10_small();
    }
    match (year, month, day, hour, minute, second, ms) {
        (Some(y), Some(mo), Some(d), Some(h), Some(mi), Some(sec), Some(m3)) => {
            let t = FixDateTime {
                year: y as u32,
                month: mo as u32,
                day: d as u32,
                hour: h as u32,
                minute: mi as u32,
                second: sec as u32,
                millisecond: m3 as u32,
            };
            if check_ranges(t.year, t.month, t.day, t.hour, t.minute, t.second, t.millisecond) {
                Some(t)
            } else {
                None
            }
        },
        _ => None,
    }
}

} // verus!
