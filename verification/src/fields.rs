//! Parsers for the individual fields of a GGA sentence.
//!
//! Each field is parsed independently. An empty field means the attribute is
//! absent — never an error — while a syntactically invalid non-empty field
//! voids the whole sentence. Each parser therefore has three outcomes,
//! written `None` (invalid field), `Some(None)` (absent attribute) and
//! `Some(Some(v))` (parsed value).

use vstd::prelude::*;

use crate::record::{Coordinate, Decimal, FixType, UtcTime, coordinate_valid, decimal_valid,
    time_valid};
use crate::scan::{all_digits, check_all_digits, digits_val, find_byte, find_in,
    lemma_digits_val_bound, lemma_pow10_18, lemma_pow10_adds, lemma_pow10_monotone,
    lemma_pow10_pos, parse_digits, pow10, pow10_u64};

verus! {

pub const DOLLAR: u8 = 36;

pub const STAR: u8 = 42;

pub const COMMA: u8 = 44;

pub const DOT: u8 = 46;

pub const MINUS: u8 = 45;

pub const PLUS: u8 = 43;

pub const NORTH: u8 = 78;

pub const SOUTH: u8 = 83;

pub const EAST: u8 = 69;

pub const WEST: u8 = 87;

// ---------------------------------------------------------------------------
// Unsigned decimal numerals: `digits [ '.' digits ]`, at least one integer
// digit, at most 18 digits in all so the value fits a `u64` exactly.
// ---------------------------------------------------------------------------
/// Position of the decimal point in `f`, or `f.len()` when there is none.
pub open spec fn dot_pos(f: Seq<u8>) -> int {
    find_in(f, 0, f.len() as int, DOT)
}

/// Number of fractional digits of the numeral.
pub open spec fn udec_scale(f: Seq<u8>) -> nat {
    if dot_pos(f) == f.len() {
        0
    } else {
        (f.len() - dot_pos(f) - 1) as nat
    }
}

/// `f` is a well-formed unsigned decimal numeral.
pub open spec fn udec_wf(f: Seq<u8>) -> bool {
    &&& 1 <= dot_pos(f)
    &&& all_digits(f, 0, dot_pos(f))
    &&& (dot_pos(f) < f.len() ==> all_digits(f, dot_pos(f) + 1, f.len() as int))
    &&& dot_pos(f) + udec_scale(f) <= 18
}

/// The digits of the numeral read as one integer, so that its exact value is
/// `udec_digits(f) / 10^udec_scale(f)`.
pub open spec fn udec_digits(f: Seq<u8>) -> nat {
    digits_val(f, 0, dot_pos(f)) * pow10(udec_scale(f)) + (if dot_pos(f) < f.len() {
        digits_val(f, dot_pos(f) + 1, f.len() as int)
    } else {
        0
    })
}

pub proof fn lemma_udec_digits_bound(f: Seq<u8>)
    requires
        udec_wf(f),
    ensures
        udec_digits(f) < pow10((dot_pos(f) + udec_scale(f)) as nat),
        udec_digits(f) < pow10(18),
{
    let dot = dot_pos(f);
    let sc = udec_scale(f);
    let d1 = digits_val(f, 0, dot);
    lemma_digits_val_bound(f, 0, dot);
    lemma_pow10_adds(dot as nat, sc);
    lemma_pow10_pos(sc);
    if dot < f.len() {
        let d2 = digits_val(f, dot + 1, f.len() as int);
        lemma_digits_val_bound(f, dot + 1, f.len() as int);
        assert(d1 * pow10(sc) + d2 < pow10(dot as nat) * pow10(sc)) by (nonlinear_arith)
            requires
                d1 + 1 <= pow10(dot as nat),
                d2 < pow10(sc),
                pow10(sc) >= 1,
        ;
    } else {
        assert(d1 * pow10(sc) < pow10(dot as nat) * pow10(sc)) by (nonlinear_arith)
            requires
                d1 + 1 <= pow10(dot as nat),
                pow10(sc) >= 1,
        ;
    }
    lemma_pow10_monotone((dot + sc) as nat, 18);
}

/// Parse an unsigned decimal numeral; the pair holds the concatenated digits
/// and the number of fractional digits.
pub fn parse_udec(f: &[u8]) -> (r: Option<(u64, u32)>)
    ensures
        r is Some <==> udec_wf(f@),
        r matches Some(p) ==> p.0 == udec_digits(f@) && p.1 == udec_scale(f@) && p.0 < pow10(18)
            && p.1 <= 17,
{
    let n = f.len();
    let dot = find_byte(f, 0, n, DOT);
    if dot < 1 {
        return None;
    }
    if !check_all_digits(f, 0, dot) {
        return None;
    }
    let scale: usize = if dot < n {
        n - dot - 1
    } else {
        0
    };
    if dot + scale > 18 {
        return None;
    }
    if dot < n {
        if !check_all_digits(f, dot + 1, n) {
            return None;
        }
    }
    proof {
        lemma_udec_digits_bound(f@);
        lemma_pow10_18();
        lemma_pow10_monotone(udec_scale(f@), 18);
    }
    let d1 = parse_digits(f, 0, dot);
    let d2 = if dot < n {
        parse_digits(f, dot + 1, n)
    } else {
        0
    };
    let p10 = pow10_u64(scale as u32);
    proof {
        assert(d1 * p10 + d2 == udec_digits(f@));
        assert(d1 * p10 <= udec_digits(f@));
    }
    Some((d1 * p10 + d2, scale as u32))
}

// ---------------------------------------------------------------------------
// Time of day: `hhmmss` with an optional fractional-second tail `.s*`, which
// is dropped (the record keeps whole seconds).
// ---------------------------------------------------------------------------
/// `f` is a well-formed time-of-day field with in-range components.
pub open spec fn time_wf(f: Seq<u8>) -> bool {
    &&& f.len() >= 6
    &&& all_digits(f, 0, 6)
    &&& (f.len() == 6 || (f[6] == DOT && all_digits(f, 7, f.len() as int)))
    &&& digits_val(f, 0, 2) <= 23
    &&& digits_val(f, 2, 4) <= 59
    &&& digits_val(f, 4, 6) <= 59
}

pub open spec fn time_of(f: Seq<u8>) -> UtcTime {
    UtcTime {
        hour: digits_val(f, 0, 2) as u8,
        minute: digits_val(f, 2, 4) as u8,
        second: digits_val(f, 4, 6) as u8,
    }
}

pub open spec fn parse_time_spec(f: Seq<u8>) -> Option<Option<UtcTime>> {
    if f.len() == 0 {
        Some(None)
    } else if time_wf(f) {
        Some(Some(time_of(f)))
    } else {
        None
    }
}

pub fn parse_time(f: &[u8]) -> (r: Option<Option<UtcTime>>)
    ensures
        r == parse_time_spec(f@),
        r matches Some(Some(t)) ==> time_valid(t),
{
    let n = f.len();
    if n == 0 {
        return Some(None);
    }
    if n < 6 {
        return None;
    }
    if !check_all_digits(f, 0, 6) {
        return None;
    }
    if n > 6 {
        if f[6] != DOT {
            return None;
        }
        if !check_all_digits(f, 7, n) {
            return None;
        }
    }
    let h = parse_digits(f, 0, 2);
    let m = parse_digits(f, 2, 4);
    let s = parse_digits(f, 4, 6);
    if h > 23 || m > 59 || s > 59 {
        return None;
    }
    Some(Some(UtcTime { hour: h as u8, minute: m as u8, second: s as u8 }))
}

// ---------------------------------------------------------------------------
// Fix quality: one digit `0`..`8`, in the order of the `FixType` variants.
// ---------------------------------------------------------------------------
pub open spec fn fix_type_of_digit(b: u8) -> FixType {
    if b == 48 {
        FixType::NoFix
    } else if b == 49 {
        FixType::Gps
    } else if b == 50 {
        FixType::Dgps
    } else if b == 51 {
        FixType::Pps
    } else if b == 52 {
        FixType::Rtk
    } else if b == 53 {
        FixType::FloatRtk
    } else if b == 54 {
        FixType::Estimated
    } else if b == 55 {
        FixType::Manual
    } else {
        FixType::Simulation
    }
}

pub open spec fn parse_quality_spec(f: Seq<u8>) -> Option<Option<FixType>> {
    if f.len() == 0 {
        Some(None)
    } else if f.len() == 1 && 48 <= f[0] && f[0] <= 56 {
        Some(Some(fix_type_of_digit(f[0])))
    } else {
        None
    }
}

pub fn parse_quality(f: &[u8]) -> (r: Option<Option<FixType>>)
    ensures
        r == parse_quality_spec(f@),
{
    if f.len() == 0 {
        return Some(None);
    }
    if f.len() != 1 {
        return None;
    }
    let b = f[0];
    if b == 48 {
        Some(Some(FixType::NoFix))
    } else if b == 49 {
        Some(Some(FixType::Gps))
    } else if b == 50 {
        Some(Some(FixType::Dgps))
    } else if b == 51 {
        Some(Some(FixType::Pps))
    } else if b == 52 {
        Some(Some(FixType::Rtk))
    } else if b == 53 {
        Some(Some(FixType::FloatRtk))
    } else if b == 54 {
        Some(Some(FixType::Estimated))
    } else if b == 55 {
        Some(Some(FixType::Manual))
    } else if b == 56 {
        Some(Some(FixType::Simulation))
    } else {
        None
    }
}

// ---------------------------------------------------------------------------
// Satellites in use: a plain decimal count that must fit the boundary
// record's 32-bit signed field.
// ---------------------------------------------------------------------------
pub open spec fn parse_sats_spec(f: Seq<u8>) -> Option<Option<u32>> {
    if f.len() == 0 {
        Some(None)
    } else if all_digits(f, 0, f.len() as int) && f.len() <= 18 && digits_val(
        f,
        0,
        f.len() as int,
    ) <= 0x7fff_ffff {
        Some(Some(digits_val(f, 0, f.len() as int) as u32))
    } else {
        None
    }
}

pub fn parse_sats(f: &[u8]) -> (r: Option<Option<u32>>)
    ensures
        r == parse_sats_spec(f@),
        r matches Some(Some(n)) ==> n <= 0x7fff_ffff,
{
    let n = f.len();
    if n == 0 {
        return Some(None);
    }
    if n > 18 {
        return None;
    }
    if !check_all_digits(f, 0, n) {
        return None;
    }
    let v = parse_digits(f, 0, n);
    if v > 0x7fff_ffff {
        return None;
    }
    Some(Some(v as u32))
}

// ---------------------------------------------------------------------------
// Dilution and height fields: an exact scaled decimal, optionally signed for
// the height fields.
// ---------------------------------------------------------------------------
pub open spec fn udec_of(f: Seq<u8>, neg: bool) -> Decimal {
    Decimal { negative: neg, digits: udec_digits(f) as u64, scale: udec_scale(f) as u32 }
}

/// Unsigned decimal field (horizontal dilution, which has no sign).
pub open spec fn parse_udec_field_spec(f: Seq<u8>) -> Option<Option<Decimal>> {
    if f.len() == 0 {
        Some(None)
    } else if udec_wf(f) {
        Some(Some(udec_of(f, false)))
    } else {
        None
    }
}

pub fn parse_udec_field(f: &[u8]) -> (r: Option<Option<Decimal>>)
    ensures
        r == parse_udec_field_spec(f@),
        r matches Some(Some(d)) ==> decimal_valid(d) && !d.negative,
{
    if f.len() == 0 {
        return Some(None);
    }
    match parse_udec(f) {
        None => None,
        Some((digits, scale)) => Some(Some(Decimal { negative: false, digits, scale })),
    }
}

/// Signed decimal field (heights may carry a leading `-` or `+`).
pub open spec fn parse_sdec_field_spec(f: Seq<u8>) -> Option<Option<Decimal>> {
    if f.len() == 0 {
        Some(None)
    } else if f[0] == MINUS || f[0] == PLUS {
        let g = f.subrange(1, f.len() as int);
        if udec_wf(g) {
            Some(Some(udec_of(g, f[0] == MINUS)))
        } else {
            None
        }
    } else if udec_wf(f) {
        Some(Some(udec_of(f, false)))
    } else {
        None
    }
}

pub fn parse_sdec_field(f: &[u8]) -> (r: Option<Option<Decimal>>)
    ensures
        r == parse_sdec_field_spec(f@),
        r matches Some(Some(d)) ==> decimal_valid(d),
{
    if f.len() == 0 {
        return Some(None);
    }
    if f[0] == MINUS || f[0] == PLUS {
        let g = vstd::slice::slice_subrange(f, 1, f.len());
        match parse_udec(g) {
            None => None,
            Some((digits, scale)) => Some(
                Some(Decimal { negative: f[0] == MINUS, digits, scale }),
            ),
        }
    } else {
        match parse_udec(f) {
            None => None,
            Some((digits, scale)) => Some(Some(Decimal { negative: false, digits, scale })),
        }
    }
}

// ---------------------------------------------------------------------------
// Angles: the numeral packs degrees and minutes as `dddmm.mmmm`, the paired
// hemisphere letter gives the sign (N and E positive, S and W negative), and
// the decoded magnitude must stay within the axis limit in decimal degrees.
// Value and hemisphere are present or absent together.
// ---------------------------------------------------------------------------
/// Whole degrees packed ahead of the two minute digits.
pub open spec fn coord_degrees(f: Seq<u8>) -> nat {
    udec_digits(f) / (100 * pow10(udec_scale(f)))
}

/// The minutes part, scaled by `10^udec_scale(f)`.
pub open spec fn coord_minutes(f: Seq<u8>) -> nat {
    udec_digits(f) % (100 * pow10(udec_scale(f)))
}

/// The angle's magnitude is at most `limit` decimal degrees:
/// `degrees + (minutes / 10^scale) / 60 <= limit`, cleared of divisions.
pub open spec fn coord_in_range(f: Seq<u8>, limit: nat) -> bool {
    coord_degrees(f) * 60 * pow10(udec_scale(f)) + coord_minutes(f) <= limit * 60 * pow10(
        udec_scale(f),
    )
}

pub open spec fn coord_of(f: Seq<u8>, neg: bool) -> Coordinate {
    Coordinate {
        negative: neg,
        degrees: coord_degrees(f) as u32,
        minutes_digits: coord_minutes(f) as u64,
        minutes_scale: udec_scale(f) as u32,
    }
}

pub open spec fn parse_angle_spec(
    vf: Seq<u8>,
    hf: Seq<u8>,
    posc: u8,
    negc: u8,
    limit: nat,
) -> Option<Option<Coordinate>> {
    if vf.len() == 0 && hf.len() == 0 {
        Some(None)
    } else if vf.len() == 0 || hf.len() == 0 {
        None
    } else if hf.len() == 1 && (hf[0] == posc || hf[0] == negc) && udec_wf(vf) && coord_in_range(
        vf,
        limit,
    ) {
        Some(Some(coord_of(vf, hf[0] == negc)))
    } else {
        None
    }
}

proof fn lemma_mul_le_cancel(a: nat, b: nat, c: nat)
    requires
        a * c <= b * c,
        c >= 1,
    ensures
        a <= b,
{
    assert(a <= b) by (nonlinear_arith)
        requires
            a * c <= b * c,
            c >= 1,
    ;
}

pub proof fn lemma_parse_time_spec_valid(f: Seq<u8>)
    ensures
        parse_time_spec(f) matches Some(Some(t)) ==> time_valid(t),
{
}

pub proof fn lemma_parse_sats_spec_valid(f: Seq<u8>)
    ensures
        parse_sats_spec(f) matches Some(Some(n)) ==> n <= 0x7fff_ffff,
{
}

pub proof fn lemma_parse_udec_field_spec_valid(f: Seq<u8>)
    ensures
        parse_udec_field_spec(f) matches Some(Some(d)) ==> decimal_valid(d) && !d.negative,
{
    if f.len() > 0 && udec_wf(f) {
        lemma_udec_digits_bound(f);
    }
}

pub proof fn lemma_parse_sdec_field_spec_valid(f: Seq<u8>)
    ensures
        parse_sdec_field_spec(f) matches Some(Some(d)) ==> decimal_valid(d),
{
    if f.len() > 0 {
        if f[0] == MINUS || f[0] == PLUS {
            let g = f.subrange(1, f.len() as int);
            if udec_wf(g) {
                lemma_udec_digits_bound(g);
            }
        } else if udec_wf(f) {
            lemma_udec_digits_bound(f);
        }
    }
}

pub proof fn lemma_parse_angle_spec_valid(vf: Seq<u8>, hf: Seq<u8>, posc: u8, negc: u8, limit: nat)
    requires
        limit <= 180,
    ensures
        parse_angle_spec(vf, hf, posc, negc, limit) matches Some(Some(c)) ==> coordinate_valid(
            c,
            limit,
        ),
{
    if parse_angle_spec(vf, hf, posc, negc, limit) is Some
        && parse_angle_spec(vf, hf, posc, negc, limit).unwrap() is Some {
        let c = parse_angle_spec(vf, hf, posc, negc, limit).unwrap().unwrap();
        let sc = udec_scale(vf);
        let split = 100 * pow10(sc);
        let deg = coord_degrees(vf);
        let rem = coord_minutes(vf);
        lemma_udec_digits_bound(vf);
        lemma_pow10_pos(sc);
        assert(split >= 100) by (nonlinear_arith)
            requires
                split == 100 * pow10(sc),
                pow10(sc) >= 1,
        ;
        assert(rem <= udec_digits(vf)) by (nonlinear_arith)
            requires
                rem == udec_digits(vf) % split,
                split >= 1,
        ;
        assert(deg * 60 * pow10(sc) == deg * (60 * pow10(sc))) by (nonlinear_arith);
        assert(limit * 60 * pow10(sc) == limit * (60 * pow10(sc))) by (nonlinear_arith);
        lemma_mul_le_cancel(deg, limit, 60 * pow10(sc));
        assert(c == coord_of(vf, hf[0] == negc));
        assert(c.degrees == deg as u32 && deg <= 180);
        assert(c.minutes_digits == rem as u64 && rem < pow10(18));
    }
}

pub fn parse_angle(vf: &[u8], hf: &[u8], posc: u8, negc: u8, limit: u32) -> (r: Option<
    Option<Coordinate>,
>)
    requires
        limit <= 180,
    ensures
        r == parse_angle_spec(vf@, hf@, posc, negc, limit as nat),
        r matches Some(Some(c)) ==> coordinate_valid(c, limit as nat),
{
    if vf.len() == 0 && hf.len() == 0 {
        return Some(None);
    }
    if vf.len() == 0 || hf.len() == 0 {
        return None;
    }
    if !(hf.len() == 1 && (hf[0] == posc || hf[0] == negc)) {
        return None;
    }
    let (digits, scale) = match parse_udec(vf) {
        None => { return None },
        Some(p) => p,
    };
    proof {
        lemma_pow10_18();
        lemma_pow10_monotone(scale as nat, 17);
        assert(pow10(18) == 10 * pow10(17));
    }
    let p10 = pow10_u64(scale);
    let split = 100 * p10;
    let deg = digits / split;
    let rem = digits % split;
    proof {
        assert(deg <= digits);
        assert(rem <= digits) by (nonlinear_arith)
            requires
                rem == digits as nat % (split as nat),
                split >= 1,
        ;
        assert((deg as u128) * 60 * (p10 as u128) <= (digits as u128) * 60 * (p10 as u128))
            by (nonlinear_arith)
            requires
                deg <= digits,
        ;
        assert((digits as u128) * 60 * (p10 as u128) < 6_000_000_000_000_000_000_000_000_000_000_000_000u128)
            by (nonlinear_arith)
            requires
                digits < 1_000_000_000_000_000_000u128,
                p10 <= 100_000_000_000_000_000u128,
        ;
        assert((limit as u128) * 60 * (p10 as u128) <= 180u128 * 60 * 100_000_000_000_000_000u128)
            by (nonlinear_arith)
            requires
                limit <= 180u128,
                p10 <= 100_000_000_000_000_000u128,
        ;
    }
    let lhs: u128 = (deg as u128) * 60 * (p10 as u128) + (rem as u128);
    let rhs: u128 = (limit as u128) * 60 * (p10 as u128);
    if lhs > rhs {
        return None;
    }
    proof {
        lemma_pow10_pos(scale as nat);
        assert(deg * 60 * pow10(scale as nat) == deg * (60 * pow10(scale as nat)))
            by (nonlinear_arith);
        assert(limit * 60 * pow10(scale as nat) == limit * (60 * pow10(scale as nat)))
            by (nonlinear_arith);
        lemma_mul_le_cancel(deg as nat, limit as nat, 60 * pow10(scale as nat));
    }
    Some(
        Some(
            Coordinate {
                negative: hf[0] == negc,
                degrees: deg as u32,
                minutes_digits: rem,
                minutes_scale: scale,
            },
        ),
    )
}

} // verus!
