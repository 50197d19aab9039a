//! The decoder's structured fix record, in which every attribute is
//! independently optional, and the fixed-layout boundary record derived from
//! it, in which each integer attribute uses `-1` as its absent sentinel.
//!
//! Angles and dilution/height values are kept as exact scaled decimals: the
//! numeric value of a `Decimal` is `digits / 10^scale` (negated when
//! `negative`), and the value of a `Coordinate` in decimal degrees is
//! `degrees + (minutes_digits / 10^minutes_scale) / 60` (negated when
//! `negative`). A caller that needs floating point converts at its own edge.

use vstd::prelude::*;

use crate::scan::pow10;

verus! {

/// A UTC time of day, whole seconds.
#[derive(Clone, Copy, PartialEq, Eq, Debug)]
pub struct UtcTime {
    pub hour: u8,
    pub minute: u8,
    pub second: u8,
}

/// An angle in decimal degrees: `degrees + minutes / 60`, where the minutes
/// are the exact decimal `minutes_digits / 10^minutes_scale`; negative when
/// `negative` is set.
#[derive(Clone, Copy, PartialEq, Eq, Debug)]
pub struct Coordinate {
    pub negative: bool,
    pub degrees: u32,
    pub minutes_digits: u64,
    pub minutes_scale: u32,
}

/// An exact scaled decimal: `digits / 10^scale`, negative when `negative`.
#[derive(Clone, Copy, PartialEq, Eq, Debug)]
pub struct Decimal {
    pub negative: bool,
    pub digits: u64,
    pub scale: u32,
}

/// GGA fix quality indicator. The boundary record reports the ordinal of the
/// variant, in this order, matching the quality digit of the sentence.
#[derive(Clone, Copy, PartialEq, Eq, Debug)]
pub enum FixType {
    NoFix,
    Gps,
    Dgps,
    Pps,
    Rtk,
    FloatRtk,
    Estimated,
    Manual,
    Simulation,
}

/// The ordinal the boundary record reports for a fix quality, equal to the
/// quality digit of the sentence.
pub open spec fn fix_type_ordinal(t: FixType) -> int {
    match t {
        FixType::NoFix => 0,
        FixType::Gps => 1,
        FixType::Dgps => 2,
        FixType::Pps => 3,
        FixType::Rtk => 4,
        FixType::FloatRtk => 5,
        FixType::Estimated => 6,
        FixType::Manual => 7,
        FixType::Simulation => 8,
    }
}

/// A successfully decoded GGA sentence; every attribute is independently
/// optional, and absence is never conflated with a zero value.
#[derive(Clone, Copy, PartialEq, Debug)]
pub struct GgaData {
    pub fix_time: Option<UtcTime>,
    pub fix_type: Option<FixType>,
    pub latitude: Option<Coordinate>,
    pub longitude: Option<Coordinate>,
    pub fix_satellites: Option<u32>,
    pub hdop: Option<Decimal>,
    pub altitude: Option<Decimal>,
    pub geoid_separation: Option<Decimal>,
}

/// Outcome of decoding one sentence: not a GGA sentence at all (a distinct
/// outcome, not a failure), a malformed GGA sentence, or a fix record.
#[derive(Clone, Copy, PartialEq, Debug)]
pub enum FixRecord {
    NotGga,
    Malformed,
    Fix(GgaData),
}

/// Ranges the decoder guarantees of every time it returns.
pub open spec fn time_valid(t: UtcTime) -> bool {
    t.hour <= 23 && t.minute <= 59 && t.second <= 59
}

/// Ranges the decoder guarantees of every coordinate it returns: at most
/// `limit` decimal degrees in magnitude, with the exact minutes kept in a
/// `u64` of at most 18 digits.
pub open spec fn coordinate_valid(c: Coordinate, limit: nat) -> bool {
    &&& c.minutes_scale <= 17
    &&& c.minutes_digits < pow10(18)
    &&& c.degrees * 60 * pow10(c.minutes_scale as nat) + c.minutes_digits <= limit * 60 * pow10(
        c.minutes_scale as nat,
    )
}

/// Ranges the decoder guarantees of every scaled decimal it returns.
pub open spec fn decimal_valid(d: Decimal) -> bool {
    d.scale <= 17 && d.digits < pow10(18)
}

/// Ranges the decoder guarantees of every fix record it returns; in
/// particular every integer attribute fits the 32-bit signed field of the
/// boundary record.
pub open spec fn gga_valid(g: GgaData) -> bool {
    &&& (g.fix_time matches Some(t) ==> time_valid(t))
    &&& (g.latitude matches Some(c) ==> coordinate_valid(c, 90))
    &&& (g.longitude matches Some(c) ==> coordinate_valid(c, 180))
    &&& (g.fix_satellites matches Some(n) ==> n <= 0x7fff_ffff)
    &&& (g.hdop matches Some(d) ==> decimal_valid(d) && !d.negative)
    &&& (g.altitude matches Some(d) ==> decimal_valid(d))
    &&& (g.geoid_separation matches Some(d) ==> decimal_valid(d))
}

pub open spec fn record_valid(r: FixRecord) -> bool {
    match r {
        FixRecord::Fix(g) => gga_valid(g),
        _ => true,
    }
}

/// The fixed-layout boundary record. Field order and widths are part of the
/// contract: a foreign caller reads it by position. Integer attributes use
/// `-1` as the absent sentinel; the exact-decimal attributes stay optional
/// here, and the caller-facing copy encodes their absence as IEEE NaN after
/// converting to floating point.
#[derive(Clone, Copy, PartialEq, Debug)]
pub struct CGgaData {
    pub fix_hour: i32,
    pub fix_minute: i32,
    pub fix_second: i32,
    pub fix_type: i32,
    pub latitude: Option<Coordinate>,
    pub longitude: Option<Coordinate>,
    pub fix_satellites: i32,
    pub hdop: Option<Decimal>,
    pub altitude: Option<Decimal>,
    pub geoid_separation: Option<Decimal>,
}

/// The all-absent boundary record: every integer attribute is `-1` and every
/// decimal attribute is absent.
pub open spec fn absent_record() -> CGgaData {
    CGgaData {
        fix_hour: -1i32,
        fix_minute: -1i32,
        fix_second: -1i32,
        fix_type: -1i32,
        latitude: None,
        longitude: None,
        fix_satellites: -1i32,
        hdop: None,
        altitude: None,
        geoid_separation: None,
    }
}

/// How a fix record flattens into the boundary record: any outcome other
/// than a fix gives the all-absent record; in a fix, every present attribute
/// is copied in its native value and every absent one becomes its sentinel.
pub open spec fn marshal_spec(r: FixRecord) -> CGgaData {
    match r {
        FixRecord::Fix(g) => CGgaData {
            fix_hour: match g.fix_time {
                Some(t) => t.hour as i32,
                None => -1i32,
            },
            fix_minute: match g.fix_time {
                Some(t) => t.minute as i32,
                None => -1i32,
            },
            fix_second: match g.fix_time {
                Some(t) => t.second as i32,
                None => -1i32,
            },
            fix_type: match g.fix_type {
                Some(t) => fix_type_ordinal(t) as i32,
                None => -1i32,
            },
            latitude: g.latitude,
            longitude: g.longitude,
            fix_satellites: match g.fix_satellites {
                Some(n) => n as i32,
                None => -1i32,
            },
            hdop: g.hdop,
            altitude: g.altitude,
            geoid_separation: g.geoid_separation,
        },
        _ => absent_record(),
    }
}

/// The all-absent boundary record, for callers that must report a null or
/// undecodable input without signalling a failure.
pub fn absent_gga_record() -> (c: CGgaData)
    ensures
        c == absent_record(),
{
    CGgaData {
        fix_hour: -1i32,
        fix_minute: -1i32,
        fix_second: -1i32,
        fix_type: -1i32,
        latitude: None,
        longitude: None,
        fix_satellites: -1i32,
        hdop: None,
        altitude: None,
        geoid_separation: None,
    }
}

fn fix_type_code(t: FixType) -> (r: i32)
    ensures
        r == fix_type_ordinal(t),
{
    match t {
        FixType::NoFix => 0,
        FixType::Gps => 1,
        FixType::Dgps => 2,
        FixType::Pps => 3,
        FixType::Rtk => 4,
        FixType::FloatRtk => 5,
        FixType::Estimated => 6,
        FixType::Manual => 7,
        FixType::Simulation => 8,
    }
}

/// Flatten a decode outcome into the boundary record, sentinel for sentinel
/// as `marshal_spec` states.
pub fn marshal(r: &FixRecord) -> (c: CGgaData)
    requires
        record_valid(*r),
    ensures
        c == marshal_spec(*r),
{
    match r {
        FixRecord::Fix(g) => CGgaData {
            fix_hour: match g.fix_time {
                Some(t) => t.hour as i32,
                None => -1i32,
            },
            fix_minute: match g.fix_time {
                Some(t) => t.minute as i32,
                None => -1i32,
            },
            fix_second: match g.fix_time {
                Some(t) => t.second as i32,
                None => -1i32,
            },
            fix_type: match g.fix_type {
                Some(t) => fix_type_code(t),
                None => -1i32,
            },
            latitude: g.latitude,
            longitude: g.longitude,
            fix_satellites: match g.fix_satellites {
                Some(n) => n as i32,
                None => -1i32,
            },
            hdop: g.hdop,
            altitude: g.altitude,
            geoid_separation: g.geoid_separation,
        },
        _ => absent_gga_record(),
    }
}

} // verus!
