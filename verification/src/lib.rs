//! Decoder for NMEA-0183 GGA sentences with a fixed-layout boundary record.
//!
//! The decoder turns one ASCII GGA sentence into a structured fix record in
//! which every attribute is independently optional, and the marshaller
//! flattens that record into a fixed-field-order value whose integer fields
//! use `-1` as the absent sentinel, so that a foreign caller can read it by
//! position without any support library.

use vstd::prelude::*;

pub mod decode;
pub mod fields;
pub mod laws;
pub mod record;
pub mod scan;

use crate::decode::{decode, decode_spec};
use crate::record::{CGgaData, Decimal, FixRecord, GgaData, marshal, marshal_spec};

verus! {

/// Decode one GGA sentence and flatten it into the boundary record.
///
/// The result is a pure function of the bytes alone, so two calls on the same
/// text yield identical records. A sentence of another type, a malformed GGA
/// sentence and a checksum mismatch all yield the all-absent record; in a
/// decoded fix every absent attribute is its sentinel and every present one
/// keeps its native value.
pub fn parse_nmea_gga(s: &[u8]) -> (c: CGgaData)
    ensures
        c == marshal_spec(decode_spec(s@)),
{
    let r = decode(s);
    marshal(&r)
}

/// The altitude of a decoded GGA sentence, absent when the sentence is not a
/// well-formed GGA sentence or carries no altitude.
pub fn nmea_gga_altitude(s: &[u8]) -> (r: Option<Decimal>)
    ensures
        r == (match decode_spec(s@) {
            FixRecord::Fix(g) => g.altitude,
            _ => None,
        }),
{
    match decode(s) {
        FixRecord::Fix(g) => g.altitude,
        _ => None,
    }
}

/// Byte size of the decoder's internal fix representation, for host-side
/// sizing and debugging only.
pub fn nmea_size() -> (r: u32)
    ensures
        vstd::layout::size_of::<GgaData>() <= u32::MAX ==> r == vstd::layout::size_of::<GgaData>(),
        vstd::layout::size_of::<GgaData>() > u32::MAX ==> r == u32::MAX,
{
    let sz = core::mem::size_of::<GgaData>();
    if sz > u32::MAX as usize {
        u32::MAX
    } else {
        sz as u32
    }
}

} // verus!

