//! Laws the decoder and marshaller obey, stated over the specification
//! functions that the executable contracts use.

use vstd::prelude::*;

use crate::decode::{cut_pos, checksum_ok, decode_spec, field_at, gga_prefix, parsed_fields};
use crate::fields::{SOUTH, WEST, parse_angle_spec, parse_quality_spec, parse_sats_spec,
    parse_sdec_field_spec, parse_time_spec, parse_udec_field_spec};
use crate::record::{FixRecord, GgaData, absent_record, marshal_spec, record_valid};

verus! {

/// Every record the decoder yields satisfies the data model's invariant: a
/// present latitude lies within 90 and a present longitude within 180 decimal
/// degrees, a present time is a time of day, and every present integer
/// attribute fits its 32-bit boundary field.
pub proof fn lemma_decode_fix_valid(s: Seq<u8>)
    ensures
        record_valid(decode_spec(s)),
{
    if decode_spec(s) is Fix {
        let cut = cut_pos(s);
        crate::fields::lemma_parse_time_spec_valid(field_at(s, cut, 0));
        crate::fields::lemma_parse_angle_spec_valid(field_at(s, cut, 1), field_at(s, cut, 2),
            crate::fields::NORTH, SOUTH, 90);
        crate::fields::lemma_parse_angle_spec_valid(field_at(s, cut, 3), field_at(s, cut, 4),
            crate::fields::EAST, WEST, 180);
        crate::fields::lemma_parse_sats_spec_valid(field_at(s, cut, 6));
        crate::fields::lemma_parse_udec_field_spec_valid(field_at(s, cut, 7));
        crate::fields::lemma_parse_sdec_field_spec_valid(field_at(s, cut, 8));
        crate::fields::lemma_parse_sdec_field_spec_valid(field_at(s, cut, 10));
    }
}

/// Marshalling a fix with every attribute present reproduces every attribute
/// exactly: the integer attributes in their native values, never a sentinel,
/// and the exact-decimal attributes unchanged.
pub proof fn lemma_marshal_round_trip(s: Seq<u8>, g: GgaData)
    requires
        decode_spec(s) == FixRecord::Fix(g),
        g.fix_time is Some,
        g.fix_type is Some,
        g.latitude is Some,
        g.longitude is Some,
        g.fix_satellites is Some,
        g.hdop is Some,
        g.altitude is Some,
        g.geoid_separation is Some,
    ensures
        ({
            let c = marshal_spec(decode_spec(s));
            &&& c.fix_hour == g.fix_time.unwrap().hour
            &&& c.fix_minute == g.fix_time.unwrap().minute
            &&& c.fix_second == g.fix_time.unwrap().second
            &&& c.fix_type == crate::record::fix_type_ordinal(g.fix_type.unwrap())
            &&& c.latitude == g.latitude
            &&& c.longitude == g.longitude
            &&& c.fix_satellites == g.fix_satellites.unwrap()
            &&& c.hdop == g.hdop
            &&& c.altitude == g.altitude
            &&& c.geoid_separation == g.geoid_separation
        }),
{
    lemma_decode_fix_valid(s);
}

/// A sentence whose type code is not GGA yields the all-absent record — never
/// a partial one.
pub proof fn lemma_non_gga_all_absent(s: Seq<u8>)
    requires
        !gga_prefix(s),
    ensures
        decode_spec(s) == FixRecord::NotGga,
        marshal_spec(decode_spec(s)) == absent_record(),
{
}

/// A checksum mismatch (or a mangled checksum tail) on a GGA sentence yields
/// the all-absent record.
pub proof fn lemma_checksum_mismatch_all_absent(s: Seq<u8>)
    requires
        gga_prefix(s),
        !checksum_ok(s, cut_pos(s)),
    ensures
        decode_spec(s) == FixRecord::Malformed,
        marshal_spec(decode_spec(s)) == absent_record(),
{
}

/// In a decoded fix, an attribute is its sentinel exactly when its field (for
/// an angle: the value/hemisphere pair) is empty in the sentence; every other
/// attribute carries the value parsed from its field.
pub proof fn lemma_sentinel_iff_field_empty(s: Seq<u8>, g: GgaData)
    requires
        decode_spec(s) == FixRecord::Fix(g),
    ensures
        ({
            let c = marshal_spec(decode_spec(s));
            let cut = cut_pos(s);
            &&& (c.fix_hour == -1i32 <==> field_at(s, cut, 0).len() == 0)
            &&& (c.fix_minute == -1i32 <==> field_at(s, cut, 0).len() == 0)
            &&& (c.fix_second == -1i32 <==> field_at(s, cut, 0).len() == 0)
            &&& (c.latitude is None <==> field_at(s, cut, 1).len() == 0)
            &&& (c.latitude is None <==> field_at(s, cut, 2).len() == 0)
            &&& (c.longitude is None <==> field_at(s, cut, 3).len() == 0)
            &&& (c.longitude is None <==> field_at(s, cut, 4).len() == 0)
            &&& (c.fix_type == -1i32 <==> field_at(s, cut, 5).len() == 0)
            &&& (c.fix_satellites == -1i32 <==> field_at(s, cut, 6).len() == 0)
            &&& (c.hdop is None <==> field_at(s, cut, 7).len() == 0)
            &&& (c.altitude is None <==> field_at(s, cut, 8).len() == 0)
            &&& (c.geoid_separation is None <==> field_at(s, cut, 10).len() == 0)
        }),
{
    let cut = cut_pos(s);
    let c = marshal_spec(decode_spec(s));
    assert(parsed_fields(s, cut) == Some(g));
    assert(parse_time_spec(field_at(s, cut, 0)) == Some(g.fix_time));
    assert(g.fix_time matches Some(t) ==> crate::fields::time_wf(field_at(s, cut, 0))
        && t == crate::fields::time_of(field_at(s, cut, 0)));
    assert(g.fix_time matches Some(t) ==> t.hour <= 23 && t.minute <= 59 && t.second <= 59);
    assert(parse_quality_spec(field_at(s, cut, 5)) == Some(g.fix_type));
    assert(parse_sats_spec(field_at(s, cut, 6)) == Some(g.fix_satellites));
    assert(g.fix_satellites matches Some(n) ==> n <= 0x7fff_ffff);
    assert(parse_angle_spec(field_at(s, cut, 1), field_at(s, cut, 2), crate::fields::NORTH,
        SOUTH, 90) == Some(g.latitude));
    assert(parse_angle_spec(field_at(s, cut, 3), field_at(s, cut, 4), crate::fields::EAST,
        WEST, 180) == Some(g.longitude));
    assert(parse_udec_field_spec(field_at(s, cut, 7)) == Some(g.hdop));
    assert(parse_sdec_field_spec(field_at(s, cut, 8)) == Some(g.altitude));
    assert(parse_sdec_field_spec(field_at(s, cut, 10)) == Some(g.geoid_separation));
}

/// Hemisphere sign rule: in a decoded fix, the latitude is negative exactly
/// when its hemisphere field is `S`, and the longitude exactly when its
/// hemisphere field is `W`; `N` and `E` give non-negative angles.
pub proof fn lemma_hemisphere_sign(s: Seq<u8>, g: GgaData)
    requires
        decode_spec(s) == FixRecord::Fix(g),
    ensures
        g.latitude matches Some(c) ==> (c.negative <==> field_at(s, cut_pos(s), 2) == seq![SOUTH]),
        g.longitude matches Some(c) ==> (c.negative <==> field_at(s, cut_pos(s), 4) == seq![WEST]),
{
    let cut = cut_pos(s);
    let hlat = field_at(s, cut, 2);
    let hlon = field_at(s, cut, 4);
    assert(parsed_fields(s, cut) == Some(g));
    if g.latitude is Some {
        assert(hlat.len() == 1);
        if hlat[0] == SOUTH {
            assert(hlat =~= seq![SOUTH]);
        } else {
            assert(hlat != seq![SOUTH]) by {
                assert(hlat.len() == 1 && hlat[0] != SOUTH);
            }
        }
    }
    if g.longitude is Some {
        assert(hlon.len() == 1);
        if hlon[0] == WEST {
            assert(hlon =~= seq![WEST]);
        } else {
            assert(hlon != seq![WEST]) by {
                assert(hlon.len() == 1 && hlon[0] != WEST);
            }
        }
    }
}

/// Decoding is deterministic: the record is a function of the sentence bytes
/// alone, so equal texts decode and marshal to identical values.
pub proof fn lemma_decode_deterministic(s1: Seq<u8>, s2: Seq<u8>)
    requires
        s1 == s2,
    ensures
        decode_spec(s1) == decode_spec(s2),
        marshal_spec(decode_spec(s1)) == marshal_spec(decode_spec(s2)),
{
}

} // verus!
