//! The sentence decoder: one ASCII GGA sentence in, one fix record out.
//!
//! A sentence is `$` followed by a five-character type code whose last three
//! characters are `GGA`, comma-separated positional fields, and an optional
//! `*hh` checksum tail, the XOR of every byte between `$` and `*`. A sentence
//! whose type code is not GGA is a distinct outcome, not a failure; a GGA
//! sentence with a syntactically invalid field, an out-of-range angle or a
//! checksum mismatch is malformed as a whole, and no partial record is
//! returned. Missing trailing fields count as absent, the unit-designator
//! fields and any trailing differential-service fields are not interpreted,
//! and a missing checksum is tolerated.

use vstd::prelude::*;

use crate::fields::{COMMA, DOLLAR, EAST, NORTH, SOUTH, STAR, WEST, parse_angle,
    parse_angle_spec, parse_quality, parse_quality_spec, parse_sats, parse_sats_spec,
    parse_sdec_field, parse_sdec_field_spec, parse_time, parse_time_spec, parse_udec_field,
    parse_udec_field_spec};
use crate::record::{FixRecord, GgaData, gga_valid, record_valid};
use crate::scan::{find_byte, find_in, hex_val, is_hex_digit, xor_bytes, xor_range};

verus! {

/// The sentence carries the GGA type code: `$`, two talker characters, then
/// `GGA`, with the code ended by a field delimiter, a checksum marker or the
/// end of the text.
pub open spec fn gga_prefix(s: Seq<u8>) -> bool {
    &&& s.len() >= 6
    &&& s[0] == DOLLAR
    &&& s[3] == 71  // 'G'
    &&& s[4] == 71  // 'G'
    &&& s[5] == 65  // 'A'
    &&& (s.len() == 6 || s[6] == COMMA || s[6] == STAR)
}

/// Index of the checksum marker `*`, or `s.len()` when there is none.
pub open spec fn cut_pos(s: Seq<u8>) -> int {
    find_in(s, 1, s.len() as int, STAR)
}

/// The optional checksum is valid: either there is no `*`, or the sentence
/// ends in exactly `*hh` with `hh` the hexadecimal XOR of the bytes between
/// `$` and `*`.
pub open spec fn checksum_ok(s: Seq<u8>, cut: int) -> bool {
    if cut >= s.len() {
        true
    } else {
        &&& s.len() == cut + 3
        &&& is_hex_digit(s[cut + 1])
        &&& is_hex_digit(s[cut + 2])
        &&& xor_range(s, 1, cut) as nat == hex_val(s[cut + 1]) * 16 + hex_val(s[cut + 2])
    }
}

/// Start of field `k`: the fields begin after the type code and its
/// delimiter, and each later field begins one past the comma that ends the
/// field before it. Once fields run out the start passes `cut` and stays
/// there, so every missing field reads as empty.
pub open spec fn field_start(s: Seq<u8>, cut: int, k: nat) -> int
    decreases k,
{
    if k == 0 {
        7
    } else {
        find_in(s, field_start(s, cut, (k - 1) as nat), cut, COMMA) + 1
    }
}

/// The bytes of field `k`, the empty sequence when the sentence has no such
/// field.
pub open spec fn field_at(s: Seq<u8>, cut: int, k: nat) -> Seq<u8> {
    let st = field_start(s, cut, k);
    if st > cut {
        Seq::empty()
    } else {
        s.subrange(st, find_in(s, st, cut, COMMA))
    }
}

/// The positional fields of a GGA sentence, by index.
pub open spec fn parsed_fields(s: Seq<u8>, cut: int) -> Option<GgaData> {
    let time = parse_time_spec(field_at(s, cut, 0));
    let lat = parse_angle_spec(field_at(s, cut, 1), field_at(s, cut, 2), NORTH, SOUTH, 90);
    let lon = parse_angle_spec(field_at(s, cut, 3), field_at(s, cut, 4), EAST, WEST, 180);
    let quality = parse_quality_spec(field_at(s, cut, 5));
    let sats = parse_sats_spec(field_at(s, cut, 6));
    let hdop = parse_udec_field_spec(field_at(s, cut, 7));
    let alt = parse_sdec_field_spec(field_at(s, cut, 8));
    let geoid = parse_sdec_field_spec(field_at(s, cut, 10));
    if time is None || lat is None || lon is None || quality is None || sats is None
        || hdop is None || alt is None || geoid is None {
        None
    } else {
        Some(
            GgaData {
                fix_time: time.unwrap(),
                fix_type: quality.unwrap(),
                latitude: lat.unwrap(),
                longitude: lon.unwrap(),
                fix_satellites: sats.unwrap(),
                hdop: hdop.unwrap(),
                altitude: alt.unwrap(),
                geoid_separation: geoid.unwrap(),
            },
        )
    }
}

/// What decoding a sentence yields: the type code is checked first, then the
/// checksum and every field; any invalid field voids the whole sentence.
pub open spec fn decode_spec(s: Seq<u8>) -> FixRecord {
    if !gga_prefix(s) {
        FixRecord::NotGga
    } else if !checksum_ok(s, cut_pos(s)) {
        FixRecord::Malformed
    } else {
        match parsed_fields(s, cut_pos(s)) {
            Some(g) => FixRecord::Fix(g),
            None => FixRecord::Malformed,
        }
    }
}

fn check_prefix(s: &[u8]) -> (r: bool)
    ensures
        r == gga_prefix(s@),
{
    s.len() >= 6 && s[0] == DOLLAR && s[3] == 71 && s[4] == 71 && s[5] == 65 && (s.len() == 6
        || s[6] == COMMA || s[6] == STAR)
}

fn check_checksum(s: &[u8], cut: usize) -> (r: bool)
    requires
        1 <= cut <= s@.len(),
    ensures
        r == checksum_ok(s@, cut as int),
{
    if cut >= s.len() {
        return true;
    }
    if s.len() - cut != 3 {
        return false;
    }
    let h1 = s[cut + 1];
    let h2 = s[cut + 2];
    let v1: u8 = if 48 <= h1 && h1 <= 57 {
        h1 - 48
    } else if 65 <= h1 && h1 <= 70 {
        h1 - 55
    } else if 97 <= h1 && h1 <= 102 {
        h1 - 87
    } else {
        return false;
    };
    let v2: u8 = if 48 <= h2 && h2 <= 57 {
        h2 - 48
    } else if 65 <= h2 && h2 <= 70 {
        h2 - 55
    } else if 97 <= h2 && h2 <= 102 {
        h2 - 87
    } else {
        return false;
    };
    let sum = xor_bytes(s, 1, cut);
    sum == v1 * 16 + v2
}

/// Slices of the first twelve fields, in sentence order; a missing field is
/// the empty slice.
fn split_fields<'a>(s: &'a [u8], cut: usize) -> (v: Vec<&'a [u8]>)
    requires
        cut <= s@.len(),
    ensures
        v@.len() == 12,
        forall|k: int| 0 <= k < 12 ==> #[trigger] v@[k]@ == field_at(s@, cut as int, k as nat),
{
    let mut v: Vec<&[u8]> = Vec::new();
    let mut st: usize = 0;
    let mut past_end: bool = true;
    if cut >= 7 {
        st = 7;
        past_end = false;
    }
    let mut k: usize = 0;
    while k < 12
        invariant
            cut <= s@.len(),
            v@.len() == k,
            k <= 12,
            !past_end ==> st == field_start(s@, cut as int, k as nat) && st <= cut,
            past_end ==> field_start(s@, cut as int, k as nat) > cut,
            forall|j: int| 0 <= j < k ==> #[trigger] v@[j]@ == field_at(s@, cut as int, j as nat),
        decreases 12 - k,
    {
        if past_end {
            let empty = vstd::slice::slice_subrange(s, 0, 0);
            assert(empty@ =~= field_at(s@, cut as int, k as nat));
            v.push(empty);
            proof {
                assert(find_in(s@, field_start(s@, cut as int, k as nat), cut as int, COMMA)
                    == cut);
            }
        } else {
            let e = find_byte(s, st, cut, COMMA);
            let fld = vstd::slice::slice_subrange(s, st, e);
            v.push(fld);
            if e < cut {
                st = e + 1;
            } else {
                past_end = true;
            }
        }
        k += 1;
    }
    v
}

/// Decode one ASCII GGA sentence. The result is a pure function of the bytes
/// alone: the decoder keeps no state, reads nothing else, and never scans
/// past the end of the text, so equal inputs always yield equal records.
pub fn decode(s: &[u8]) -> (r: FixRecord)
    ensures
        r == decode_spec(s@),
        record_valid(r),
{
    if !check_prefix(s) {
        return FixRecord::NotGga;
    }
    let cut = find_byte(s, 1, s.len(), STAR);
    if !check_checksum(s, cut) {
        return FixRecord::Malformed;
    }
    let fields = split_fields(s, cut);
    let time = match parse_time(fields[0]) {
        None => { return FixRecord::Malformed },
        Some(x) => x,
    };
    let lat = match parse_angle(fields[1], fields[2], NORTH, SOUTH, 90) {
        None => { return FixRecord::Malformed },
        Some(x) => x,
    };
    let lon = match parse_angle(fields[3], fields[4], EAST, WEST, 180) {
        None => { return FixRecord::Malformed },
        Some(x) => x,
    };
    let quality = match parse_quality(fields[5]) {
        None => { return FixRecord::Malformed },
        Some(x) => x,
    };
    let sats = match parse_sats(fields[6]) {
        None => { return FixRecord::Malformed },
        Some(x) => x,
    };
    let hdop = match parse_udec_field(fields[7]) {
        None => { return FixRecord::Malformed },
        Some(x) => x,
    };
    let alt = match parse_sdec_field(fields[8]) {
        None => { return FixRecord::Malformed },
        Some(x) => x,
    };
    let geoid = match parse_sdec_field(fields[10]) {
        None => { return FixRecord::Malformed },
        Some(x) => x,
    };
    let g = GgaData {
        fix_time: time,
        fix_type: quality,
        latitude: lat,
        longitude: lon,
        fix_satellites: sats,
        hdop,
        altitude: alt,
        geoid_separation: geoid,
    };
    assert(gga_valid(g));
    FixRecord::Fix(g)
}

} // verus!
