//! Decoder outcomes: sentence classification, field parsing, checksum
//! handling and malformed inputs.

use nmea_gga::decode::decode;
use nmea_gga::record::{Coordinate, Decimal, FixRecord, FixType, UtcTime};

#[test]
fn full_sentence_decodes_every_field() {
    let r = decode(b"$GPGGA,092750.000,5321.6802,N,00630.3372,W,1,8,1.03,61.7,M,55.2,M,,*76");
    match r {
        FixRecord::Fix(g) => {
            assert_eq!(g.fix_time, Some(UtcTime { hour: 9, minute: 27, second: 50 }));
            assert_eq!(g.fix_type, Some(FixType::Gps));
            assert_eq!(
                g.latitude,
                Some(Coordinate {
                    negative: false,
                    degrees: 53,
                    minutes_digits: 216802,
                    minutes_scale: 4
                })
            );
            assert_eq!(
                g.longitude,
                Some(Coordinate {
                    negative: true,
                    degrees: 6,
                    minutes_digits: 303372,
                    minutes_scale: 4
                })
            );
            assert_eq!(g.fix_satellites, Some(8));
            assert_eq!(g.hdop, Some(Decimal { negative: false, digits: 103, scale: 2 }));
            assert_eq!(g.altitude, Some(Decimal { negative: false, digits: 617, scale: 1 }));
            assert_eq!(
                g.geoid_separation,
                Some(Decimal { negative: false, digits: 552, scale: 1 })
            );
        }
        other => panic!("expected a fix, got {:?}", other),
    }
}

#[test]
fn south_and_east_hemispheres() {
    let r = decode(b"$GPGGA,123519,4807.038,S,01131.000,E,1,08,0.9,545.4,M,46.9,M,,*5A");
    match r {
        FixRecord::Fix(g) => {
            let lat = g.latitude.unwrap();
            let lon = g.longitude.unwrap();
            assert!(lat.negative);
            assert_eq!(lat.degrees, 48);
            assert_eq!(lat.minutes_digits, 7038);
            assert_eq!(lat.minutes_scale, 3);
            assert!(!lon.negative);
            assert_eq!(lon.degrees, 11);
            assert_eq!(lon.minutes_digits, 31000);
            assert_eq!(lon.minutes_scale, 3);
        }
        other => panic!("expected a fix, got {:?}", other),
    }
}

#[test]
fn negative_heights_decode() {
    let r = decode(b"$GPGGA,235959.99,0000.0000,N,18000.0000,W,8,12,25.5,-10.5,M,-2.0,M,,*48");
    match r {
        FixRecord::Fix(g) => {
            assert_eq!(g.fix_time, Some(UtcTime { hour: 23, minute: 59, second: 59 }));
            assert_eq!(g.fix_type, Some(FixType::Simulation));
            assert_eq!(g.altitude, Some(Decimal { negative: true, digits: 105, scale: 1 }));
            assert_eq!(
                g.geoid_separation,
                Some(Decimal { negative: true, digits: 20, scale: 1 })
            );
            let lon = g.longitude.unwrap();
            assert!(lon.negative);
            assert_eq!(lon.degrees, 180);
            assert_eq!(lon.minutes_digits, 0);
        }
        other => panic!("expected a fix, got {:?}", other),
    }
}

#[test]
fn non_gga_sentence_is_a_distinct_outcome() {
    let r = decode(b"$GPRMC,092750.000,A,5321.6802,N,00630.3372,W,0.02,31.66,280511,,,A*43");
    assert_eq!(r, FixRecord::NotGga);
}

#[test]
fn arbitrary_text_is_not_gga() {
    assert_eq!(decode(b"hello world"), FixRecord::NotGga);
    assert_eq!(decode(b""), FixRecord::NotGga);
    assert_eq!(decode(b"$GP"), FixRecord::NotGga);
}

#[test]
fn missing_checksum_is_tolerated() {
    let r = decode(b"$GPGGA,092750.000,5321.6802,N,00630.3372,W,1,8,1.03,61.7,M,55.2,M,,");
    assert!(matches!(r, FixRecord::Fix(_)));
}

#[test]
fn lowercase_checksum_digits_are_accepted() {
    let r = decode(b"$GPGGA,123519,4807.038,S,01131.000,E,1,08,0.9,545.4,M,46.9,M,,*5a");
    assert!(matches!(r, FixRecord::Fix(_)));
}

#[test]
fn trailing_bytes_after_checksum_are_malformed() {
    assert_eq!(
        decode(b"$GPGGA,092750.000,5321.6802,N,00630.3372,W,1,8,1.03,61.7,M,55.2,M,,*76X"),
        FixRecord::Malformed
    );
    assert_eq!(
        decode(b"$GPGGA,092750.000,5321.6802,N,00630.3372,W,1,8,1.03,61.7,M,55.2,M,,*76\r\n"),
        FixRecord::Malformed
    );
}

#[test]
fn checksum_mismatch_is_malformed() {
    let r = decode(b"$GPGGA,092750.000,5321.6802,N,00630.3372,W,1,8,1.03,61.7,M,55.2,M,,*77");
    assert_eq!(r, FixRecord::Malformed);
}

#[test]
fn mangled_checksum_tail_is_malformed() {
    assert_eq!(
        decode(b"$GPGGA,092750.000,5321.6802,N,00630.3372,W,1,8,1.03,61.7,M,55.2,M,,*7"),
        FixRecord::Malformed
    );
    assert_eq!(
        decode(b"$GPGGA,092750.000,5321.6802,N,00630.3372,W,1,8,1.03,61.7,M,55.2,M,,*7X"),
        FixRecord::Malformed
    );
}

#[test]
fn empty_fields_are_absent_not_errors() {
    let r = decode(b"$GPGGA,,,,,,,,,,,,,,*56");
    match r {
        FixRecord::Fix(g) => {
            assert_eq!(g.fix_time, None);
            assert_eq!(g.fix_type, None);
            assert_eq!(g.latitude, None);
            assert_eq!(g.longitude, None);
            assert_eq!(g.fix_satellites, None);
            assert_eq!(g.hdop, None);
            assert_eq!(g.altitude, None);
            assert_eq!(g.geoid_separation, None);
        }
        other => panic!("expected a fix, got {:?}", other),
    }
}

#[test]
fn bare_type_code_is_an_all_absent_fix() {
    assert!(matches!(decode(b"$GPGGA"), FixRecord::Fix(_)));
}

#[test]
fn bad_hemisphere_letter_is_malformed() {
    assert_eq!(
        decode(b"$GPGGA,092750.000,5321.6802,X,00630.3372,W,1,8,1.03,61.7,M,55.2,M,,"),
        FixRecord::Malformed
    );
    // A longitude letter on the latitude field is rejected too.
    assert_eq!(
        decode(b"$GPGGA,092750.000,5321.6802,E,00630.3372,W,1,8,1.03,61.7,M,55.2,M,,"),
        FixRecord::Malformed
    );
}

#[test]
fn unpaired_angle_is_malformed() {
    assert_eq!(
        decode(b"$GPGGA,092750.000,5321.6802,,00630.3372,W,1,8,1.03,61.7,M,55.2,M,,"),
        FixRecord::Malformed
    );
    assert_eq!(
        decode(b"$GPGGA,092750.000,,N,00630.3372,W,1,8,1.03,61.7,M,55.2,M,,"),
        FixRecord::Malformed
    );
}

#[test]
fn out_of_range_angles_are_malformed() {
    assert_eq!(
        decode(b"$GPGGA,092750.000,9100.0000,N,00630.3372,W,1,8,1.03,61.7,M,55.2,M,,"),
        FixRecord::Malformed
    );
    assert_eq!(
        decode(b"$GPGGA,092750.000,5321.6802,N,18100.0000,W,1,8,1.03,61.7,M,55.2,M,,"),
        FixRecord::Malformed
    );
    // 90 degrees exactly is still in range.
    assert!(matches!(
        decode(b"$GPGGA,092750.000,9000.0000,N,00630.3372,W,1,8,1.03,61.7,M,55.2,M,,"),
        FixRecord::Fix(_)
    ));
}

#[test]
fn non_numeric_fields_are_malformed() {
    assert_eq!(
        decode(b"$GPGGA,092750.000,53a1.6802,N,00630.3372,W,1,8,1.03,61.7,M,55.2,M,,"),
        FixRecord::Malformed
    );
    assert_eq!(
        decode(b"$GPGGA,092750.000,5321.6802,N,00630.3372,W,1,8x,1.03,61.7,M,55.2,M,,"),
        FixRecord::Malformed
    );
    assert_eq!(
        decode(b"$GPGGA,09z750.000,5321.6802,N,00630.3372,W,1,8,1.03,61.7,M,55.2,M,,"),
        FixRecord::Malformed
    );
}

#[test]
fn out_of_range_time_is_malformed() {
    assert_eq!(
        decode(b"$GPGGA,245959.000,5321.6802,N,00630.3372,W,1,8,1.03,61.7,M,55.2,M,,"),
        FixRecord::Malformed
    );
    assert_eq!(
        decode(b"$GPGGA,236059.000,5321.6802,N,00630.3372,W,1,8,1.03,61.7,M,55.2,M,,"),
        FixRecord::Malformed
    );
}

#[test]
fn bad_quality_digit_is_malformed() {
    assert_eq!(
        decode(b"$GPGGA,092750.000,5321.6802,N,00630.3372,W,9,8,1.03,61.7,M,55.2,M,,"),
        FixRecord::Malformed
    );
}

#[test]
fn negative_hdop_is_malformed() {
    assert_eq!(
        decode(b"$GPGGA,092750.000,5321.6802,N,00630.3372,W,1,8,-1.03,61.7,M,55.2,M,,"),
        FixRecord::Malformed
    );
}

#[test]
fn oversized_satellite_count_is_malformed() {
    assert_eq!(
        decode(b"$GPGGA,092750.000,5321.6802,N,00630.3372,W,1,4294967295,1.03,61.7,M,55.2,M,,"),
        FixRecord::Malformed
    );
}

#[test]
fn overlong_numeral_is_malformed() {
    // More than 18 digits cannot be kept exactly and voids the sentence.
    assert_eq!(
        decode(b"$GPGGA,092750.000,5321.68020000000000001,N,00630.3372,W,1,8,1.03,61.7,M,55.2,M,,"),
        FixRecord::Malformed
    );
}
