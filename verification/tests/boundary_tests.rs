//! The boundary record: sentinel encoding, the concrete scenarios and the
//! approximate decimal-degree values a floating-point caller derives.

use nmea_gga::parse_nmea_gga;
use nmea_gga::nmea_gga_altitude;
use nmea_gga::nmea_size;
use nmea_gga::record::{absent_gga_record, CGgaData, Coordinate, Decimal};

fn coordinate_to_degrees(c: &Coordinate) -> f64 {
    let minutes = c.minutes_digits as f64 / 10f64.powi(c.minutes_scale as i32);
    let magnitude = c.degrees as f64 + minutes / 60.0;
    if c.negative { -magnitude } else { magnitude }
}

fn decimal_to_f64(d: &Decimal) -> f64 {
    let magnitude = d.digits as f64 / 10f64.powi(d.scale as i32);
    if d.negative { -magnitude } else { magnitude }
}

fn assert_all_absent(c: &CGgaData) {
    assert_eq!(c.fix_hour, -1);
    assert_eq!(c.fix_minute, -1);
    assert_eq!(c.fix_second, -1);
    assert_eq!(c.fix_type, -1);
    assert_eq!(c.latitude, None);
    assert_eq!(c.longitude, None);
    assert_eq!(c.fix_satellites, -1);
    assert_eq!(c.hdop, None);
    assert_eq!(c.altitude, None);
    assert_eq!(c.geoid_separation, None);
}

#[test]
fn full_sentence_marshals_every_field() {
    let c = parse_nmea_gga(
        b"$GPGGA,092750.000,5321.6802,N,00630.3372,W,1,8,1.03,61.7,M,55.2,M,,*76",
    );
    assert_eq!(c.fix_hour, 9);
    assert_eq!(c.fix_minute, 27);
    assert_eq!(c.fix_second, 50);
    assert_eq!(c.fix_type, 1);
    assert_eq!(c.fix_satellites, 8);
    let lat = c.latitude.expect("latitude present");
    let lon = c.longitude.expect("longitude present");
    assert!((coordinate_to_degrees(&lat) - 53.36134).abs() < 1e-5);
    assert!((coordinate_to_degrees(&lon) - (-6.50562)).abs() < 1e-5);
    assert!((decimal_to_f64(&c.hdop.expect("hdop present")) - 1.03).abs() < 1e-9);
    assert!((decimal_to_f64(&c.altitude.expect("altitude present")) - 61.7).abs() < 1e-9);
    assert!(
        (decimal_to_f64(&c.geoid_separation.expect("geoid separation present")) - 55.2).abs()
            < 1e-9
    );
}

#[test]
fn emptied_altitude_is_the_only_sentinel() {
    let c = parse_nmea_gga(
        b"$GPGGA,092750.000,5321.6802,N,00630.3372,W,1,8,1.03,,M,55.2,M,,*68",
    );
    assert_eq!(c.altitude, None);
    assert_eq!(c.fix_hour, 9);
    assert_eq!(c.fix_minute, 27);
    assert_eq!(c.fix_second, 50);
    assert_eq!(c.fix_type, 1);
    assert_eq!(c.fix_satellites, 8);
    assert!(c.latitude.is_some());
    assert!(c.longitude.is_some());
    assert!(c.hdop.is_some());
    assert!(c.geoid_separation.is_some());
}

#[test]
fn hemisphere_sign_rule() {
    let c = parse_nmea_gga(
        b"$GPGGA,092750.000,5321.6802,N,00630.3372,W,1,8,1.03,61.7,M,55.2,M,,*76",
    );
    assert!(coordinate_to_degrees(&c.latitude.unwrap()) > 0.0);
    assert!(coordinate_to_degrees(&c.longitude.unwrap()) < 0.0);
    let d = parse_nmea_gga(b"$GPGGA,123519,4807.038,S,01131.000,E,1,08,0.9,545.4,M,46.9,M,,*5A");
    assert!(coordinate_to_degrees(&d.latitude.unwrap()) < 0.0);
    assert!(coordinate_to_degrees(&d.longitude.unwrap()) > 0.0);
}

#[test]
fn non_gga_marshals_all_absent() {
    let c = parse_nmea_gga(
        b"$GPRMC,092750.000,A,5321.6802,N,00630.3372,W,0.02,31.66,280511,,,A*43",
    );
    assert_all_absent(&c);
}

#[test]
fn checksum_mismatch_marshals_all_absent() {
    let c = parse_nmea_gga(
        b"$GPGGA,092750.000,5321.6802,N,00630.3372,W,1,8,1.03,61.7,M,55.2,M,,*00",
    );
    assert_all_absent(&c);
}

#[test]
fn absent_record_for_null_or_undecodable_input() {
    // A caller holding a null pointer or undecodable bytes reports this
    // record, unconditionally and without failing.
    let c = absent_gga_record();
    assert_all_absent(&c);
    let again = absent_gga_record();
    assert_eq!(c, again);
}

#[test]
fn decode_is_idempotent_and_bit_stable() {
    let text: &[u8] = b"$GPGGA,092750.000,5321.6802,N,00630.3372,W,1,8,1.03,61.7,M,55.2,M,,*76";
    let a = parse_nmea_gga(text);
    let b = parse_nmea_gga(text);
    assert_eq!(a, b);
    let lat_a = a.latitude.unwrap();
    let lat_b = b.latitude.unwrap();
    assert_eq!(
        coordinate_to_degrees(&lat_a).to_bits(),
        coordinate_to_degrees(&lat_b).to_bits()
    );
}

#[test]
fn altitude_lookup_matches_decode() {
    let alt = nmea_gga_altitude(
        b"$GPGGA,092750.000,5321.6802,N,00630.3372,W,1,8,1.03,61.7,M,55.2,M,,*76",
    );
    assert_eq!(alt, Some(Decimal { negative: false, digits: 617, scale: 1 }));
    assert_eq!(
        nmea_gga_altitude(b"$GPRMC,092750.000,A,5321.6802,N,00630.3372,W,0.02,31.66,280511,,,A*43"),
        None
    );
    assert_eq!(
        nmea_gga_altitude(b"$GPGGA,092750.000,5321.6802,N,00630.3372,W,1,8,1.03,,M,55.2,M,,*68"),
        None
    );
}

#[test]
fn record_size_is_reported() {
    assert!(nmea_size() > 0);
}
