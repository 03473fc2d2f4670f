use nautical::error::ParseError;
use nautical::misc::decimal::Decimal;
use nautical::nmea_0183::checksum;
use nautical::nmea_0183::faa_mode::FaaMode;
use nautical::nmea_0183::packets::active_satellites::{Fix, SatelliteId, SelectionMode};
use nautical::nmea_0183::packets::geographic_position::Status;
use nautical::nmea_0183::packets::satellites_in_view::Satellite;
use nautical::nmea_0183::{Message, Sentence};

fn dec(negative: bool, mantissa: u64, scale: usize) -> Decimal {
    Decimal { negative, mantissa, scale }
}

#[test]
fn checksum_excludes_framing_bytes() {
    // The XOR leaves out `$`, `I` and `*`.
    assert_eq!(checksum(b"$AB*"), b'A' ^ b'B');
    assert_eq!(checksum(b"AIB"), b'A' ^ b'B');
    assert_eq!(checksum(b""), 0);
}

#[test]
fn accepts_own_checksum_gll() {
    // A captured sample line must pass its own checksum and decode.
    let msg = Message::parse(b"$GPGLL,4916.45,N,12311.12,W,225444,A,A*5C").unwrap();
    assert_eq!(msg.identifier, *b"GP");
    let g = match msg.message {
        Sentence::Gll(g) => g,
        other => panic!("wrong sentence: {:?}", other),
    };
    // Latitude 49 degrees 16.45 minutes north: about 49.274 degrees.
    assert_eq!(g.latitude.negative, false);
    assert_eq!(g.latitude.degrees, dec(false, 49, 0));
    assert_eq!(g.latitude.minutes, dec(false, 1645, 2));
    let lat = 49.0_f64 + 16.45_f64 / 60.0_f64;
    assert!((lat - 49.274).abs() < 0.001);
    // West longitude is negative: 123 degrees 11.12 minutes, about
    // -123.185 degrees.
    assert_eq!(g.longitude.negative, true);
    assert_eq!(g.longitude.degrees, dec(false, 123, 0));
    assert_eq!(g.longitude.minutes, dec(false, 1112, 2));
    let lon = -(123.0_f64 + 11.12_f64 / 60.0_f64);
    assert!((lon - (-123.185)).abs() < 0.001);
    assert_eq!(g.time.hour, 22);
    assert_eq!(g.time.min, 54);
    assert_eq!(g.time.sec, dec(false, 44, 0));
    assert_eq!(g.status, Status::DataValid);
    assert_eq!(g.mode, FaaMode::Autonomous);
}

#[test]
fn rejects_corrupted_line() {
    // Flipping one bit inside the covered span breaks the checksum.
    let good = b"$GPGLL,4916.45,N,12311.12,W,225444,A,A*5C";
    let mut bad = good.to_vec();
    bad[8] ^= 0x01;
    assert_eq!(Message::parse(&bad), Err(ParseError::InvalidChecksum));
}

#[test]
fn first_of_group_gsv_decodes() {
    let msg = Message::parse(
        b"$GPGSV,3,1,11,03,03,111,00,04,15,270,00,06,01,010,00,13,06,292,00*74",
    )
    .unwrap();
    let v = match msg.message {
        Sentence::Gsv(v) => v,
        other => panic!("wrong sentence: {:?}", other),
    };
    assert_eq!(v.total_in_group, 3);
    assert_eq!(v.sentence_number, 1);
    assert_eq!(v.in_view, 11);
    assert_eq!(
        v.satellites,
        vec![
            Satellite { id: 3, elevation: Some(3), azimuth: Some(111), snr: Some(0) },
            Satellite { id: 4, elevation: Some(15), azimuth: Some(270), snr: Some(0) },
            Satellite { id: 6, elevation: Some(1), azimuth: Some(10), snr: Some(0) },
            Satellite { id: 13, elevation: Some(6), azimuth: Some(292), snr: Some(0) },
        ]
    );
}

#[test]
fn gsa_with_blank_slots() {
    let msg = Message::parse(b"$GPGSA,A,3,04,05,,09,12,,,24,,,,,2.5,1.3,2.1*39").unwrap();
    let a = match msg.message {
        Sentence::Gsa(a) => a,
        other => panic!("wrong sentence: {:?}", other),
    };
    assert_eq!(a.selection, SelectionMode::Automatic);
    assert_eq!(a.fix, Fix::Fix3D);
    assert_eq!(
        a.satellites,
        vec![SatelliteId(4), SatelliteId(5), SatelliteId(9), SatelliteId(12), SatelliteId(24)]
    );
    assert_eq!(a.pdop, dec(false, 25, 1));
    assert_eq!(a.hdop, dec(false, 13, 1));
    assert_eq!(a.vdop, dec(false, 21, 1));
}

#[test]
fn vtg_all_fields() {
    let msg = Message::parse(b"$GPVTG,054.7,T,034.4,M,005.5,N,010.2,K,A*25").unwrap();
    let g = match msg.message {
        Sentence::Vtg(g) => g,
        other => panic!("wrong sentence: {:?}", other),
    };
    assert_eq!(g.course_true, Some(dec(false, 547, 1)));
    assert_eq!(g.course_magnetic, Some(dec(false, 344, 1)));
    assert_eq!(g.speed_knots, Some(dec(false, 55, 1)));
    assert_eq!(g.speed_kph, Some(dec(false, 102, 1)));
    assert_eq!(g.faa_mode, FaaMode::Autonomous);
}

#[test]
fn vtg_empty_fields_stay_absent() {
    // An empty numeric field is absent, which is not the same as zero.
    let line = frame(b"$GPVTG,,T,,M,,N,,K,N");
    let msg = Message::parse(&line).unwrap();
    let g = match msg.message {
        Sentence::Vtg(g) => g,
        other => panic!("wrong sentence: {:?}", other),
    };
    assert_eq!(g.course_true, None);
    assert_eq!(g.course_magnetic, None);
    assert_eq!(g.speed_knots, None);
    assert_eq!(g.speed_kph, None);
    assert_eq!(g.faa_mode, FaaMode::DataNotValid);
}

#[test]
fn txt_decodes_escapes() {
    let msg = Message::parse(b"$GPTXT,01,01,25,HELLO^21*57").unwrap();
    let t = match msg.message {
        Sentence::Txt(t) => t,
        other => panic!("wrong sentence: {:?}", other),
    };
    assert_eq!(t.total_sentences, 1);
    assert_eq!(t.sentence_number, 1);
    assert_eq!(t.text_identifier, 25);
    assert_eq!(t.message, b"HELLO!".to_vec());
}

#[test]
fn unknown_type_carries_code() {
    // An unrecognized 3-letter code is reported with its exact bytes.
    assert_eq!(
        Message::parse(b"$GPRMC,A*26"),
        Err(ParseError::UnknownType(*b"RMC"))
    );
}

#[test]
fn missing_prefix() {
    assert_eq!(Message::parse(b"GPGLL,4916.45,N*00"), Err(ParseError::MissingPrefix));
    assert_eq!(Message::parse(b""), Err(ParseError::MissingPrefix));
}

#[test]
fn too_short_line() {
    assert_eq!(Message::parse(b"$GPGLL*5"), Err(ParseError::IncorrectLength));
}

#[test]
fn bad_checksum_digits() {
    assert_eq!(
        Message::parse(b"$GPGLL,4916.45,N,12311.12,W,225444,A,A*ZZ"),
        Err(ParseError::InvalidNumber)
    );
}

#[test]
fn trailing_field_is_remaining_data() {
    let line = frame(b"$GPGLL,4916.45,N,12311.12,W,225444,A,A,X");
    assert_eq!(Message::parse(&line), Err(ParseError::RemainingData));
}

/// Appends the line's own checksum, computed over everything before `*`.
fn frame(body: &[u8]) -> Vec<u8> {
    let mut line = body.to_vec();
    let cs = checksum(body);
    line.push(b'*');
    line.extend_from_slice(format!("{:02X}", cs).as_bytes());
    line
}

#[test]
fn gsv_tolerates_trailing_blank_records() {
    // Some receivers pad the last sentence of a cycle with empty
    // satellite slots; the decoder stops at the first record without an
    // id and does not examine the rest.
    let msg = Message::parse(
        b"$GPGSV,3,3,11,22,42,067,42,24,14,311,43,27,05,244,00,,,,*4D",
    )
    .unwrap();
    let v = match msg.message {
        Sentence::Gsv(v) => v,
        other => panic!("wrong sentence: {:?}", other),
    };
    assert_eq!(v.satellites.len(), 3);
    assert_eq!(v.satellites[2].id, 27);
}

#[test]
fn gsa_trailing_field_is_remaining_data() {
    // Every sentence decoder must consume its whole field list.
    let line = frame(b"$GPGSA,A,3,04,05,,09,12,,,24,,,,,2.5,1.3,2.1,X");
    assert_eq!(Message::parse(&line), Err(ParseError::RemainingData));
}
