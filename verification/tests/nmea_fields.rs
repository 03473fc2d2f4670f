use nautical::error::ParseError;
use nautical::misc::decimal::{parse_decimal_text, Decimal};
use nautical::misc::parser::Parser;
use nautical::nmea_0183::coordinate::Coordinate;
use nautical::nmea_0183::faa_mode::FaaMode;
use nautical::nmea_0183::time::Time;

fn dec(negative: bool, mantissa: u64, scale: usize) -> Decimal {
    Decimal { negative, mantissa, scale }
}

fn field_parser(data: &[u8]) -> Parser<'_> {
    Parser::new(data).take_on_parse(b',')
}

#[test]
fn u8_field_simple() {
    let mut p = field_parser(b"42,7");
    assert_eq!(p.parse_u8(), Ok(42));
    assert_eq!(p.parse_u8(), Ok(7));
}

#[test]
fn u8_field_overflow_is_invalid() {
    let mut p = field_parser(b"300,");
    assert_eq!(p.parse_u8(), Err(ParseError::InvalidNumber));
}

#[test]
fn u8_field_empty_is_invalid() {
    let mut p = field_parser(b",5");
    assert_eq!(p.parse_u8(), Err(ParseError::InvalidNumber));
    // The separator step consumed the comma, so the next field is readable.
    assert_eq!(p.parse_u8(), Ok(5));
}

#[test]
fn u8_field_leading_zeros() {
    let mut p = field_parser(b"00255,");
    assert_eq!(p.parse_u8(), Ok(255));
}

#[test]
fn u16_field_bounds() {
    let mut p = field_parser(b"65535,65536");
    assert_eq!(p.parse_u16(), Ok(65535));
    assert_eq!(p.parse_u16(), Err(ParseError::InvalidNumber));
}

#[test]
fn i8_field_signs() {
    let mut p = field_parser(b"-128,+127,12,128");
    assert_eq!(p.parse_i8(), Ok(-128));
    assert_eq!(p.parse_i8(), Ok(127));
    assert_eq!(p.parse_i8(), Ok(12));
    assert_eq!(p.parse_i8(), Err(ParseError::InvalidNumber));
}

#[test]
fn i8_field_double_sign_is_invalid() {
    let mut p = field_parser(b"--5,");
    assert_eq!(p.parse_i8(), Err(ParseError::InvalidNumber));
}

#[test]
fn decimal_field_exact_parts() {
    let mut p = field_parser(b"16.45,-0.5,5.,.5,054.7");
    assert_eq!(p.parse_decimal(), Ok(dec(false, 1645, 2)));
    assert_eq!(p.parse_decimal(), Ok(dec(true, 5, 1)));
    assert_eq!(p.parse_decimal(), Ok(dec(false, 5, 0)));
    assert_eq!(p.parse_decimal(), Ok(dec(false, 5, 1)));
    assert_eq!(p.parse_decimal(), Ok(dec(false, 547, 1)));
}

#[test]
fn decimal_text_rejects_malformed() {
    assert_eq!(parse_decimal_text(b""), Err(ParseError::InvalidFloat));
    assert_eq!(parse_decimal_text(b"."), Err(ParseError::InvalidFloat));
    assert_eq!(parse_decimal_text(b"+"), Err(ParseError::InvalidFloat));
    assert_eq!(parse_decimal_text(b"1.2.3"), Err(ParseError::InvalidFloat));
    assert_eq!(parse_decimal_text(b"12a"), Err(ParseError::InvalidFloat));
    // An exponent part needs its digits.
    assert_eq!(parse_decimal_text(b"1e"), Err(ParseError::InvalidFloat));
    assert_eq!(parse_decimal_text(b"1e+"), Err(ParseError::InvalidFloat));
    assert_eq!(parse_decimal_text(b"1e2.5"), Err(ParseError::InvalidFloat));
}

#[test]
fn decimal_text_applies_exponents() {
    // A positive exponent shifts the mantissa, a negative one grows the
    // scale; both stay exact.
    assert_eq!(parse_decimal_text(b"1e2"), Ok(dec(false, 100, 0)));
    assert_eq!(parse_decimal_text(b"2.5E10"), Ok(dec(false, 25000000000, 0)));
    assert_eq!(parse_decimal_text(b"1.5e-3"), Ok(dec(false, 15, 4)));
    assert_eq!(parse_decimal_text(b"-4e+1"), Ok(dec(true, 40, 0)));
    assert_eq!(parse_decimal_text(b"12.34e1"), Ok(dec(false, 1234, 1)));
    assert_eq!(parse_decimal_text(b"0e999999"), Ok(dec(false, 0, 0)));
}

#[test]
fn decimal_text_exponent_beyond_exact_range() {
    // A shifted mantissa that leaves the exact range has no
    // representation here.
    assert_eq!(parse_decimal_text(b"1e300"), Err(ParseError::InvalidFloat));
    assert_eq!(
        parse_decimal_text(b"2e19"),
        Err(ParseError::InvalidFloat)
    );
    assert_eq!(parse_decimal_text(b"1e19"), Ok(dec(false, 10000000000000000000, 0)));
}

#[test]
fn decimal_text_mantissa_overflow() {
    assert_eq!(
        parse_decimal_text(b"99999999999999999999999999"),
        Err(ParseError::InvalidFloat)
    );
    assert_eq!(
        parse_decimal_text(b"18446744073709551615"),
        Ok(dec(false, u64::MAX, 0))
    );
}

#[test]
fn string_field_decodes_escapes() {
    let mut p = field_parser(b"AB^43D,rest");
    assert_eq!(p.parse_string(), Ok(b"ABCD".to_vec()));
    assert_eq!(p.parse_string(), Ok(b"rest".to_vec()));
}

#[test]
fn string_field_truncated_escape_is_incomplete() {
    let mut p = field_parser(b"AB^4");
    assert_eq!(p.parse_string(), Err(ParseError::Incomplete));
}

#[test]
fn string_field_bad_escape_is_invalid() {
    let mut p = field_parser(b"AB^zz");
    assert_eq!(p.parse_string(), Err(ParseError::InvalidNumber));
}

#[test]
fn coordinate_regular() {
    let mut p = field_parser(b"4916.45,N,");
    let c = Coordinate::parse(&mut p).unwrap();
    assert_eq!(c.negative, false);
    assert_eq!(c.degrees, dec(false, 49, 0));
    assert_eq!(c.minutes, dec(false, 1645, 2));
    // The exact parts stand for about 49.274 degrees.
    let value = 49.0_f32 + 16.45_f32 / 60.0_f32;
    assert!((value - 49.274).abs() < 0.001);
}

#[test]
fn coordinate_south_is_negative() {
    let mut p = field_parser(b"4916.45,S,");
    let c = Coordinate::parse(&mut p).unwrap();
    assert_eq!(c.negative, true);
    assert_eq!(c.degrees, dec(false, 49, 0));
}

#[test]
fn coordinate_empty_field_is_zero() {
    // A coordinate field left empty decodes to zero degrees without error.
    let mut p = field_parser(b",,N,");
    let c = Coordinate::parse(&mut p).unwrap();
    assert_eq!(c, Coordinate::new());
    assert_eq!(c.degrees, dec(false, 0, 0));
    assert_eq!(c.minutes, dec(false, 0, 0));
    assert_eq!(c.negative, false);
}

#[test]
fn coordinate_longitude_keeps_three_degree_digits() {
    // A longitude carries three degree digits: everything before the last
    // two integer digits is whole degrees.
    let mut p = field_parser(b"12311.12,W,");
    let c = Coordinate::parse(&mut p).unwrap();
    assert_eq!(c.negative, true);
    assert_eq!(c.degrees, dec(false, 123, 0));
    assert_eq!(c.minutes, dec(false, 1112, 2));
    let value = -(123.0_f64 + 11.12_f64 / 60.0_f64);
    assert!((value - (-123.185)).abs() < 0.001);
}

#[test]
fn coordinate_strips_zero_padding() {
    // The zero padding is stripped before the value splits into degrees
    // and minutes.
    let mut p = field_parser(b"0916.45,N,");
    let c = Coordinate::parse(&mut p).unwrap();
    assert_eq!(c.degrees, dec(false, 9, 0));
    assert_eq!(c.minutes, dec(false, 1645, 2));
}

#[test]
fn coordinate_short_value_is_minutes_only() {
    // A value with fewer than two integer digits holds no whole degrees.
    let mut p = field_parser(b"1.5,N,");
    let c = Coordinate::parse(&mut p).unwrap();
    assert_eq!(c.degrees, dec(false, 0, 0));
    assert_eq!(c.minutes, dec(false, 15, 1));
}

#[test]
fn coordinate_bad_direction() {
    let mut p = field_parser(b"4916.45,X,");
    assert_eq!(Coordinate::parse(&mut p), Err(ParseError::UnexpectedChar('X')));
}

#[test]
fn time_fixed_layout() {
    let mut p = field_parser(b"225444,");
    let t = Time::parse(&mut p).unwrap();
    assert_eq!(t.hour, 22);
    assert_eq!(t.min, 54);
    assert_eq!(t.sec, dec(false, 44, 0));
}

#[test]
fn time_with_fraction() {
    let mut p = field_parser(b"064512.25,");
    let t = Time::parse(&mut p).unwrap();
    assert_eq!(t.hour, 6);
    assert_eq!(t.min, 45);
    assert_eq!(t.sec, dec(false, 1225, 2));
}

#[test]
fn time_too_short_is_incomplete() {
    let mut p = field_parser(b"225");
    assert_eq!(Time::parse(&mut p), Err(ParseError::Incomplete));
}

#[test]
fn faa_mode_table() {
    assert_eq!(FaaMode::from_char('A'), Some(FaaMode::Autonomous));
    assert_eq!(FaaMode::from_char('C'), Some(FaaMode::Caution));
    assert_eq!(FaaMode::from_char('D'), Some(FaaMode::Differential));
    assert_eq!(FaaMode::from_char('E'), Some(FaaMode::Estimated));
    assert_eq!(FaaMode::from_char('F'), Some(FaaMode::RtkFloat));
    assert_eq!(FaaMode::from_char('M'), Some(FaaMode::ManualInput));
    assert_eq!(FaaMode::from_char('N'), Some(FaaMode::DataNotValid));
    assert_eq!(FaaMode::from_char('P'), Some(FaaMode::Precise));
    assert_eq!(FaaMode::from_char('R'), Some(FaaMode::RtkInteger));
    assert_eq!(FaaMode::from_char('S'), Some(FaaMode::Simulated));
    assert_eq!(FaaMode::from_char('U'), Some(FaaMode::Unsafe));
    assert_eq!(FaaMode::from_char('X'), None);
}

#[test]
fn faa_mode_field_rejects_unknown() {
    let mut p = field_parser(b"Q,");
    assert_eq!(FaaMode::parse(&mut p), Err(ParseError::UnexpectedChar('Q')));
}
