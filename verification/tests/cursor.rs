use nautical::error::ParseError;
use nautical::log::LogLevel;
use nautical::misc::delayed::{Delayed, DelayedResult};
use nautical::misc::parser::Parser;

#[test]
fn next_and_peek() {
    let mut p = Parser::new(b"ab");
    assert_eq!(p.peek(), Some(b'a'));
    assert_eq!(p.next(), Ok(b'a'));
    assert_eq!(p.next(), Ok(b'b'));
    assert_eq!(p.peek(), None);
    assert_eq!(p.next(), Err(ParseError::Incomplete));
}

#[test]
fn next_n_takes_exactly_the_rest() {
    // Taking exactly the remaining bytes succeeds; one more fails.
    let mut p = Parser::new(b"abcd");
    assert_eq!(p.next_n(2), Ok(&b"ab"[..]));
    assert_eq!(p.next_n(3), Err(ParseError::Incomplete));
    assert_eq!(p.next_n(2), Ok(&b"cd"[..]));
}

#[test]
fn skip_stops_at_end() {
    let mut p = Parser::new(b"abc");
    p.skip(2);
    assert_eq!(p.peek(), Some(b'c'));
    p.skip(10);
    assert_eq!(p.peek(), None);
}

#[test]
fn expect_consumes_even_on_mismatch() {
    let mut p = Parser::new(b"xy");
    assert_eq!(p.expect(b'a'), Err(ParseError::UnexpectedChar('a')));
    // The mismatching byte was consumed.
    assert_eq!(p.next(), Ok(b'y'));
}

#[test]
fn expect_bytes_walks_the_prefix() {
    let mut p = Parser::new(b"abcdef");
    assert_eq!(p.expect_bytes(b"abc"), Ok(()));
    assert_eq!(p.expect_bytes(b"dX"), Err(ParseError::UnexpectedChar('X')));
    assert_eq!(p.next(), Ok(b'f'));
}

#[test]
fn skip_if_and_skip_while() {
    let mut p = Parser::new(b"000a");
    assert!(!p.skip_if(b'a'));
    p.skip_while(b'0');
    assert!(p.skip_if(b'a'));
    assert_eq!(p.peek(), None);
}

#[test]
fn take_until_requires_the_delimiter() {
    let mut p = Parser::new(b"abc,def");
    assert_eq!(p.take_until(b','), Ok(&b"abc"[..]));
    assert_eq!(p.take_until(b','), Err(ParseError::Incomplete));
}

#[test]
fn take_until_or_end_tolerates_the_end() {
    let mut p = Parser::new(b"abc,def");
    assert_eq!(p.take_until_or_end(b','), &b"abc"[..]);
    assert_eq!(p.next(), Ok(b','));
    assert_eq!(p.take_until_or_end(b','), &b"def"[..]);
}

#[test]
fn take_while_is_maximal() {
    let mut p = Parser::new(b"aaab");
    let run = p.take_while(|b: u8| b == b'a');
    assert_eq!(run, &b"aaa"[..]);
    assert_eq!(p.next(), Ok(b'b'));
}

#[test]
fn assert_empty_reports_leftovers() {
    let mut p = Parser::new(b"a");
    assert_eq!(p.assert_empty(), Err(ParseError::RemainingData));
    let _ = p.next();
    assert_eq!(p.assert_empty(), Ok(()));
}

#[test]
fn remaining_str_borrows_the_rest() {
    let mut p = Parser::new(b"ab,cd");
    let _ = p.take_until(b',');
    assert_eq!(p.remaining_str(), "cd");
}

#[test]
fn delayed_value_lifecycle() {
    let d: Delayed<u32> = Delayed::new(1_000);
    assert!(matches!(d.get(1_000), DelayedResult::Undefined));
    let d = d.with_timeout(500).with_data(7);
    assert!(matches!(d.get(1_200), DelayedResult::Ready(&7)));
    assert!(matches!(d.get(1_500), DelayedResult::Ready(&7)));
    assert!(matches!(d.get(1_501), DelayedResult::Outdated));
}

#[test]
fn delayed_without_timeout_never_goes_stale() {
    let d: Delayed<u32> = Delayed::new(0).with_data(1);
    assert!(matches!(d.get(u64::MAX), DelayedResult::Ready(&1)));
}

#[test]
fn log_level_names() {
    assert_eq!(LogLevel::Info.name(), "INFO");
    assert_eq!(LogLevel::Warning.name(), "WARNING");
    assert_eq!(LogLevel::Error.name(), "ERROR");
}
