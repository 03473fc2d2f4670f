use nautical::iso_8211::data_descriptive_record::{
    ControlField, DataDescriptiveRecord, DirectoryEntry,
};
use nautical::iso_8211::data_record::DRLedger as StreamDRLedger;
use nautical::iso_8211::error::Iso8211Error;
use nautical::iso_8211::leader::{DDRLedger, DRLedger};
use nautical::iso_8211::parser::Parser;
use nautical::iso_8211::data_descriptive_record::DDRLedger as StreamDDRLedger;

#[test]
fn ddr_leader_from_slice() {
    let leader = b"001233LE1 0900045 ! 1204";
    let l = DDRLedger::parse(leader).unwrap();
    assert_eq!(l.record_length, 123);
    assert_eq!(l.field_area_base_address, 45);
    // The slice layout keeps the raw size bytes.
    assert_eq!(l.field_length_size, b'1');
    assert_eq!(l.field_position_size, b'2');
}

#[test]
fn ddr_leader_wrong_length() {
    assert_eq!(DDRLedger::parse(b"0012"), Err(Iso8211Error::IncorrectLength));
}

#[test]
fn ddr_leader_wrong_fixed_byte() {
    let leader = b"00123XLE1 0900045 ! 1204";
    assert_eq!(DDRLedger::parse(leader), Err(Iso8211Error::UnexpectedByte(b'3')));
}

#[test]
fn ddr_leader_bad_record_length() {
    let leader = b"0012x3LE1 0900045 ! 1204";
    assert_eq!(DDRLedger::parse(leader), Err(Iso8211Error::InvalidNumber));
}

#[test]
fn dr_leader_from_slice() {
    let leader = b"00999 D     00100   3404";
    let l = DRLedger::parse(leader).unwrap();
    assert_eq!(l.record_length, 999);
    assert_eq!(l.field_area_base_address, 100);
    assert_eq!(l.field_length_size, b'3');
    assert_eq!(l.field_position_size, b'4');
}

#[test]
fn stream_ddr_leader() {
    let mut p = Parser::new(b"000623LE1 0900032 ! 2204".to_vec());
    let l = StreamDDRLedger::parse(&mut p).unwrap();
    assert_eq!(l.record_length, 62);
    assert_eq!(l.field_area_base_address, 32);
    // The stream layout turns the size digits into values.
    assert_eq!(l.field_length_size, 2);
    assert_eq!(l.field_position_size, 2);
}

#[test]
fn stream_dr_leader() {
    let mut p = Parser::new(b"00047 D     00028   1104".to_vec());
    let l = StreamDRLedger::parse(&mut p).unwrap();
    assert_eq!(l.record_length, 47);
    assert_eq!(l.field_area_base_address, 28);
    assert_eq!(l.field_length_size, 1);
    assert_eq!(l.field_position_size, 1);
}

#[test]
fn stream_leader_truncated() {
    let mut p = Parser::new(b"000".to_vec());
    assert_eq!(StreamDDRLedger::parse(&mut p), Err(Iso8211Error::UnexpectedEof));
}

fn small_record() -> Vec<u8> {
    let mut data = Vec::new();
    // Leader: length 62, base address 32, both directory sizes 2.
    data.extend_from_slice(b"000623LE1 0900032 ! 2204");
    // One directory entry: tag `0000`, field length 19, position 0,
    // then the field terminator.
    data.extend_from_slice(b"00001900");
    data.push(0x1E);
    // Control field: fixed opening, the title, the unit terminator, and
    // one tag pair.
    data.extend_from_slice(b"0000;&   TITLE");
    data.push(0x1F);
    data.extend_from_slice(b"ABCDEFGH");
    data
}

#[test]
fn directory_entries_until_terminator() {
    let mut p = Parser::new(small_record()[24..].to_vec());
    let ledger = StreamDDRLedger {
        record_length: 62,
        field_area_base_address: 32,
        field_length_size: 2,
        field_position_size: 2,
    };
    let dir = DirectoryEntry::parse_all(&mut p, &ledger).unwrap();
    assert_eq!(dir.len(), 1);
    assert_eq!(dir[0].tag, *b"0000");
    assert_eq!(dir[0].field_length, 19);
    assert_eq!(dir[0].field_position, 0);
}

#[test]
fn control_field_title_and_pairs() {
    let record = small_record();
    let mut p = Parser::new(record[33..].to_vec());
    let ledger = StreamDDRLedger {
        record_length: 62,
        field_area_base_address: 32,
        field_length_size: 2,
        field_position_size: 2,
    };
    let entry = DirectoryEntry { tag: *b"0000", field_length: 19, field_position: 0 };
    let cf = ControlField::parse(&mut p, &ledger, &entry).unwrap();
    assert_eq!(cf.file_title, "TITLE");
    assert_eq!(cf.field_tag_pairs, vec![("ABCD".to_string(), "EFGH".to_string())]);
}

#[test]
fn whole_data_descriptive_record() {
    let mut p = Parser::new(small_record());
    let record = DataDescriptiveRecord::parse(&mut p).unwrap();
    assert_eq!(record.ledger.record_length, 62);
    assert_eq!(record.directory.len(), 1);
    assert_eq!(record.directory[0].tag, *b"0000");
}

#[test]
fn control_field_bad_opening() {
    let mut p = Parser::new(b"0001;&   T".to_vec());
    let ledger = StreamDDRLedger {
        record_length: 0,
        field_area_base_address: 0,
        field_length_size: 2,
        field_position_size: 2,
    };
    let entry = DirectoryEntry { tag: *b"0000", field_length: 11, field_position: 0 };
    assert_eq!(
        ControlField::parse(&mut p, &ledger, &entry),
        Err(Iso8211Error::UnexpectedByte(b'0'))
    );
}

#[test]
fn control_field_non_utf8_title() {
    let mut data = b"0000;&   ".to_vec();
    data.push(0xFF);
    data.push(0x1F);
    let mut p = Parser::new(data);
    let ledger = StreamDDRLedger {
        record_length: 0,
        field_area_base_address: 0,
        field_length_size: 2,
        field_position_size: 2,
    };
    let entry = DirectoryEntry { tag: *b"0000", field_length: 11, field_position: 0 };
    assert_eq!(
        ControlField::parse(&mut p, &ledger, &entry),
        Err(Iso8211Error::NonUtf8)
    );
}

#[test]
fn reader_primitives() {
    let mut p = Parser::new(b"hello\x1Eworld".to_vec());
    assert_eq!(p.peek(), Ok(b'h'));
    assert_eq!(p.next(), Ok(b'h'));
    assert_eq!(p.take_until(0x1E), Ok(b"ello".to_vec()));
    assert_eq!(p.read_string(5), Ok("world".to_string()));
    assert_eq!(p.is_eof(), Ok(true));
    assert_eq!(p.next(), Err(Iso8211Error::UnexpectedEof));
}

#[test]
fn reader_expect_bytes() {
    let mut p = Parser::new(b"abc".to_vec());
    assert_eq!(p.expect_bytes(b"ab"), Ok(()));
    assert_eq!(p.expect(b'x'), Err(Iso8211Error::UnexpectedByte(b'x')));
    assert_eq!(p.read_bytes(1), Err(Iso8211Error::UnexpectedEof));
}
