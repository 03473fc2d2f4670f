use nautical::consts::HISTORY_SAMPLES;
use nautical::error::ParseError;
use nautical::misc::decimal::Decimal;
use nautical::nmea_0183::checksum;
use nautical::nmea_0183::packets::active_satellites::Fix;
use nautical::nmea_0183::packets::geographic_position::Status;
use nautical::nmea_0183::stores::satellites::SnrAverage;
use nautical::nmea_0183::stores::Store;

fn dec(negative: bool, mantissa: u64, scale: usize) -> Decimal {
    Decimal { negative, mantissa, scale }
}

/// Appends the line's own checksum, computed over everything before `*`.
fn frame(body: &str) -> Vec<u8> {
    let mut line = body.as_bytes().to_vec();
    let cs = checksum(body.as_bytes());
    line.push(b'*');
    line.extend_from_slice(format!("{:02X}", cs).as_bytes());
    line
}

#[test]
fn position_fix_updates_location_fields() {
    let mut store = Store::new();
    store
        .handle_line(b"$GPGLL,4916.45,N,12311.12,W,225444,A,A*5C")
        .unwrap();
    assert_eq!(store.location.latitude.degrees, dec(false, 49, 0));
    assert_eq!(store.location.latitude.minutes, dec(false, 1645, 2));
    assert_eq!(store.location.longitude.negative, true);
    assert_eq!(store.location.longitude.degrees, dec(false, 123, 0));
    assert_eq!(store.location.longitude.minutes, dec(false, 1112, 2));
    assert_eq!(store.location.time.hour, 22);
    assert_eq!(store.location.status, Status::DataValid);
    // The fix and dilution group keeps its initial value.
    assert_eq!(store.location.fix, Fix::NoFix);
    assert_eq!(store.location.pdop, dec(false, 0, 0));
}

#[test]
fn active_satellites_update_fix_group_only() {
    let mut store = Store::new();
    store
        .handle_line(b"$GPGLL,4916.45,N,12311.12,W,225444,A,A*5C")
        .unwrap();
    store
        .handle_line(b"$GPGSA,A,3,04,05,,09,12,,,24,,,,,2.5,1.3,2.1*39")
        .unwrap();
    assert_eq!(store.location.fix, Fix::Fix3D);
    assert_eq!(store.location.pdop, dec(false, 25, 1));
    assert_eq!(store.location.hdop, dec(false, 13, 1));
    assert_eq!(store.location.vdop, dec(false, 21, 1));
    // The position group keeps the earlier fix.
    assert_eq!(store.location.time.hour, 22);
    assert_eq!(store.location.status, Status::DataValid);
}

#[test]
fn incomplete_view_group_stays_invisible() {
    // The first sentence of a three-sentence view must not yet update the
    // published satellites; only the completing sentence does, atomically.
    let mut store = Store::new();
    store
        .handle_line(
            b"$GPGSV,3,1,11,03,03,111,00,04,15,270,00,06,01,010,00,13,06,292,00*74",
        )
        .unwrap();
    assert_eq!(store.satellites.satellites.len(), 0);
    assert_eq!(store.satellites.avg_sdr_history.len(), 0);
    assert_eq!(store.satellites.in_view, 11);
}

#[test]
fn completed_view_group_publishes_atomically() {
    let mut store = Store::new();
    store
        .handle_line(
            b"$GPGSV,2,1,08,01,10,100,41,02,20,200,42,03,30,300,43,04,40,010,44*77",
        )
        .unwrap();
    assert_eq!(store.satellites.satellites.len(), 0);
    store
        .handle_line(
            b"$GPGSV,2,2,08,05,11,110,45,06,21,210,46,07,31,310,47,08,41,020,48*76",
        )
        .unwrap();
    // All eight satellites of the cycle appear at once.
    assert_eq!(store.satellites.satellites.len(), 8);
    let ids: Vec<u8> = store.satellites.satellites.iter().map(|s| s.id).collect();
    assert_eq!(ids, vec![1, 2, 3, 4, 5, 6, 7, 8]);
    assert_eq!(store.satellites.connected(), 8);
    // One mean sample was recorded: (41 + ... + 48) over 8.
    assert_eq!(store.satellites.avg_sdr_history.len(), 1);
    let sum: u128 = (41..=48).sum();
    assert_eq!(store.satellites.avg_sdr_history[0], SnrAverage { sum, count: 8 });
}

#[test]
fn checksum_mismatch_must_not_mutate_store() {
    let mut store = Store::new();
    store
        .handle_line(b"$GPGLL,4916.45,N,12311.12,W,225444,A,A*5C")
        .unwrap();
    let before = store.clone();
    let err = store.handle_line(b"$GPGLL,5000.00,N,12311.12,W,225444,A,A*5C");
    assert_eq!(err, Err(ParseError::InvalidChecksum));
    assert_eq!(store, before);
}

#[test]
fn unknown_type_must_not_mutate_store() {
    let mut store = Store::new();
    store
        .handle_line(b"$GPGLL,4916.45,N,12311.12,W,225444,A,A*5C")
        .unwrap();
    let before = store.clone();
    let err = store.handle_line(b"$GPRMC,A*26");
    assert_eq!(err, Err(ParseError::UnknownType(*b"RMC")));
    assert_eq!(store, before);
}

#[test]
fn history_keeps_fixed_capacity_fifo() {
    // Pushing more completed view cycles than the capacity leaves the
    // rolling history at exactly the capacity, oldest sample evicted
    // first.
    let mut store = Store::new();
    let extra = 3;
    for i in 0..(HISTORY_SAMPLES + extra) {
        let snr = i % 100;
        let line = frame(&format!("$GPGSV,1,1,01,07,,,{:02}", snr));
        store.handle_line(&line).unwrap();
    }
    assert_eq!(store.satellites.avg_sdr_history.len(), HISTORY_SAMPLES);
    // The oldest remaining sample is the one pushed right after the
    // evicted ones.
    assert_eq!(
        store.satellites.avg_sdr_history[0],
        SnrAverage { sum: (extra % 100) as u128, count: 1 }
    );
    let newest = store.satellites.avg_sdr_history[HISTORY_SAMPLES - 1];
    assert_eq!(
        newest,
        SnrAverage { sum: ((HISTORY_SAMPLES + extra - 1) % 100) as u128, count: 1 }
    );
}

#[test]
fn view_without_ratios_records_undefined_mean() {
    // A completed view where no satellite reports a ratio records a
    // sample with a count of zero: the mean is undefined, not zero.
    let mut store = Store::new();
    let line = frame("$GPGSV,1,1,01,07,,,");
    store.handle_line(&line).unwrap();
    assert_eq!(store.satellites.avg_sdr_history.len(), 1);
    assert_eq!(store.satellites.avg_sdr_history[0], SnrAverage { sum: 0, count: 0 });
    assert_eq!(store.satellites.connected(), 0);
}

#[test]
fn speed_and_text_sentences_leave_aggregates_alone() {
    let mut store = Store::new();
    store
        .handle_line(b"$GPGLL,4916.45,N,12311.12,W,225444,A,A*5C")
        .unwrap();
    let before = store.clone();
    store
        .handle_line(b"$GPVTG,054.7,T,034.4,M,005.5,N,010.2,K,A*25")
        .unwrap();
    store.handle_line(b"$GPTXT,01,01,25,HELLO^21*57").unwrap();
    assert_eq!(store, before);
}

#[test]
fn restarted_group_discards_stale_accumulation() {
    // When the numbering restarts before a cycle completes, the stale
    // never-completed satellites are discarded: the next published view
    // holds only the new cycle's satellites.
    let mut store = Store::new();
    let first = frame("$GPGSV,3,1,11,01,10,100,41,02,20,200,42,03,30,300,43,04,40,010,44");
    store.handle_line(&first).unwrap();
    assert_eq!(store.satellites.satellites.len(), 0);
    // A fresh single-sentence cycle begins instead of sentence two.
    let line = frame("$GPGSV,1,1,02,21,10,100,30,22,20,200,31");
    store.handle_line(&line).unwrap();
    let ids: Vec<u8> = store.satellites.satellites.iter().map(|s| s.id).collect();
    assert_eq!(ids, vec![21, 22]);
    assert_eq!(store.satellites.avg_sdr_history.len(), 1);
    assert_eq!(store.satellites.avg_sdr_history[0], SnrAverage { sum: 61, count: 2 });
}
