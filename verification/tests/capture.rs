use taptap::capture::{Reader, Writer};

#[test]
fn capture_round_trip() {
    let records: Vec<(Vec<u8>, u64)> = vec![
        (vec![], 0),
        (vec![0x01, 0x02, 0x03], 1_723_500_000_000),
        (vec![0xFF; 300], u64::MAX),
    ];

    let mut writer = Writer::new();
    for (data, ts) in &records {
        writer.write(data, *ts);
    }
    let file = writer.finish();

    let mut reader = Reader::new(&file).unwrap();
    for (data, ts) in &records {
        let (got_data, got_ts) = reader.next().unwrap().unwrap();
        assert_eq!(&got_data, data);
        assert_eq!(got_ts, *ts);
    }
    assert!(reader.next().is_none());
}

#[test]
fn oversized_write_splits_into_records() {
    let big = vec![0xABu8; 0xffff + 17];
    let mut writer = Writer::new();
    writer.write(&big, 42);
    let file = writer.finish();

    let mut reader = Reader::new(&file).unwrap();
    let (first, ts1) = reader.next().unwrap().unwrap();
    assert_eq!(first.len(), 0xffff);
    assert_eq!(ts1, 42);
    let (second, ts2) = reader.next().unwrap().unwrap();
    assert_eq!(second.len(), 17);
    assert_eq!(ts2, 42);
    assert!(reader.next().is_none());
    assert_eq!([first, second].concat(), big);
}

#[test]
fn truncated_record_reports_an_error() {
    // Frame one record by hand, cut its data short, and compress the result.
    let mut writer = Writer::new();
    writer.write(&[1, 2, 3, 4], 7);
    writer.buffer.truncate(writer.buffer.len() - 2);
    let file = writer.finish();

    let mut reader = Reader::new(&file).unwrap();
    assert!(matches!(reader.next(), Some(Err(_))));
    assert!(reader.next().is_none());
}

#[test]
fn garbage_is_not_a_capture_file() {
    assert!(Reader::new(&[0x00, 0x01, 0x02]).is_err());
}
