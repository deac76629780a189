//! The textual side: period names, decimal session ids, record lines and
//! the log as a whole.

use pocket_reminder::decimal::{parse_dec_i64, push_dec_i64};
use pocket_reminder::log::{append_line, parse_log, split_lines};
use pocket_reminder::period::Period;
use pocket_reminder::record::{credential_ok, encode_record, parse_record, PersistedRecord};

const ANCHOR_2021: i64 = 1609459200; // Fri, 01 Jan 2021 00:00:00 +0000

fn record(session_id: i64, credential: &[u8], anchor: i64, period: Period) -> PersistedRecord {
    PersistedRecord {
        session_id,
        credential: credential.to_vec(),
        anchor,
        period,
    }
}

#[test]
fn period_names_round_trip() {
    let all = [
        Period::Minute,
        Period::Hour,
        Period::ThreeHours,
        Period::SixHours,
        Period::TwelveHours,
        Period::Day,
    ];
    for p in all {
        let name = p.name();
        let back = Period::from_name(name.as_slice()).expect("known name must parse");
        assert_eq!(back, p);
    }
    assert_eq!(Period::from_name(b"week"), None);
    assert_eq!(Period::from_name(b""), None);
    assert_eq!(Period::from_name(b"Day"), None);
}

#[test]
fn period_name_texts() {
    assert_eq!(Period::Minute.name(), b"minute".to_vec());
    assert_eq!(Period::ThreeHours.name(), b"three_hours".to_vec());
    assert_eq!(Period::Day.name(), b"day".to_vec());
}

#[test]
fn period_durations() {
    assert_eq!(Period::Minute.seconds(), 60);
    assert_eq!(Period::Hour.seconds(), 3600);
    assert_eq!(Period::ThreeHours.seconds(), 10800);
    assert_eq!(Period::SixHours.seconds(), 21600);
    assert_eq!(Period::TwelveHours.seconds(), 43200);
    assert_eq!(Period::Day.seconds(), 86400);
}

#[test]
fn decimal_encodes_exact_texts() {
    let mut buf: Vec<u8> = Vec::new();
    push_dec_i64(&mut buf, 0);
    assert_eq!(buf, b"0".to_vec());
    let mut buf: Vec<u8> = Vec::new();
    push_dec_i64(&mut buf, -42);
    assert_eq!(buf, b"-42".to_vec());
    let mut buf: Vec<u8> = Vec::new();
    push_dec_i64(&mut buf, i64::MAX);
    assert_eq!(buf, b"9223372036854775807".to_vec());
    let mut buf: Vec<u8> = Vec::new();
    push_dec_i64(&mut buf, i64::MIN);
    assert_eq!(buf, b"-9223372036854775808".to_vec());
}

#[test]
fn decimal_parses_strictly() {
    assert_eq!(parse_dec_i64(b"0"), Some(0));
    assert_eq!(parse_dec_i64(b"42"), Some(42));
    assert_eq!(parse_dec_i64(b"-42"), Some(-42));
    assert_eq!(parse_dec_i64(b"9223372036854775807"), Some(i64::MAX));
    assert_eq!(parse_dec_i64(b"-9223372036854775808"), Some(i64::MIN));
    assert_eq!(parse_dec_i64(b"9223372036854775808"), None);
    assert_eq!(parse_dec_i64(b"-9223372036854775809"), None);
    assert_eq!(parse_dec_i64(b""), None);
    assert_eq!(parse_dec_i64(b"-"), None);
    assert_eq!(parse_dec_i64(b"007"), None);
    assert_eq!(parse_dec_i64(b"-0"), None);
    assert_eq!(parse_dec_i64(b"+42"), None);
    assert_eq!(parse_dec_i64(b"4 2"), None);
    assert_eq!(parse_dec_i64(b"12x"), None);
    assert_eq!(parse_dec_i64(b"99999999999999999999999999"), None);
}

#[test]
fn record_encodes_exact_line() {
    let rec = record(42, b"tok", ANCHOR_2021, Period::Day);
    let line = encode_record(&rec);
    assert_eq!(line, b"42::tok::Fri, 1 Jan 2021 00:00:00 +0000::day".to_vec());
}

#[test]
fn record_round_trips_for_every_period() {
    let all = [
        Period::Minute,
        Period::Hour,
        Period::ThreeHours,
        Period::SixHours,
        Period::TwelveHours,
        Period::Day,
    ];
    for p in all {
        let rec = record(42, b"tok", ANCHOR_2021 + 12345, p);
        let line = encode_record(&rec);
        let back = parse_record(line.as_slice()).expect("encoded record must parse");
        assert_eq!(back.session_id, rec.session_id);
        assert_eq!(back.credential, rec.credential);
        assert_eq!(back.anchor, rec.anchor);
        assert_eq!(back.period, rec.period);
    }
}

#[test]
fn record_round_trips_awkward_fields() {
    for (id, cred) in [
        (-7i64, b"a:b".to_vec()),
        (0, b"".to_vec()),
        (i64::MAX, b":starts:with:colon".to_vec()),
        (i64::MIN, b"t0k-3n_~".to_vec()),
    ] {
        let rec = record(id, cred.as_slice(), ANCHOR_2021, Period::Hour);
        let line = encode_record(&rec);
        let back = parse_record(line.as_slice()).expect("encoded record must parse");
        assert_eq!(back.session_id, id);
        assert_eq!(back.credential, cred);
        assert_eq!(back.anchor, ANCHOR_2021);
        assert_eq!(back.period, Period::Hour);
    }
}

#[test]
fn record_parses_literal_line() {
    let back = parse_record(b"42::tok::Fri, 1 Jan 2021 00:00:00 +0000::day")
        .expect("literal line must parse");
    assert_eq!(back.session_id, 42);
    assert_eq!(back.credential, b"tok".to_vec());
    assert_eq!(back.anchor, ANCHOR_2021);
    assert_eq!(back.period, Period::Day);
}

#[test]
fn record_rejects_malformed_lines() {
    // too few fields
    assert!(parse_record(b"42::tok::day").is_none());
    // empty line
    assert!(parse_record(b"").is_none());
    // non-canonical session id
    assert!(parse_record(b"042::tok::Fri, 1 Jan 2021 00:00:00 +0000::day").is_none());
    // session id not a number
    assert!(parse_record(b"abc::tok::Fri, 1 Jan 2021 00:00:00 +0000::day").is_none());
    // unparsable timestamp
    assert!(parse_record(b"42::tok::yesterday::day").is_none());
    // unknown period name
    assert!(parse_record(b"42::tok::Fri, 1 Jan 2021 00:00:00 +0000::fortnight").is_none());
    // trailing extra field ends up inside the period name
    assert!(parse_record(b"42::tok::Fri, 1 Jan 2021 00:00:00 +0000::day::extra").is_none());
}

#[test]
fn credentials_the_format_preserves() {
    assert!(credential_ok(b"tok"));
    assert!(credential_ok(b""));
    assert!(credential_ok(b"a:b"));
    assert!(credential_ok(b":leading"));
    // The delimiter itself, a line feed, or a trailing colon would break
    // the line apart.
    assert!(!credential_ok(b"a::b"));
    assert!(!credential_ok(b"a\nb"));
    assert!(!credential_ok(b"trailing:"));
}

#[test]
fn split_lines_terminator_style() {
    let lines = split_lines(b"a\nbc\n");
    assert_eq!(lines, vec![b"a".to_vec(), b"bc".to_vec()]);
    let lines = split_lines(b"a\nbc");
    assert_eq!(lines, vec![b"a".to_vec(), b"bc".to_vec()]);
    let lines = split_lines(b"");
    assert!(lines.is_empty());
    let lines = split_lines(b"\n");
    assert_eq!(lines, vec![b"".to_vec()]);
    let lines = split_lines(b"a\n\nb");
    assert_eq!(lines, vec![b"a".to_vec(), b"".to_vec(), b"b".to_vec()]);
}

#[test]
fn append_line_ends_with_line_feed() {
    let rec = record(1, b"cred", ANCHOR_2021, Period::Minute);
    let line = append_line(&rec);
    assert_eq!(*line.last().unwrap(), b'\n');
    let parsed = parse_record(&line[..line.len() - 1]).expect("line body must parse");
    assert_eq!(parsed.session_id, 1);
}

#[test]
fn log_round_trips_two_records() {
    let mut content: Vec<u8> = Vec::new();
    content.extend_from_slice(&append_line(&record(1, b"one", ANCHOR_2021, Period::Day)));
    content.extend_from_slice(&append_line(&record(2, b"two", ANCHOR_2021 + 60, Period::Minute)));
    let recs = parse_log(content.as_slice()).expect("well-formed log must parse");
    assert_eq!(recs.len(), 2);
    assert_eq!(recs[0].session_id, 1);
    assert_eq!(recs[0].credential, b"one".to_vec());
    assert_eq!(recs[1].session_id, 2);
    assert_eq!(recs[1].period, Period::Minute);
}

#[test]
fn log_is_fatal_on_one_malformed_line() {
    let mut content: Vec<u8> = Vec::new();
    content.extend_from_slice(&append_line(&record(1, b"one", ANCHOR_2021, Period::Day)));
    content.extend_from_slice(b"garbage line\n");
    assert!(parse_log(content.as_slice()).is_none());
}

#[test]
fn empty_log_parses_to_nothing() {
    let recs = parse_log(b"").expect("empty log is well-formed");
    assert!(recs.is_empty());
}
