use home_dashboard::ics::{parse, parse_ics_timestamp, sort_by_date, Error, Event};
use home_dashboard::tz::{civil_to_epoch, Tz};

fn utc() -> Tz {
    Tz::utc()
}

#[test]
fn single_future_event_is_returned() {
    let input = b"BEGIN:VEVENT\nDTSTART:20240101T090000\nDTEND:20240101T100000\nSUMMARY:Test\nEND:VEVENT\n";
    let now = civil_to_epoch(2024, 1, 1, 0, 0, 0);
    let events = parse(input, now, &utc(), 10).unwrap();
    assert_eq!(events.len(), 1);
    assert_eq!(events[0].summary, b"Test".to_vec());
    assert_eq!(events[0].start, civil_to_epoch(2024, 1, 1, 9, 0, 0));
    assert_eq!(events[0].end, civil_to_epoch(2024, 1, 1, 10, 0, 0));
}

#[test]
fn past_event_is_dropped() {
    let input = b"BEGIN:VEVENT\nDTSTART:20240101T090000\nDTEND:20240101T100000\nSUMMARY:Test\nEND:VEVENT\n";
    let now = civil_to_epoch(2024, 1, 2, 0, 0, 0);
    let events = parse(input, now, &utc(), 10).unwrap();
    assert_eq!(events.len(), 0);
}

#[test]
fn capacity_bounds_output() {
    let mut input = Vec::new();
    for day in 10..20 {
        input.extend_from_slice(
            format!(
                "BEGIN:VEVENT\nDTSTART:202401{day}T090000\nDTEND:202401{day}T100000\nSUMMARY:E{day}\nEND:VEVENT\n"
            )
            .as_bytes(),
        );
    }
    let now = civil_to_epoch(2024, 1, 1, 0, 0, 0);
    let events = parse(&input, now, &utc(), 3).unwrap();
    assert_eq!(events.len(), 3);
    assert_eq!(events[0].summary, b"E10".to_vec());
    assert_eq!(events[2].summary, b"E12".to_vec());
}

#[test]
fn zero_capacity_gives_no_events() {
    let input = b"BEGIN:VEVENT\nDTSTART:20240101T090000\nDTEND:20240101T100000\nEND:VEVENT\n";
    let now = civil_to_epoch(2023, 1, 1, 0, 0, 0);
    let events = parse(input, now, &utc(), 0).unwrap();
    assert_eq!(events.len(), 0);
}

#[test]
fn oversized_line_does_not_corrupt_neighbours() {
    let mut input = Vec::new();
    input.extend_from_slice(
        b"BEGIN:VEVENT\nDTSTART:20240102T090000\nDTEND:20240102T100000\nSUMMARY:One\nEND:VEVENT\n",
    );
    input.extend_from_slice(&[b'X'; 200]);
    input.push(b'\n');
    input.extend_from_slice(
        b"BEGIN:VEVENT\nDTSTART:20240103T090000\nDTEND:20240103T100000\nSUMMARY:Two\nEND:VEVENT\n",
    );
    let now = civil_to_epoch(2024, 1, 1, 0, 0, 0);
    let events = parse(&input, now, &utc(), 10).unwrap();
    assert_eq!(events.len(), 2);
    assert_eq!(events[0].summary, b"One".to_vec());
    assert_eq!(events[1].summary, b"Two".to_vec());
}

#[test]
fn oversized_summary_line_drops_only_itself() {
    // The summary line itself exceeds the line bound: the line is skipped,
    // the event still commits with an empty summary.
    let mut input = Vec::new();
    input.extend_from_slice(b"BEGIN:VEVENT\nDTSTART:20240102T090000\nDTEND:20240102T100000\n");
    input.extend_from_slice(b"SUMMARY:");
    input.extend_from_slice(&[b'S'; 160]);
    input.push(b'\n');
    input.extend_from_slice(b"END:VEVENT\n");
    let now = civil_to_epoch(2024, 1, 1, 0, 0, 0);
    let events = parse(&input, now, &utc(), 10).unwrap();
    assert_eq!(events.len(), 1);
    assert_eq!(events[0].summary, Vec::<u8>::new());
}

#[test]
fn malformed_dtstart_discards_whole_event() {
    let mut input = Vec::new();
    input.extend_from_slice(
        b"BEGIN:VEVENT\nDTSTART:not-a-date\nDTEND:20240102T100000\nSUMMARY:Bad\nEND:VEVENT\n",
    );
    input.extend_from_slice(
        b"BEGIN:VEVENT\nDTSTART:20240103T090000\nDTEND:20240103T100000\nSUMMARY:Good\nEND:VEVENT\n",
    );
    let now = civil_to_epoch(2024, 1, 1, 0, 0, 0);
    let events = parse(&input, now, &utc(), 10).unwrap();
    assert_eq!(events.len(), 1);
    assert_eq!(events[0].summary, b"Good".to_vec());
}

#[test]
fn malformed_dtend_discards_whole_event() {
    let mut input = Vec::new();
    input.extend_from_slice(
        b"BEGIN:VEVENT\nDTSTART:20240102T090000\nDTEND:20240102T\nSUMMARY:Bad\nEND:VEVENT\n",
    );
    input.extend_from_slice(
        b"BEGIN:VEVENT\nDTSTART:20240103T090000\nDTEND:20240103T100000\nSUMMARY:Good\nEND:VEVENT\n",
    );
    let now = civil_to_epoch(2024, 1, 1, 0, 0, 0);
    let events = parse(&input, now, &utc(), 10).unwrap();
    assert_eq!(events.len(), 1);
    assert_eq!(events[0].summary, b"Good".to_vec());
}

#[test]
fn event_without_dates_is_not_committed() {
    let input = b"BEGIN:VEVENT\nSUMMARY:NoDates\nEND:VEVENT\n";
    let now = civil_to_epoch(2024, 1, 1, 0, 0, 0);
    let events = parse(input, now, &utc(), 10).unwrap();
    assert_eq!(events.len(), 0);
}

#[test]
fn invalid_utf8_line_fails_the_parse() {
    let input = b"BEGIN:VEVENT\nSUMMARY:\xff\xfe\nEND:VEVENT\n";
    let now = civil_to_epoch(2024, 1, 1, 0, 0, 0);
    let r = parse(input, now, &utc(), 10);
    assert!(matches!(r, Err(Error::ParseEvent)));
}

#[test]
fn crlf_lines_parse_like_lf_lines() {
    let input = b"BEGIN:VEVENT\r\nDTSTART:20240101T090000\r\nDTEND:20240101T100000\r\nSUMMARY:Test\r\nEND:VEVENT\r\n";
    let now = civil_to_epoch(2024, 1, 1, 0, 0, 0);
    let events = parse(input, now, &utc(), 10).unwrap();
    assert_eq!(events.len(), 1);
    assert_eq!(events[0].summary, b"Test".to_vec());
}

#[test]
fn summary_is_truncated_to_capacity() {
    let input = b"BEGIN:VEVENT\nDTSTART:20240101T090000\nDTEND:20240101T100000\nSUMMARY:abcdefghijklmnopqrstuvwxyz0123456789\nEND:VEVENT\n";
    let now = civil_to_epoch(2024, 1, 1, 0, 0, 0);
    let events = parse(input, now, &utc(), 10).unwrap();
    assert_eq!(events.len(), 1);
    assert_eq!(events[0].summary, b"abcdefghijklmnopqrstuvwxyz012345".to_vec());
}

#[test]
fn repeated_summary_lines_append() {
    let input = b"BEGIN:VEVENT\nDTSTART:20240101T090000\nDTEND:20240101T100000\nSUMMARY:ab\nSUMMARY:cd\nEND:VEVENT\n";
    let now = civil_to_epoch(2024, 1, 1, 0, 0, 0);
    let events = parse(input, now, &utc(), 10).unwrap();
    assert_eq!(events.len(), 1);
    assert_eq!(events[0].summary, b"abcd".to_vec());
}

#[test]
fn property_with_parameters_still_parses() {
    let input = b"BEGIN:VEVENT\nDTSTART;TZID=Somewhere:20240101T090000\nDTEND;TZID=Somewhere:20240101T100000\nEND:VEVENT\n";
    let now = civil_to_epoch(2024, 1, 1, 0, 0, 0);
    let events = parse(input, now, &utc(), 10).unwrap();
    assert_eq!(events.len(), 1);
}

#[test]
fn trailing_unterminated_line_is_ignored() {
    let input = b"BEGIN:VEVENT\nDTSTART:20240101T090000\nDTEND:20240101T100000\nEND:VEVENT";
    let now = civil_to_epoch(2023, 1, 1, 0, 0, 0);
    let events = parse(input, now, &utc(), 10).unwrap();
    // The END line never terminates, so the event is never committed.
    assert_eq!(events.len(), 0);
}

#[test]
fn timestamp_z_suffix_shifts_by_zone_offset() {
    let zone = Tz::fixed(3600);
    let local = parse_ics_timestamp(b"20240101T120000", &zone).unwrap();
    let utc_ts = parse_ics_timestamp(b"20240101T120000Z", &zone).unwrap();
    assert_eq!(utc_ts - local, 3600);
    let zone0 = Tz::fixed(0);
    let a = parse_ics_timestamp(b"20240101T120000", &zone0).unwrap();
    let b = parse_ics_timestamp(b"20240101T120000Z", &zone0).unwrap();
    assert_eq!(a, b);
}

#[test]
fn timestamp_rejects_bad_shapes() {
    let zone = Tz::utc();
    assert!(parse_ics_timestamp(b"20240101", &zone).is_err());
    assert!(parse_ics_timestamp(b"20240101T1200", &zone).is_err());
    assert!(parse_ics_timestamp(b"20241301T120000", &zone).is_err());
    assert!(parse_ics_timestamp(b"20240230T120000", &zone).is_err());
    assert!(parse_ics_timestamp(b"20240101T240000", &zone).is_err());
    assert!(parse_ics_timestamp(b"20240101X120000", &zone).is_err());
    assert!(parse_ics_timestamp(b"20240101T120000ZZ", &zone).is_err());
}

#[test]
fn timestamp_leap_day_parses() {
    let zone = Tz::utc();
    let v = parse_ics_timestamp(b"20240229T000000", &zone).unwrap();
    assert_eq!(v, civil_to_epoch(2024, 2, 29, 0, 0, 0));
    assert!(parse_ics_timestamp(b"20230229T000000", &zone).is_err());
}

#[test]
fn civil_to_epoch_matches_jiff() {
    let cases = [
        (1970u16, 1u8, 1u8, 0u8, 0u8, 0u8),
        (2024, 1, 1, 9, 0, 0),
        (2024, 2, 29, 23, 59, 59),
        (1999, 12, 31, 12, 30, 45),
        (2100, 3, 1, 6, 7, 8),
        (1901, 7, 14, 1, 2, 3),
        (9999, 1, 1, 0, 0, 0),
        (1, 1, 1, 0, 0, 0),
    ];
    for (y, m, d, h, mi, s) in cases {
        let got = civil_to_epoch(y as u64, m as u64, d as u64, h as u64, mi as u64, s as u64);
        let want = jiff::civil::date(y as i16, m as i8, d as i8)
            .at(h as i8, mi as i8, s as i8, 0)
            .to_zoned(jiff::tz::TimeZone::UTC)
            .unwrap()
            .timestamp()
            .as_second();
        assert_eq!(got, want, "mismatch for {y}-{m}-{d} {h}:{mi}:{s}");
    }
}

#[test]
fn stream_parser_handles_chunks_cut_mid_line() {
    let input: &[u8] = b"BEGIN:VEVENT\nDTSTART:20240101T090000\nDTEND:20240101T100000\nSUMMARY:Test\nEND:VEVENT\n";
    let now = civil_to_epoch(2024, 1, 1, 0, 0, 0);
    for chunk_len in [1usize, 2, 3, 7, 500] {
        let mut scanner = home_dashboard::ics::StreamParser::new(now, utc(), 10);
        for chunk in input.chunks(chunk_len) {
            scanner.push_bytes(chunk);
        }
        let events = scanner.finish().unwrap();
        assert_eq!(events.len(), 1, "chunk length {chunk_len}");
        assert_eq!(events[0].summary, b"Test".to_vec());
    }
}

#[test]
fn stream_parser_reports_done_once_full() {
    let one_event: &[u8] = b"BEGIN:VEVENT\nDTSTART:20990101T090000\nDTEND:20990101T100000\nEND:VEVENT\n";
    let mut scanner = home_dashboard::ics::StreamParser::new(0, utc(), 1);
    assert!(!scanner.is_done());
    scanner.push_bytes(one_event);
    assert!(scanner.is_done());
    // Further input is ignored once the output is full.
    scanner.push_bytes(b"BEGIN:VEVENT\nDTSTART:20990202T090000\nDTEND:20990202T100000\nEND:VEVENT\n");
    let events = scanner.finish().unwrap();
    assert_eq!(events.len(), 1);
    assert_eq!(events[0].start, civil_to_epoch(2099, 1, 1, 9, 0, 0));
}

#[test]
fn stream_parser_stays_failed_after_bad_line() {
    let mut scanner = home_dashboard::ics::StreamParser::new(0, utc(), 10);
    scanner.push_bytes(b"\xff\xfe\n");
    assert!(scanner.is_done());
    scanner.push_bytes(b"BEGIN:VEVENT\nDTSTART:20990101T090000\nDTEND:20990101T100000\nEND:VEVENT\n");
    assert!(matches!(scanner.finish(), Err(Error::ParseEvent)));
}

fn ev(start: i64, end: i64, name: &[u8]) -> Event {
    Event { start, end, summary: name.to_vec() }
}

#[test]
fn sort_by_date_orders_by_start() {
    let mut events = vec![
        ev(30, 40, b"c"),
        ev(10, 20, b"a"),
        ev(20, 30, b"b"),
        ev(10, 5, b"a2"),
        ev(50, 60, b"d"),
    ];
    sort_by_date(&mut events);
    let starts: Vec<i64> = events.iter().map(|e| e.start).collect();
    assert_eq!(starts, vec![10, 10, 20, 30, 50]);
    let mut names: Vec<Vec<u8>> = events.iter().map(|e| e.summary.clone()).collect();
    names.sort();
    assert_eq!(names, vec![b"a".to_vec(), b"a2".to_vec(), b"b".to_vec(), b"c".to_vec(), b"d".to_vec()]);
}

#[test]
fn sort_by_date_handles_empty_and_single() {
    let mut none: Vec<Event> = vec![];
    sort_by_date(&mut none);
    assert_eq!(none.len(), 0);
    let mut one = vec![ev(5, 6, b"x")];
    sort_by_date(&mut one);
    assert_eq!(one.len(), 1);
    assert_eq!(one[0].start, 5);
}
