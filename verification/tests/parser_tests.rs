use drone_link::parser::{parse_log, parse_rcv, parse_rcv_at, FrameParser};

#[test]
fn rcv_well_formed() {
    let m = parse_rcv_at("+RCV=1,4,T:DEADBEEF,10,5", 42).expect("should parse");
    assert_eq!(m.from, 1);
    assert_eq!(m.length, 4);
    assert_eq!(m.message, "T:DEADBEEF");
    assert_eq!(m.rssi, 10);
    assert_eq!(m.snr, 5);
    assert_eq!(m.clock_millis, 42);
}

#[test]
fn rcv_negative_rssi_and_snr() {
    let m = parse_rcv_at("+RCV=65535,20,LOG:hello world,-40,-3", 0).expect("should parse");
    assert_eq!(m.from, 65535);
    assert_eq!(m.rssi, -40);
    assert_eq!(m.snr, -3);
    assert_eq!(m.message, "LOG:hello world");
}

#[test]
fn rcv_wall_clock_variant_parses_same_fields() {
    let m = parse_rcv("+RCV=2,2,ok,1,1").expect("should parse");
    assert_eq!(m.from, 2);
    assert_eq!(m.message, "ok");
}

#[test]
fn rcv_rejects_wrong_shapes() {
    // No envelope marker.
    assert!(parse_rcv_at("RCV=1,4,x,10,5", 0).is_none());
    // Too few fields.
    assert!(parse_rcv_at("+RCV=1,4,x,10", 0).is_none());
    // Too many fields (a payload with a comma breaks the shape).
    assert!(parse_rcv_at("+RCV=1,4,a,b,10,5", 0).is_none());
    // Non-numeric address.
    assert!(parse_rcv_at("+RCV=one,4,x,10,5", 0).is_none());
    // Address out of range.
    assert!(parse_rcv_at("+RCV=4294967296,4,x,10,5", 0).is_none());
    // Non-numeric rssi.
    assert!(parse_rcv_at("+RCV=1,4,x,loud,5", 0).is_none());
    // Empty line.
    assert!(parse_rcv_at("", 0).is_none());
}

#[test]
fn log_prefix_stripped() {
    assert_eq!(parse_log("LOG:motor armed"), Some("motor armed".to_string()));
    assert_eq!(parse_log("LOG:"), Some(String::new()));
    assert_eq!(parse_log("log:motor armed"), None);
    assert_eq!(parse_log("T:ABCD"), None);
}

#[test]
fn feed_extracts_complete_trimmed_lines() {
    let mut p = FrameParser::new();
    let lines = p.feed(b"hello\r\nwor");
    assert_eq!(lines, vec!["hello".to_string()]);
    let lines = p.feed(b"ld\r\n");
    assert_eq!(lines, vec!["world".to_string()]);
    let lines = p.feed(b"");
    assert!(lines.is_empty());
}

#[test]
fn lines_are_trimmed_of_surrounding_whitespace() {
    let mut p = FrameParser::new();
    let lines = p.feed(b"  spaced out \t\r\n");
    assert_eq!(lines, vec!["spaced out".to_string()]);
}

#[test]
fn feed_drops_non_ascii_bytes() {
    let mut p = FrameParser::new();
    let lines = p.feed(b"ab\xFF\xFEcd\n");
    assert_eq!(lines, vec!["abcd".to_string()]);
}

#[test]
fn frame_recovery_keeps_only_latest_envelope() {
    // A torn-and-garbled buffer holding two envelope starts: only the
    // most recent survives; the two are never mixed.
    let mut p = FrameParser::new();
    let lines = p.feed(b"garbage+RCV=1,4,T:DEADBEEF,10,5\r\n+RCV=2,4,T:DEADBEEF,-3,8\r\n");
    assert_eq!(lines.len(), 1);
    assert_eq!(lines[0], "+RCV=2,4,T:DEADBEEF,-3,8");
    let m = parse_rcv_at(&lines[0], 0).expect("should parse");
    assert_eq!(m.from, 2);
}

#[test]
fn frame_recovery_discards_stray_prefix() {
    let mut p = FrameParser::new();
    let lines = p.feed(b"noise\x01noise+RCV=7,2,ok,9,9\r\n");
    assert_eq!(lines, vec!["+RCV=7,2,ok,9,9".to_string()]);
}

#[test]
fn several_lines_in_one_feed() {
    let mut p = FrameParser::new();
    let lines = p.feed(b"one\r\ntwo\r\n");
    assert_eq!(lines, vec!["one".to_string(), "two".to_string()]);
}

#[test]
fn feed_across_many_small_chunks() {
    let mut p = FrameParser::new();
    let whole = b"+RCV=3,2,ok,1,2\r\n";
    let mut got: Vec<String> = Vec::new();
    for chunk in whole.chunks(3) {
        got.extend(p.feed(chunk));
    }
    assert_eq!(got, vec!["+RCV=3,2,ok,1,2".to_string()]);
}
