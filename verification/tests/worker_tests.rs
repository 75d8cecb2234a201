use drone_link::parser::{encode_telemetry, FrameParser};
use drone_link::telemetry::{DataBuffer, PidAxis, TelemetryData};
use drone_link::worker::{handle_control, handle_read, process_line, render_send, UartAction, UartCommand};

fn record(seq: u32) -> TelemetryData {
    TelemetryData {
        timestamp: seq,
        clock_millis: 7,
        roll: 0.1f32.to_bits(),
        pitch: 0.2f32.to_bits(),
        yaw: 0.3f32.to_bits(),
        roll_p: 0,
        roll_i: 0,
        roll_d: 0,
        pitch_p: 0,
        pitch_i: 0,
        pitch_d: 0,
        yaw_p: 0,
        yaw_i: 0,
        yaw_d: 0,
        altitude: 0,
        battery_voltage: 0,
        state: 0,
        flags: 0,
    }
}

#[test]
fn render_send_exact_line() {
    assert_eq!(render_send(2, "ES"), Some("AT+SEND=2,2,ES\r\n".to_string()));
    assert_eq!(render_send(65535, ""), Some("AT+SEND=65535,0,\r\n".to_string()));
}

#[test]
fn render_send_rejects_oversized_payload() {
    let big = "A".repeat(241);
    assert_eq!(render_send(1, &big), None);
    let just_fits = "A".repeat(240);
    assert!(render_send(1, &just_fits).is_some());
}

#[test]
fn handle_control_decides() {
    assert!(matches!(handle_control(&UartCommand::Disconnect), UartAction::Shutdown));
    match handle_control(&UartCommand::Send { address: 3, data: "FC:START".to_string() }) {
        UartAction::Transmit(addr, line) => {
            assert_eq!(addr, 3);
            assert_eq!(line, "AT+SEND=3,8,FC:START\r\n");
        }
        _ => panic!("expected a transmit"),
    }
    let big = "B".repeat(300);
    assert!(matches!(
        handle_control(&UartCommand::Send { address: 3, data: big }),
        UartAction::Reject
    ));
}

#[test]
fn process_line_appends_telemetry() {
    let mut buf = DataBuffer::new();
    let rec = record(1);
    let payload = encode_telemetry(&rec);
    let line = format!("+RCV=1,{},{},-40,9", payload.len(), payload);
    process_line(&line, &mut buf, rec.clock_millis);
    assert_eq!(buf.data_len(), 1);
    assert_eq!(buf.data_at(0), rec);
    assert_eq!(buf.logs_len(), 0);
}

#[test]
fn process_line_appends_device_log() {
    let mut buf = DataBuffer::new();
    process_line("+RCV=1,9,LOG:armed,-40,9", &mut buf, 55);
    assert_eq!(buf.data_len(), 0);
    assert_eq!(buf.logs_len(), 1);
    let entry = buf.log_at(0);
    assert_eq!(entry.message, "armed");
    assert_eq!(entry.clock_millis, 55);
}

#[test]
fn process_line_logs_warning_on_malformed_envelope() {
    let mut buf = DataBuffer::new();
    process_line("not an envelope", &mut buf, 9);
    assert_eq!(buf.data_len(), 0);
    assert_eq!(buf.logs_len(), 1);
    assert_eq!(buf.log_at(0).message, "Failed to parse RCV: not an envelope");
}

#[test]
fn process_line_ignores_unknown_payload() {
    let mut buf = DataBuffer::new();
    process_line("+RCV=1,3,???,-40,9", &mut buf, 9);
    assert_eq!(buf.data_len(), 0);
    assert_eq!(buf.logs_len(), 0);
}

#[test]
fn malformed_telemetry_payload_is_dropped_whole() {
    // Hex length not matching the record size: no record, no crash.
    let mut buf = DataBuffer::new();
    process_line("+RCV=1,4,T:DEADBEEF,10,5", &mut buf, 9);
    assert_eq!(buf.data_len(), 0);
}

#[test]
fn handle_read_feeds_frames_through() {
    let mut parser = FrameParser::new();
    let mut buf = DataBuffer::new();
    let rec = record(5);
    let payload = encode_telemetry(&rec);
    let wire = format!("+RCV=1,{},{},-40,9\r\n", payload.len(), payload);
    let bytes = wire.as_bytes();
    let (a, b) = bytes.split_at(bytes.len() / 2);
    handle_read(&mut parser, a, &mut buf, rec.clock_millis);
    assert_eq!(buf.data_len(), 0);
    handle_read(&mut parser, b, &mut buf, rec.clock_millis);
    assert_eq!(buf.data_len(), 1);
    assert_eq!(buf.data_at(0), rec);
}

#[test]
fn ring_buffer_keeps_most_recent_records() {
    let mut buf = DataBuffer::new();
    // Push well past the capacity; only the newest 500 stay, oldest
    // evicted first.
    for i in 0..507u32 {
        buf.push(record(i));
    }
    assert_eq!(buf.data_len(), 500);
    assert_eq!(buf.data_at(0).timestamp, 7);
    assert_eq!(buf.data_at(499).timestamp, 506);
}

#[test]
fn plot_series_mirror_the_records() {
    let mut buf = DataBuffer::new();
    let mut a = record(1);
    a.roll = 0.5f32.to_bits();
    a.pitch_p = 0.7f32.to_bits();
    let mut b = record(2);
    b.clock_millis = 8;
    b.roll = 0.6f32.to_bits();
    buf.push(a);
    buf.push(b);
    let roll = buf.get_roll_data();
    assert_eq!(roll, vec![(7, 0.5f32.to_bits()), (8, 0.6f32.to_bits())]);
    let pitch = buf.get_pitch_data();
    assert_eq!(pitch.len(), 2);
    assert_eq!(pitch[0], (7, a.pitch));
    let yaw = buf.get_yaw_data();
    assert_eq!(yaw[1], (8, b.yaw));
    let p = buf.get_pid_p_data(PidAxis::Pitch);
    assert_eq!(p[0], (7, 0.7f32.to_bits()));
    let i = buf.get_pid_i_data(PidAxis::Roll);
    assert_eq!(i[0], (7, a.roll_i));
    let d = buf.get_pid_d_data(PidAxis::Yaw);
    assert_eq!(d[1], (8, b.yaw_d));
}

#[test]
fn clearing_empties_one_buffer_only() {
    let mut buf = DataBuffer::new();
    buf.push(record(1));
    buf.push_log("kept?".to_string(), 1);
    buf.clear_data();
    assert_eq!(buf.data_len(), 0);
    assert_eq!(buf.logs_len(), 1);
    buf.push(record(2));
    buf.clear_logs();
    assert_eq!(buf.logs_len(), 0);
    assert_eq!(buf.data_len(), 1);
}

#[test]
fn log_ring_is_bounded_too() {
    let mut buf = DataBuffer::new();
    for i in 0..105u32 {
        buf.push_log(format!("line {i}"), i as i64);
    }
    assert_eq!(buf.logs_len(), 100);
    assert_eq!(buf.log_at(0).message, "line 5");
    assert_eq!(buf.log_at(99).message, "line 104");
}
