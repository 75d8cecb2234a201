use drone_link::init::{InitResponse, LinkInitializer};
use drone_link::parser::{encode_telemetry, FrameParser};
use drone_link::telemetry::{DataBuffer, TelemetryData};
use drone_link::worker::handle_read;

#[test]
fn handshake_commands_in_order() {
    let expected = [
        "AT\r\n",
        "AT+ADDRESS=1\r\n",
        "AT+NETWORKID=6\r\n",
        "AT+BAND=915000000\r\n",
        "AT+PARAMETER=9,7,1,4\r\n",
    ];
    let mut init = LinkInitializer::new();
    for want in expected {
        assert!(!init.is_complete());
        assert_eq!(init.next_command().as_deref(), Some(want));
        assert_eq!(init.on_bytes(b"+OK\r\n"), InitResponse::Acknowledged);
    }
    assert!(init.is_complete());
    assert_eq!(init.next_command(), None);
}

#[test]
fn module_error_fails_immediately() {
    let mut init = LinkInitializer::new();
    assert_eq!(init.on_bytes(b"+ERR=4\r\n"), InitResponse::ModuleError);
}

#[test]
fn partial_lines_keep_waiting() {
    let mut init = LinkInitializer::new();
    assert_eq!(init.on_bytes(b"+O"), InitResponse::Pending);
    assert_eq!(init.on_bytes(b"K\r\n"), InitResponse::Acknowledged);
}

#[test]
fn unrelated_lines_are_discarded_and_wait_goes_on() {
    let mut init = LinkInitializer::new();
    assert_eq!(init.on_bytes(b"+READY\r\n"), InitResponse::Pending);
    assert!(!init.is_complete());
    assert_eq!(init.on_bytes(b"+OK\r\n"), InitResponse::Acknowledged);
}

#[test]
fn connect_handshake_then_telemetry_lands_in_buffer() {
    // The whole connection story: five configuration commands, each
    // acknowledged, then the worker loop decodes an envelope into one
    // telemetry record.
    let mut init = LinkInitializer::new();
    let mut sent = 0;
    while let Some(_cmd) = init.next_command() {
        sent += 1;
        assert_eq!(init.on_bytes(b"+OK\r\n"), InitResponse::Acknowledged);
    }
    assert_eq!(sent, 5);
    assert!(init.is_complete());

    let rec = TelemetryData {
        timestamp: 1000,
        clock_millis: 99,
        roll: 0.5f32.to_bits(),
        pitch: (-0.25f32).to_bits(),
        yaw: 0.0f32.to_bits(),
        roll_p: 0.3f32.to_bits(),
        roll_i: 0.02f32.to_bits(),
        roll_d: 0.001f32.to_bits(),
        pitch_p: 0.3f32.to_bits(),
        pitch_i: 0.02f32.to_bits(),
        pitch_d: 0.001f32.to_bits(),
        yaw_p: 0.1f32.to_bits(),
        yaw_i: 0.0f32.to_bits(),
        yaw_d: 0.0f32.to_bits(),
        altitude: 3.2f32.to_bits(),
        battery_voltage: 12.4f32.to_bits(),
        state: 1,
        flags: 0,
    };
    let payload = encode_telemetry(&rec);
    let wire = format!("+RCV=1,{},{},-40,9\r\n", payload.len(), payload);

    let mut parser = FrameParser::new();
    let mut buf = DataBuffer::new();
    handle_read(&mut parser, wire.as_bytes(), &mut buf, rec.clock_millis);
    assert_eq!(buf.data_len(), 1);
    let got = buf.data_at(0);
    assert_eq!(got, rec);
    assert_eq!(got.timestamp, 1000);
    assert_eq!(f32::from_bits(got.roll), 0.5);
    assert_eq!(f32::from_bits(got.battery_voltage), 12.4);
}
