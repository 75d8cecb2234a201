use drone_link::codec::{
    Axis, CommandType, ConfigPacket, HeartBeatPacket, MotorThrottlePacket, PIDTunePacket,
    SetpointPacket, ThrottlePacket, ToHex, TELEMETRY_RECORD_BYTES,
};
use drone_link::parser::{encode_telemetry, parse_telemetry_at};
use drone_link::telemetry::TelemetryData;

fn sample_record() -> TelemetryData {
    TelemetryData {
        timestamp: 123_456,
        clock_millis: 1_700_000_000_123,
        roll: 0.25f32.to_bits(),
        pitch: (-0.5f32).to_bits(),
        yaw: 3.14f32.to_bits(),
        roll_p: 1.0f32.to_bits(),
        roll_i: 0.1f32.to_bits(),
        roll_d: 0.01f32.to_bits(),
        pitch_p: 2.0f32.to_bits(),
        pitch_i: 0.2f32.to_bits(),
        pitch_d: 0.02f32.to_bits(),
        yaw_p: 3.0f32.to_bits(),
        yaw_i: 0.3f32.to_bits(),
        yaw_d: 0.03f32.to_bits(),
        altitude: 12.5f32.to_bits(),
        battery_voltage: 11.1f32.to_bits(),
        state: 2,
        flags: 0x81,
    }
}

#[test]
fn axis_wire_codes() {
    assert_eq!(Axis::Pitch.code(), 0);
    assert_eq!(Axis::Roll.code(), 1);
    assert_eq!(Axis::Yaw.code(), 2);
    assert_eq!(Axis::default(), Axis::Roll);
}

#[test]
fn bare_tokens() {
    assert_eq!(CommandType::Start.get_ascii(), "FC:START");
    assert_eq!(CommandType::Stop.get_ascii(), "FC:STOP");
    assert_eq!(CommandType::EmergencyStop.get_ascii(), "ES");
    assert_eq!(CommandType::StartManual.get_ascii(), "FC:MANUAL");
    assert_eq!(CommandType::Calibrate.get_ascii(), "FC:CALIBRATE");
    assert_eq!(CommandType::Reset.get_ascii(), "FC:RESET");
}

#[test]
fn throttle_encoding_exact() {
    // 0.5f32 is 0x3F000000; little-endian bytes 00 00 00 3F.
    let cmd = CommandType::SetThrottle(ThrottlePacket(0.5f32.to_bits()));
    assert_eq!(cmd.get_ascii(), "ST:0000003F");
}

#[test]
fn heartbeat_encoding_exact() {
    // 1.0f32 is 0x3F800000; little-endian bytes 00 00 80 3F.
    let cmd = CommandType::HeartBeat(HeartBeatPacket {
        base_throttle: 1.0f32.to_bits(),
        roll: 0,
        pitch: 0,
        yaw: 0,
    });
    assert_eq!(cmd.get_ascii(), "HB:0000803F000000000000000000000000");
}

#[test]
fn payload_commands_have_tag_and_fixed_hex_length() {
    let sp = CommandType::SetPoint(SetpointPacket {
        roll: 0.1f32.to_bits(),
        pitch: 0.2f32.to_bits(),
        yaw: 0.3f32.to_bits(),
    });
    let line = sp.get_ascii();
    assert!(line.starts_with("SP:"));
    assert_eq!(line.len(), 3 + 2 * 12);

    let tp = CommandType::TunePID(PIDTunePacket {
        p: 1.0f32.to_bits(),
        i: 0.0f32.to_bits(),
        d: 0.0f32.to_bits(),
        i_limit: 10.0f32.to_bits(),
        pid_limit: 100.0f32.to_bits(),
        axis: 1,
    });
    let line = tp.get_ascii();
    assert!(line.starts_with("TP:"));
    assert_eq!(line.len(), 3 + 2 * 21);

    let mb = CommandType::SetMotorThrottle(MotorThrottlePacket {
        motor1: 0,
        motor2: 0,
        motor3: 0,
        motor4: 0,
    });
    let line = mb.get_ascii();
    assert!(line.starts_with("MB:"));
    assert_eq!(line.len(), 3 + 2 * 16);

    let cf = CommandType::Config(ConfigPacket {
        motor1: 0,
        motor2: 0,
        motor3: 0,
        motor4: 0,
        roll_kp: 0,
        roll_ki: 0,
        roll_kd: 0,
        roll_i_limit: 0,
        roll_pid_limit: 0,
        pitch_kp: 0,
        pitch_ki: 0,
        pitch_kd: 0,
        pitch_i_limit: 0,
        pitch_pid_limit: 0,
        yaw_kp: 0,
        yaw_ki: 0,
        yaw_kd: 0,
        yaw_i_limit: 0,
        yaw_pid_limit: 0,
    });
    let line = cf.get_ascii();
    assert!(line.starts_with("CF:"));
    assert_eq!(line.len(), 3 + 2 * 76);
}

#[test]
fn pid_tune_hex_is_uppercase_and_ends_with_axis_byte() {
    let tp = PIDTunePacket {
        p: 0.5f32.to_bits(),
        i: 0,
        d: 0,
        i_limit: 0,
        pid_limit: 0,
        axis: 2,
    };
    let hex = tp.to_hex();
    assert!(hex.chars().all(|c| c.is_ascii_hexdigit()));
    assert!(hex.chars().all(|c| !c.is_ascii_lowercase()));
    assert!(hex.ends_with("02"));
}

#[test]
fn telemetry_round_trip() {
    let rec = sample_record();
    let line = encode_telemetry(&rec);
    assert!(line.starts_with("T:"));
    assert_eq!(line.len(), 2 + 2 * TELEMETRY_RECORD_BYTES);
    let back = parse_telemetry_at(&line, rec.clock_millis);
    assert_eq!(back, Some(rec));
}

#[test]
fn telemetry_wrong_length_rejected() {
    // Valid hex, but not the record size: discarded entirely.
    assert_eq!(parse_telemetry_at("T:DEADBEEF", 0), None);
}

#[test]
fn telemetry_bad_hex_rejected() {
    let bad = format!("T:{}", "GG".repeat(TELEMETRY_RECORD_BYTES));
    assert_eq!(parse_telemetry_at(&bad, 0), None);
    let odd = format!("T:{}A", "AB".repeat(TELEMETRY_RECORD_BYTES - 1));
    assert_eq!(parse_telemetry_at(&odd, 0), None);
}

#[test]
fn telemetry_missing_prefix_rejected() {
    let rec = sample_record();
    let line = encode_telemetry(&rec);
    let stripped = &line[2..];
    assert_eq!(parse_telemetry_at(stripped, rec.clock_millis), None);
}
