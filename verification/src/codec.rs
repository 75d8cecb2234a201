//! Binary command packets and their ASCII wire form.
//!
//! Every command the ground station sends is either a bare ASCII token or a
//! two-letter tag, a colon, and the upper-case hex dump of a fixed-size
//! packed record. Records are serialized field by field, each 32-bit word
//! little-endian, so the layout is independent of host struct layout.
//! Physical quantities are IEEE-754 single-precision values carried as
//! their raw 32-bit patterns; the link layer never interprets them.

use vstd::prelude::*;

verus! {

use vstd::bytes::{
    lemma_auto_spec_u32_to_from_le_bytes, spec_u32_from_le_bytes, spec_u32_to_le_bytes,
    u32_from_le_bytes, u32_to_le_bytes,
};
use vstd::slice::slice_subrange;
use crate::telemetry::TelemetryData;
use crate::text::{
    ascii_seq, ascii_to_string, bytes_to_hex_upper, chars_bytes, lemma_hex_is_ascii,
    lemma_hex_round_trip, spec_hex_upper,
};

/// Control axis selector, also carried as one byte in the PID tune record.
#[derive(Clone, Copy, Debug, PartialEq, Eq, Structural, Default)]
pub enum Axis {
    Pitch,
    #[default]
    Roll,
    Yaw,
}

/// The wire code of an axis.
pub open spec fn spec_axis_code(a: Axis) -> u8 {
    match a {
        Axis::Pitch => 0,
        Axis::Roll => 1,
        Axis::Yaw => 2,
    }
}

impl Axis {
    /// The wire code of an axis.
    pub fn code(&self) -> (r: u8)
        ensures
            r == spec_axis_code(*self),
    {
        match self {
            Axis::Pitch => 0,
            Axis::Roll => 1,
            Axis::Yaw => 2,
        }
    }
}

/// PID gains and limits for one axis, as bit patterns.
#[derive(Clone, Copy, Debug, PartialEq, Eq, Structural)]
pub struct PIDController {
    pub p: u32,
    pub i: u32,
    pub d: u32,
    pub i_limit: u32,
    pub pid_limit: u32,
}

/// A commanded attitude, as bit patterns of radians.
#[derive(Clone, Copy, Debug, PartialEq, Eq, Structural)]
pub struct Attitude {
    pub roll: u32,
    pub pitch: u32,
    pub yaw: u32,
}

/// A type with a fixed packed wire record.
pub trait ToHex {
    /// The record's bytes in wire order.
    spec fn wire_bytes(&self) -> Seq<u8>;

    /// Serializes the record field by field.
    fn wire(&self) -> (r: Vec<u8>)
        ensures
            r@ == self.wire_bytes(),
    ;

    /// The upper-case hex dump of the record.
    fn to_hex(&self) -> (r: String)
        ensures
            r.is_ascii(),
            chars_bytes(r@) == spec_hex_upper(self.wire_bytes()),
    ;
}

/// Renders a byte vector as an upper-case hex string.
fn hex_string_of(bytes: &Vec<u8>) -> (r: String)
    ensures
        r.is_ascii(),
        chars_bytes(r@) == spec_hex_upper(bytes@),
{
    proof {
        lemma_hex_round_trip(bytes@);
        lemma_hex_is_ascii(spec_hex_upper(bytes@));
    }
    let h = bytes_to_hex_upper(bytes.as_slice());
    ascii_to_string(&h)
}

/// Appends the little-endian bytes of one 32-bit word.
fn push_u32_le(v: &mut Vec<u8>, x: u32)
    ensures
        final(v)@ == old(v)@ + spec_u32_to_le_bytes(x),
{
    let mut b = u32_to_le_bytes(x);
    v.append(&mut b);
}

/// Throttle setpoint record: one 32-bit word.
#[derive(Clone, Copy, Debug, PartialEq, Eq, Structural)]
pub struct ThrottlePacket(pub u32);

impl ToHex for ThrottlePacket {
    open spec fn wire_bytes(&self) -> Seq<u8> {
        spec_u32_to_le_bytes(self.0)
    }

    fn wire(&self) -> (r: Vec<u8>) {
        u32_to_le_bytes(self.0)
    }

    fn to_hex(&self) -> (r: String) {
        hex_string_of(&self.wire())
    }
}

/// Attitude setpoint record: roll, pitch, yaw.
#[derive(Clone, Copy, Debug, PartialEq, Eq, Structural)]
pub struct SetpointPacket {
    pub roll: u32,
    pub pitch: u32,
    pub yaw: u32,
}

impl ToHex for SetpointPacket {
    open spec fn wire_bytes(&self) -> Seq<u8> {
        spec_u32_to_le_bytes(self.roll) + spec_u32_to_le_bytes(self.pitch) + spec_u32_to_le_bytes(
            self.yaw,
        )
    }

    fn wire(&self) -> (r: Vec<u8>) {
        let mut v: Vec<u8> = Vec::new();
        push_u32_le(&mut v, self.roll);
        push_u32_le(&mut v, self.pitch);
        push_u32_le(&mut v, self.yaw);
        assert(v@ =~= self.wire_bytes());
        v
    }

    fn to_hex(&self) -> (r: String) {
        hex_string_of(&self.wire())
    }
}

/// Liveness record: commanded base throttle and attitude.
#[derive(Clone, Copy, Debug, PartialEq, Eq, Structural)]
pub struct HeartBeatPacket {
    pub base_throttle: u32,
    pub roll: u32,
    pub pitch: u32,
    pub yaw: u32,
}

impl ToHex for HeartBeatPacket {
    open spec fn wire_bytes(&self) -> Seq<u8> {
        spec_u32_to_le_bytes(self.base_throttle) + spec_u32_to_le_bytes(self.roll)
            + spec_u32_to_le_bytes(self.pitch) + spec_u32_to_le_bytes(self.yaw)
    }

    fn wire(&self) -> (r: Vec<u8>) {
        let mut v: Vec<u8> = Vec::new();
        push_u32_le(&mut v, self.base_throttle);
        push_u32_le(&mut v, self.roll);
        push_u32_le(&mut v, self.pitch);
        push_u32_le(&mut v, self.yaw);
        assert(v@ =~= self.wire_bytes());
        v
    }

    fn to_hex(&self) -> (r: String) {
        hex_string_of(&self.wire())
    }
}

/// PID tuning record for one axis: gains, limits, then the axis code.
#[derive(Clone, Copy, Debug, PartialEq, Eq, Structural)]
pub struct PIDTunePacket {
    pub p: u32,
    pub i: u32,
    pub d: u32,
    pub i_limit: u32,
    pub pid_limit: u32,
    pub axis: u8,
}

impl ToHex for PIDTunePacket {
    open spec fn wire_bytes(&self) -> Seq<u8> {
        spec_u32_to_le_bytes(self.p) + spec_u32_to_le_bytes(self.i) + spec_u32_to_le_bytes(self.d)
            + spec_u32_to_le_bytes(self.i_limit) + spec_u32_to_le_bytes(self.pid_limit)
            + seq![self.axis]
    }

    fn wire(&self) -> (r: Vec<u8>) {
        let mut v: Vec<u8> = Vec::new();
        push_u32_le(&mut v, self.p);
        push_u32_le(&mut v, self.i);
        push_u32_le(&mut v, self.d);
        push_u32_le(&mut v, self.i_limit);
        push_u32_le(&mut v, self.pid_limit);
        v.push(self.axis);
        assert(v@ =~= self.wire_bytes());
        v
    }

    fn to_hex(&self) -> (r: String) {
        hex_string_of(&self.wire())
    }
}

/// Per-motor throttle record.
#[derive(Clone, Copy, Debug, PartialEq, Eq, Structural)]
pub struct MotorThrottlePacket {
    pub motor1: u32,
    pub motor2: u32,
    pub motor3: u32,
    pub motor4: u32,
}

impl ToHex for MotorThrottlePacket {
    open spec fn wire_bytes(&self) -> Seq<u8> {
        spec_u32_to_le_bytes(self.motor1) + spec_u32_to_le_bytes(self.motor2)
            + spec_u32_to_le_bytes(self.motor3) + spec_u32_to_le_bytes(self.motor4)
    }

    fn wire(&self) -> (r: Vec<u8>) {
        let mut v: Vec<u8> = Vec::new();
        push_u32_le(&mut v, self.motor1);
        push_u32_le(&mut v, self.motor2);
        push_u32_le(&mut v, self.motor3);
        push_u32_le(&mut v, self.motor4);
        assert(v@ =~= self.wire_bytes());
        v
    }

    fn to_hex(&self) -> (r: String) {
        hex_string_of(&self.wire())
    }
}

/// Full configuration record: motor bias, then the three PID axes.
#[derive(Clone, Copy, Debug, PartialEq, Eq, Structural)]
pub struct ConfigPacket {
    // motor bias
    pub motor1: u32,
    pub motor2: u32,
    pub motor3: u32,
    pub motor4: u32,
    // PID terms for roll
    pub roll_kp: u32,
    pub roll_ki: u32,
    pub roll_kd: u32,
    pub roll_i_limit: u32,
    pub roll_pid_limit: u32,
    // PID terms for pitch
    pub pitch_kp: u32,
    pub pitch_ki: u32,
    pub pitch_kd: u32,
    pub pitch_i_limit: u32,
    pub pitch_pid_limit: u32,
    // PID terms for yaw
    pub yaw_kp: u32,
    pub yaw_ki: u32,
    pub yaw_kd: u32,
    pub yaw_i_limit: u32,
    pub yaw_pid_limit: u32,
}

impl ToHex for ConfigPacket {
    open spec fn wire_bytes(&self) -> Seq<u8> {
        spec_u32_to_le_bytes(self.motor1) + spec_u32_to_le_bytes(self.motor2)
            + spec_u32_to_le_bytes(self.motor3) + spec_u32_to_le_bytes(self.motor4)
            + spec_u32_to_le_bytes(self.roll_kp) + spec_u32_to_le_bytes(self.roll_ki)
            + spec_u32_to_le_bytes(self.roll_kd) + spec_u32_to_le_bytes(self.roll_i_limit)
            + spec_u32_to_le_bytes(self.roll_pid_limit) + spec_u32_to_le_bytes(self.pitch_kp)
            + spec_u32_to_le_bytes(self.pitch_ki) + spec_u32_to_le_bytes(self.pitch_kd)
            + spec_u32_to_le_bytes(self.pitch_i_limit) + spec_u32_to_le_bytes(self.pitch_pid_limit)
            + spec_u32_to_le_bytes(self.yaw_kp) + spec_u32_to_le_bytes(self.yaw_ki)
            + spec_u32_to_le_bytes(self.yaw_kd) + spec_u32_to_le_bytes(self.yaw_i_limit)
            + spec_u32_to_le_bytes(self.yaw_pid_limit)
    }

    fn wire(&self) -> (r: Vec<u8>) {
        let mut v: Vec<u8> = Vec::new();
        push_u32_le(&mut v, self.motor1);
        push_u32_le(&mut v, self.motor2);
        push_u32_le(&mut v, self.motor3);
        push_u32_le(&mut v, self.motor4);
        push_u32_le(&mut v, self.roll_kp);
        push_u32_le(&mut v, self.roll_ki);
        push_u32_le(&mut v, self.roll_kd);
        push_u32_le(&mut v, self.roll_i_limit);
        push_u32_le(&mut v, self.roll_pid_limit);
        push_u32_le(&mut v, self.pitch_kp);
        push_u32_le(&mut v, self.pitch_ki);
        push_u32_le(&mut v, self.pitch_kd);
        push_u32_le(&mut v, self.pitch_i_limit);
        push_u32_le(&mut v, self.pitch_pid_limit);
        push_u32_le(&mut v, self.yaw_kp);
        push_u32_le(&mut v, self.yaw_ki);
        push_u32_le(&mut v, self.yaw_kd);
        push_u32_le(&mut v, self.yaw_i_limit);
        push_u32_le(&mut v, self.yaw_pid_limit);
        assert(v@ =~= self.wire_bytes());
        v
    }

    fn to_hex(&self) -> (r: String) {
        hex_string_of(&self.wire())
    }
}

/// One command to the flight controller.
#[derive(Clone, Copy, Debug, PartialEq, Eq, Structural)]
pub enum CommandType {
    Start,
    Stop,
    EmergencyStop,
    StartManual,
    SetThrottle(ThrottlePacket),
    SetPoint(SetpointPacket),
    TunePID(PIDTunePacket),
    HeartBeat(HeartBeatPacket),
    SetMotorThrottle(MotorThrottlePacket),
    Config(ConfigPacket),
    Calibrate,
    Reset,
}

// Bare command tokens, as ASCII bytes.
/// "FC:START"
pub open spec fn token_start() -> Seq<u8> {
    seq![70u8, 67, 58, 83, 84, 65, 82, 84]
}

/// "FC:STOP"
pub open spec fn token_stop() -> Seq<u8> {
    seq![70u8, 67, 58, 83, 84, 79, 80]
}

/// "ES" — kept short and distinct so it survives severe truncation.
pub open spec fn token_emergency_stop() -> Seq<u8> {
    seq![69u8, 83]
}

/// "FC:MANUAL"
pub open spec fn token_start_manual() -> Seq<u8> {
    seq![70u8, 67, 58, 77, 65, 78, 85, 65, 76]
}

/// "FC:CALIBRATE"
pub open spec fn token_calibrate() -> Seq<u8> {
    seq![70u8, 67, 58, 67, 65, 76, 73, 66, 82, 65, 84, 69]
}

/// "FC:RESET"
pub open spec fn token_reset() -> Seq<u8> {
    seq![70u8, 67, 58, 82, 69, 83, 69, 84]
}

/// The two-letter tag of a payload-bearing command, with the colon.
pub open spec fn spec_tag(cmd: CommandType) -> Seq<u8> {
    match cmd {
        CommandType::SetThrottle(_) => seq![83u8, 84, 58],  // "ST:"
        CommandType::SetPoint(_) => seq![83u8, 80, 58],  // "SP:"
        CommandType::HeartBeat(_) => seq![72u8, 66, 58],  // "HB:"
        CommandType::TunePID(_) => seq![84u8, 80, 58],  // "TP:"
        CommandType::SetMotorThrottle(_) => seq![77u8, 66, 58],  // "MB:"
        CommandType::Config(_) => seq![67u8, 70, 58],  // "CF:"
        _ => seq![],
    }
}

/// The full ASCII line a command is sent as.
pub open spec fn spec_ascii_bytes(cmd: CommandType) -> Seq<u8> {
    match cmd {
        CommandType::Start => token_start(),
        CommandType::Stop => token_stop(),
        CommandType::EmergencyStop => token_emergency_stop(),
        CommandType::StartManual => token_start_manual(),
        CommandType::Calibrate => token_calibrate(),
        CommandType::Reset => token_reset(),
        CommandType::SetThrottle(p) => spec_tag(cmd) + spec_hex_upper(p.wire_bytes()),
        CommandType::SetPoint(p) => spec_tag(cmd) + spec_hex_upper(p.wire_bytes()),
        CommandType::HeartBeat(p) => spec_tag(cmd) + spec_hex_upper(p.wire_bytes()),
        CommandType::TunePID(p) => spec_tag(cmd) + spec_hex_upper(p.wire_bytes()),
        CommandType::SetMotorThrottle(p) => spec_tag(cmd) + spec_hex_upper(p.wire_bytes()),
        CommandType::Config(p) => spec_tag(cmd) + spec_hex_upper(p.wire_bytes()),
    }
}

/// Every command renders as plain ASCII.
pub proof fn lemma_ascii_bytes_ascii(cmd: CommandType)
    ensures
        ascii_seq(spec_ascii_bytes(cmd)),
{
    match cmd {
        CommandType::SetThrottle(p) => {
            lemma_hex_round_trip(p.wire_bytes());
            lemma_hex_is_ascii(spec_hex_upper(p.wire_bytes()));
        },
        CommandType::SetPoint(p) => {
            lemma_hex_round_trip(p.wire_bytes());
            lemma_hex_is_ascii(spec_hex_upper(p.wire_bytes()));
        },
        CommandType::HeartBeat(p) => {
            lemma_hex_round_trip(p.wire_bytes());
            lemma_hex_is_ascii(spec_hex_upper(p.wire_bytes()));
        },
        CommandType::TunePID(p) => {
            lemma_hex_round_trip(p.wire_bytes());
            lemma_hex_is_ascii(spec_hex_upper(p.wire_bytes()));
        },
        CommandType::SetMotorThrottle(p) => {
            lemma_hex_round_trip(p.wire_bytes());
            lemma_hex_is_ascii(spec_hex_upper(p.wire_bytes()));
        },
        CommandType::Config(p) => {
            lemma_hex_round_trip(p.wire_bytes());
            lemma_hex_is_ascii(spec_hex_upper(p.wire_bytes()));
        },
        _ => {},
    }
}

/// Builds the tag-and-hex line of one payload record.
fn tagged_hex(t0: u8, t1: u8, record: &Vec<u8>) -> (r: Vec<u8>)
    requires
        t0 < 128,
        t1 < 128,
    ensures
        r@ == seq![t0, t1, 58u8] + spec_hex_upper(record@),
        ascii_seq(r@),
{
    proof {
        lemma_hex_round_trip(record@);
        lemma_hex_is_ascii(spec_hex_upper(record@));
    }
    let mut v: Vec<u8> = Vec::new();
    v.push(t0);
    v.push(t1);
    v.push(58);
    let mut h = bytes_to_hex_upper(record.as_slice());
    v.append(&mut h);
    assert(v@ =~= seq![t0, t1, 58u8] + spec_hex_upper(record@));
    v
}

impl CommandType {
    /// The ASCII line this command is transmitted as: a bare token, or
    /// `<tag>:<hex>` with the record's upper-case hex dump.
    pub fn get_ascii(&self) -> (r: String)
        ensures
            r.is_ascii(),
            chars_bytes(r@) == spec_ascii_bytes(*self),
    {
        proof {
            lemma_ascii_bytes_ascii(*self);
        }
        let v: Vec<u8> = match self {
            CommandType::Start => {
                let mut v: Vec<u8> = Vec::new();
                v.push(70);
                v.push(67);
                v.push(58);
                v.push(83);
                v.push(84);
                v.push(65);
                v.push(82);
                v.push(84);
                assert(v@ =~= token_start());
                v
            },
            CommandType::Stop => {
                let mut v: Vec<u8> = Vec::new();
                v.push(70);
                v.push(67);
                v.push(58);
                v.push(83);
                v.push(84);
                v.push(79);
                v.push(80);
                assert(v@ =~= token_stop());
                v
            },
            CommandType::EmergencyStop => {
                let mut v: Vec<u8> = Vec::new();
                v.push(69);
                v.push(83);
                assert(v@ =~= token_emergency_stop());
                v
            },
            CommandType::StartManual => {
                let mut v: Vec<u8> = Vec::new();
                v.push(70);
                v.push(67);
                v.push(58);
                v.push(77);
                v.push(65);
                v.push(78);
                v.push(85);
                v.push(65);
                v.push(76);
                assert(v@ =~= token_start_manual());
                v
            },
            CommandType::Calibrate => {
                let mut v: Vec<u8> = Vec::new();
                v.push(70);
                v.push(67);
                v.push(58);
                v.push(67);
                v.push(65);
                v.push(76);
                v.push(73);
                v.push(66);
                v.push(82);
                v.push(65);
                v.push(84);
                v.push(69);
                assert(v@ =~= token_calibrate());
                v
            },
            CommandType::Reset => {
                let mut v: Vec<u8> = Vec::new();
                v.push(70);
                v.push(67);
                v.push(58);
                v.push(82);
                v.push(69);
                v.push(83);
                v.push(69);
                v.push(84);
                assert(v@ =~= token_reset());
                v
            },
            CommandType::SetThrottle(p) => tagged_hex(83, 84, &p.wire()),
            CommandType::SetPoint(p) => tagged_hex(83, 80, &p.wire()),
            CommandType::HeartBeat(p) => tagged_hex(72, 66, &p.wire()),
            CommandType::TunePID(p) => tagged_hex(84, 80, &p.wire()),
            CommandType::SetMotorThrottle(p) => tagged_hex(77, 66, &p.wire()),
            CommandType::Config(p) => tagged_hex(67, 70, &p.wire()),
        };
        ascii_to_string(&v)
    }
}

/// The packed record a payload-bearing command carries, if any.
pub open spec fn spec_payload_bytes(cmd: CommandType) -> Option<Seq<u8>> {
    match cmd {
        CommandType::SetThrottle(p) => Some(p.wire_bytes()),
        CommandType::SetPoint(p) => Some(p.wire_bytes()),
        CommandType::HeartBeat(p) => Some(p.wire_bytes()),
        CommandType::TunePID(p) => Some(p.wire_bytes()),
        CommandType::SetMotorThrottle(p) => Some(p.wire_bytes()),
        CommandType::Config(p) => Some(p.wire_bytes()),
        _ => None,
    }
}

/// Each packed record has a fixed size; no variant's layout depends on
/// its values.
#[verifier::rlimit(30)]
pub proof fn lemma_record_sizes(cmd: CommandType)
    ensures
        cmd matches CommandType::SetThrottle(p) ==> p.wire_bytes().len() == 4,
        cmd matches CommandType::SetPoint(p) ==> p.wire_bytes().len() == 12,
        cmd matches CommandType::HeartBeat(p) ==> p.wire_bytes().len() == 16,
        cmd matches CommandType::TunePID(p) ==> p.wire_bytes().len() == 21,
        cmd matches CommandType::SetMotorThrottle(p) ==> p.wire_bytes().len() == 16,
        cmd matches CommandType::Config(p) ==> p.wire_bytes().len() == 76,
{
    lemma_auto_spec_u32_to_from_le_bytes();
    match cmd {
        CommandType::SetThrottle(p) => {
            assert(p.wire_bytes().len() == 4);
        },
        CommandType::SetPoint(p) => {
            assert(p.wire_bytes().len() == 12);
        },
        CommandType::HeartBeat(p) => {
            assert(p.wire_bytes().len() == 16);
        },
        CommandType::TunePID(p) => {
            assert(p.wire_bytes().len() == 21);
        },
        CommandType::SetMotorThrottle(p) => {
            assert(p.wire_bytes().len() == 16);
        },
        CommandType::Config(p) => {
            assert((spec_u32_to_le_bytes(p.motor1) + spec_u32_to_le_bytes(p.motor2)
                + spec_u32_to_le_bytes(p.motor3) + spec_u32_to_le_bytes(p.motor4)).len() == 16);
            assert((spec_u32_to_le_bytes(p.motor1) + spec_u32_to_le_bytes(p.motor2)
                + spec_u32_to_le_bytes(p.motor3) + spec_u32_to_le_bytes(p.motor4)
                + spec_u32_to_le_bytes(p.roll_kp) + spec_u32_to_le_bytes(p.roll_ki)
                + spec_u32_to_le_bytes(p.roll_kd) + spec_u32_to_le_bytes(p.roll_i_limit)
                + spec_u32_to_le_bytes(p.roll_pid_limit)).len() == 36);
            assert((spec_u32_to_le_bytes(p.motor1) + spec_u32_to_le_bytes(p.motor2)
                + spec_u32_to_le_bytes(p.motor3) + spec_u32_to_le_bytes(p.motor4)
                + spec_u32_to_le_bytes(p.roll_kp) + spec_u32_to_le_bytes(p.roll_ki)
                + spec_u32_to_le_bytes(p.roll_kd) + spec_u32_to_le_bytes(p.roll_i_limit)
                + spec_u32_to_le_bytes(p.roll_pid_limit) + spec_u32_to_le_bytes(p.pitch_kp)
                + spec_u32_to_le_bytes(p.pitch_ki) + spec_u32_to_le_bytes(p.pitch_kd)
                + spec_u32_to_le_bytes(p.pitch_i_limit) + spec_u32_to_le_bytes(
                p.pitch_pid_limit,
            )).len() == 56);
            assert(p.wire_bytes().len() == 76);
        },
        _ => {},
    }
}

/// Every payload-bearing command renders as its two-letter tag, a
/// colon, and well-formed upper-case hex of exactly twice the record's
/// size.
pub proof fn lemma_encode_shape(cmd: CommandType)
    ensures
        spec_payload_bytes(cmd) matches Some(b) ==> {
            &&& spec_ascii_bytes(cmd) == spec_tag(cmd) + spec_hex_upper(b)
            &&& spec_tag(cmd).len() == 3
            &&& spec_tag(cmd)[2] == 58
            &&& spec_hex_upper(b).len() == 2 * b.len()
            &&& crate::text::spec_is_hex(spec_ascii_bytes(cmd).skip(3))
        },
{
    if let Some(b) = spec_payload_bytes(cmd) {
        lemma_hex_round_trip(b);
        assert((spec_tag(cmd) + spec_hex_upper(b)).skip(3) =~= spec_hex_upper(b));
    }
}

// ---------------------------------------------------------------------------
// Telemetry record
// ---------------------------------------------------------------------------
/// Size of the packed telemetry record on the wire.
pub const TELEMETRY_RECORD_BYTES: usize = 62;

/// The packed wire form of a telemetry record: fifteen little-endian
/// 32-bit words, then the state and flag bytes. The host receipt stamp is
/// not part of the record.
pub open spec fn spec_record_bytes(t: TelemetryData) -> Seq<u8> {
    spec_u32_to_le_bytes(t.timestamp) + spec_u32_to_le_bytes(t.roll) + spec_u32_to_le_bytes(
        t.pitch,
    ) + spec_u32_to_le_bytes(t.yaw) + spec_u32_to_le_bytes(t.roll_p) + spec_u32_to_le_bytes(
        t.roll_i,
    ) + spec_u32_to_le_bytes(t.roll_d) + spec_u32_to_le_bytes(t.pitch_p) + spec_u32_to_le_bytes(
        t.pitch_i,
    ) + spec_u32_to_le_bytes(t.pitch_d) + spec_u32_to_le_bytes(t.yaw_p) + spec_u32_to_le_bytes(
        t.yaw_i,
    ) + spec_u32_to_le_bytes(t.yaw_d) + spec_u32_to_le_bytes(t.altitude) + spec_u32_to_le_bytes(
        t.battery_voltage,
    ) + seq![t.state, t.flags]
}

/// One 32-bit word of the record, by byte offset.
pub open spec fn spec_record_word(b: Seq<u8>, off: int) -> u32 {
    spec_u32_from_le_bytes(b.subrange(off, off + 4))
}

/// The record a 62-byte sequence denotes, stamped with the given host
/// receipt time.
pub open spec fn spec_decode_record(b: Seq<u8>, clock_millis: i64) -> TelemetryData {
    TelemetryData {
        timestamp: spec_record_word(b, 0),
        clock_millis,
        roll: spec_record_word(b, 4),
        pitch: spec_record_word(b, 8),
        yaw: spec_record_word(b, 12),
        roll_p: spec_record_word(b, 16),
        roll_i: spec_record_word(b, 20),
        roll_d: spec_record_word(b, 24),
        pitch_p: spec_record_word(b, 28),
        pitch_i: spec_record_word(b, 32),
        pitch_d: spec_record_word(b, 36),
        yaw_p: spec_record_word(b, 40),
        yaw_i: spec_record_word(b, 44),
        yaw_d: spec_record_word(b, 48),
        altitude: spec_record_word(b, 52),
        battery_voltage: spec_record_word(b, 56),
        state: b[60],
        flags: b[61],
    }
}

/// Serializes a telemetry record field by field.
pub fn record_to_bytes(t: &TelemetryData) -> (r: Vec<u8>)
    ensures
        r@ == spec_record_bytes(*t),
        r@.len() == TELEMETRY_RECORD_BYTES,
{
    proof {
        lemma_auto_spec_u32_to_from_le_bytes();
    }
    let mut v: Vec<u8> = Vec::new();
    push_u32_le(&mut v, t.timestamp);
    push_u32_le(&mut v, t.roll);
    push_u32_le(&mut v, t.pitch);
    push_u32_le(&mut v, t.yaw);
    push_u32_le(&mut v, t.roll_p);
    push_u32_le(&mut v, t.roll_i);
    push_u32_le(&mut v, t.roll_d);
    push_u32_le(&mut v, t.pitch_p);
    push_u32_le(&mut v, t.pitch_i);
    push_u32_le(&mut v, t.pitch_d);
    push_u32_le(&mut v, t.yaw_p);
    push_u32_le(&mut v, t.yaw_i);
    push_u32_le(&mut v, t.yaw_d);
    push_u32_le(&mut v, t.altitude);
    push_u32_le(&mut v, t.battery_voltage);
    v.push(t.state);
    v.push(t.flags);
    assert(v@ =~= spec_record_bytes(*t));
    v
}

fn read_record_word(b: &[u8], off: usize) -> (r: u32)
    requires
        off + 4 <= b@.len(),
    ensures
        r == spec_record_word(b@, off as int),
{
    let n = b.len();
    assert(off + 4 <= n);
    u32_from_le_bytes(slice_subrange(b, off, off + 4))
}

/// Decodes a packed telemetry record, stamping it with the given host
/// receipt time; `None` exactly when the length is wrong.
pub fn decode_record(b: &[u8], clock_millis: i64) -> (r: Option<TelemetryData>)
    ensures
        r is Some <==> b@.len() == TELEMETRY_RECORD_BYTES,
        r matches Some(t) ==> t == spec_decode_record(b@, clock_millis),
{
    if b.len() != TELEMETRY_RECORD_BYTES {
        return None;
    }
    Some(
        TelemetryData {
            timestamp: read_record_word(b, 0),
            clock_millis,
            roll: read_record_word(b, 4),
            pitch: read_record_word(b, 8),
            yaw: read_record_word(b, 12),
            roll_p: read_record_word(b, 16),
            roll_i: read_record_word(b, 20),
            roll_d: read_record_word(b, 24),
            pitch_p: read_record_word(b, 28),
            pitch_i: read_record_word(b, 32),
            pitch_d: read_record_word(b, 36),
            yaw_p: read_record_word(b, 40),
            yaw_i: read_record_word(b, 44),
            yaw_d: read_record_word(b, 48),
            altitude: read_record_word(b, 52),
            battery_voltage: read_record_word(b, 56),
            state: b[60],
            flags: b[61],
        },
    )
}

/// Serializing a record and reading it back gives the record: the packed
/// layout loses nothing.
pub proof fn lemma_record_round_trip(t: TelemetryData)
    ensures
        spec_record_bytes(t).len() == TELEMETRY_RECORD_BYTES,
        spec_decode_record(spec_record_bytes(t), t.clock_millis) == t,
{
    lemma_auto_spec_u32_to_from_le_bytes();
    let b = spec_record_bytes(t);
    assert(b.subrange(0, 4) =~= spec_u32_to_le_bytes(t.timestamp));
    assert(b.subrange(4, 8) =~= spec_u32_to_le_bytes(t.roll));
    assert(b.subrange(8, 12) =~= spec_u32_to_le_bytes(t.pitch));
    assert(b.subrange(12, 16) =~= spec_u32_to_le_bytes(t.yaw));
    assert(b.subrange(16, 20) =~= spec_u32_to_le_bytes(t.roll_p));
    assert(b.subrange(20, 24) =~= spec_u32_to_le_bytes(t.roll_i));
    assert(b.subrange(24, 28) =~= spec_u32_to_le_bytes(t.roll_d));
    assert(b.subrange(28, 32) =~= spec_u32_to_le_bytes(t.pitch_p));
    assert(b.subrange(32, 36) =~= spec_u32_to_le_bytes(t.pitch_i));
    assert(b.subrange(36, 40) =~= spec_u32_to_le_bytes(t.pitch_d));
    assert(b.subrange(40, 44) =~= spec_u32_to_le_bytes(t.yaw_p));
    assert(b.subrange(44, 48) =~= spec_u32_to_le_bytes(t.yaw_i));
    assert(b.subrange(48, 52) =~= spec_u32_to_le_bytes(t.yaw_d));
    assert(b.subrange(52, 56) =~= spec_u32_to_le_bytes(t.altitude));
    assert(b.subrange(56, 60) =~= spec_u32_to_le_bytes(t.battery_voltage));
    assert(b[60] == t.state && b[61] == t.flags);
}

} // verus!
