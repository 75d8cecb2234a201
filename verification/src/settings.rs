//! The operator-tuned settings the ground station keeps between sessions:
//! motor bias, per-axis PID parameters, and per-motor throttle values.
//!
//! All physical quantities are IEEE-754 single-precision bit patterns;
//! storage to disk and back is the shell's business, the library only
//! shapes the values into the configuration record the controller asks
//! for.

use vstd::prelude::*;

verus! {

use crate::codec::{Axis, ConfigPacket};

/// Bit pattern of 1.0f32.
pub const F32_BITS_ONE: u32 = 0x3F80_0000;

/// Bit pattern of 10.0f32.
pub const F32_BITS_TEN: u32 = 0x4120_0000;

/// Bit pattern of 100.0f32.
pub const F32_BITS_HUNDRED: u32 = 0x42C8_0000;

/// PID gains and limits for one axis, as bit patterns.
#[derive(Clone, Copy, Debug, PartialEq, Eq, Structural)]
pub struct PidParameters {
    pub p: u32,
    pub i: u32,
    pub d: u32,
    pub i_limit: u32,
    pub pid_limit: u32,
}

impl Default for PidParameters {
    /// Unit proportional gain, no integral or derivative action, and
    /// conservative limits.
    fn default() -> (r: Self)
        ensures
            r == (PidParameters {
                p: F32_BITS_ONE,
                i: 0,
                d: 0,
                i_limit: F32_BITS_TEN,
                pid_limit: F32_BITS_HUNDRED,
            }),
    {
        PidParameters { p: F32_BITS_ONE, i: 0, d: 0, i_limit: F32_BITS_TEN, pid_limit: F32_BITS_HUNDRED }
    }
}

/// Per-motor trim applied on top of the common throttle, as bit
/// patterns.
#[derive(Clone, Copy, Debug, PartialEq, Eq, Structural)]
pub struct MotorBias {
    pub motor1: u32,
    pub motor2: u32,
    pub motor3: u32,
    pub motor4: u32,
}

impl Default for MotorBias {
    /// No trim on any motor.
    fn default() -> (r: Self)
        ensures
            r == (MotorBias { motor1: 0, motor2: 0, motor3: 0, motor4: 0 }),
    {
        MotorBias { motor1: 0, motor2: 0, motor3: 0, motor4: 0 }
    }
}

/// Everything the operator tunes, plus two bits of session-only UI
/// state (selected axis, manual mode).
#[derive(Clone, Copy, Debug)]
pub struct PersistentSettings {
    pub motor_bias: MotorBias,
    pub pid_roll: PidParameters,
    pub pid_pitch: PidParameters,
    pub pid_yaw: PidParameters,
    pub motor_throttles: [u32; 4],
    pub selected_tune_axis: Axis,
    pub is_manual_mode: bool,
}

impl Default for PersistentSettings {
    fn default() -> (r: Self)
        ensures
            r.motor_bias == (MotorBias { motor1: 0, motor2: 0, motor3: 0, motor4: 0 }),
            r.pid_roll == (PidParameters {
                p: F32_BITS_ONE,
                i: 0,
                d: 0,
                i_limit: F32_BITS_TEN,
                pid_limit: F32_BITS_HUNDRED,
            }),
            r.pid_pitch == r.pid_roll,
            r.pid_yaw == r.pid_roll,
            r.motor_throttles@ =~= seq![0u32, 0u32, 0u32, 0u32],
            r.selected_tune_axis == Axis::Roll,
            !r.is_manual_mode,
    {
        PersistentSettings {
            motor_bias: MotorBias::default(),
            pid_roll: PidParameters::default(),
            pid_pitch: PidParameters::default(),
            pid_yaw: PidParameters::default(),
            motor_throttles: [0, 0, 0, 0],
            selected_tune_axis: Axis::Roll,
            is_manual_mode: false,
        }
    }
}

/// The PID parameters a given axis uses.
pub open spec fn spec_pid_for(s: PersistentSettings, axis: Axis) -> PidParameters {
    match axis {
        Axis::Roll => s.pid_roll,
        Axis::Pitch => s.pid_pitch,
        Axis::Yaw => s.pid_yaw,
    }
}

/// The configuration record these settings denote: per-motor throttle
/// values first, then the three PID axes in roll, pitch, yaw order.
pub open spec fn spec_config_packet(s: PersistentSettings) -> ConfigPacket {
    ConfigPacket {
        motor1: s.motor_throttles@[0],
        motor2: s.motor_throttles@[1],
        motor3: s.motor_throttles@[2],
        motor4: s.motor_throttles@[3],
        roll_kp: s.pid_roll.p,
        roll_ki: s.pid_roll.i,
        roll_kd: s.pid_roll.d,
        roll_i_limit: s.pid_roll.i_limit,
        roll_pid_limit: s.pid_roll.pid_limit,
        pitch_kp: s.pid_pitch.p,
        pitch_ki: s.pid_pitch.i,
        pitch_kd: s.pid_pitch.d,
        pitch_i_limit: s.pid_pitch.i_limit,
        pitch_pid_limit: s.pid_pitch.pid_limit,
        yaw_kp: s.pid_yaw.p,
        yaw_ki: s.pid_yaw.i,
        yaw_kd: s.pid_yaw.d,
        yaw_i_limit: s.pid_yaw.i_limit,
        yaw_pid_limit: s.pid_yaw.pid_limit,
    }
}

impl PersistentSettings {
    /// The PID parameters of the given axis.
    pub fn get_pid(&self, axis: Axis) -> (r: &PidParameters)
        ensures
            *r == spec_pid_for(*self, axis),
    {
        match axis {
            Axis::Roll => &self.pid_roll,
            Axis::Pitch => &self.pid_pitch,
            Axis::Yaw => &self.pid_yaw,
        }
    }

    /// Replaces the PID parameters of the given axis, leaving the rest
    /// untouched.
    pub fn set_pid(&mut self, axis: Axis, pid: PidParameters)
        ensures
            spec_pid_for(*final(self), axis) == pid,
            forall|a: Axis| a != axis ==> spec_pid_for(*final(self), a) == spec_pid_for(
                *old(self),
                a,
            ),
            final(self).motor_bias == old(self).motor_bias,
            final(self).motor_throttles == old(self).motor_throttles,
            final(self).selected_tune_axis == old(self).selected_tune_axis,
            final(self).is_manual_mode == old(self).is_manual_mode,
    {
        match axis {
            Axis::Roll => {
                self.pid_roll = pid;
            },
            Axis::Pitch => {
                self.pid_pitch = pid;
            },
            Axis::Yaw => {
                self.pid_yaw = pid;
            },
        }
    }

    /// Shapes the settings into the configuration record sent to the
    /// controller.
    pub fn to_config_packet(&self) -> (r: ConfigPacket)
        ensures
            r == spec_config_packet(*self),
    {
        ConfigPacket {
            motor1: self.motor_throttles[0],
            motor2: self.motor_throttles[1],
            motor3: self.motor_throttles[2],
            motor4: self.motor_throttles[3],
            roll_kp: self.pid_roll.p,
            roll_ki: self.pid_roll.i,
            roll_kd: self.pid_roll.d,
            roll_i_limit: self.pid_roll.i_limit,
            roll_pid_limit: self.pid_roll.pid_limit,
            pitch_kp: self.pid_pitch.p,
            pitch_ki: self.pid_pitch.i,
            pitch_kd: self.pid_pitch.d,
            pitch_i_limit: self.pid_pitch.i_limit,
            pitch_pid_limit: self.pid_pitch.pid_limit,
            yaw_kp: self.pid_yaw.p,
            yaw_ki: self.pid_yaw.i,
            yaw_kd: self.pid_yaw.d,
            yaw_i_limit: self.pid_yaw.i_limit,
            yaw_pid_limit: self.pid_yaw.pid_limit,
        }
    }
}

} // verus!
