use drone_link::codec::Axis;
use drone_link::settings::{PersistentSettings, PidParameters};

#[test]
fn defaults_are_the_documented_bit_patterns() {
    let s = PersistentSettings::default();
    assert_eq!(f32::from_bits(s.pid_roll.p), 1.0);
    assert_eq!(f32::from_bits(s.pid_roll.i), 0.0);
    assert_eq!(f32::from_bits(s.pid_roll.d), 0.0);
    assert_eq!(f32::from_bits(s.pid_roll.i_limit), 10.0);
    assert_eq!(f32::from_bits(s.pid_roll.pid_limit), 100.0);
    assert_eq!(s.motor_throttles, [0, 0, 0, 0]);
    assert_eq!(s.selected_tune_axis, Axis::Roll);
    assert!(!s.is_manual_mode);
}

#[test]
fn get_and_set_pid_select_the_axis() {
    let mut s = PersistentSettings::default();
    let tuned = PidParameters {
        p: 2.0f32.to_bits(),
        i: 0.5f32.to_bits(),
        d: 0.1f32.to_bits(),
        i_limit: 5.0f32.to_bits(),
        pid_limit: 50.0f32.to_bits(),
    };
    s.set_pid(Axis::Pitch, tuned);
    assert_eq!(*s.get_pid(Axis::Pitch), tuned);
    assert_eq!(*s.get_pid(Axis::Roll), PidParameters::default());
    assert_eq!(*s.get_pid(Axis::Yaw), PidParameters::default());
}

#[test]
fn config_packet_mirrors_settings_fields() {
    let mut s = PersistentSettings::default();
    s.motor_throttles = [1, 2, 3, 4];
    s.set_pid(
        Axis::Yaw,
        PidParameters { p: 7, i: 8, d: 9, i_limit: 10, pid_limit: 11 },
    );
    let c = s.to_config_packet();
    assert_eq!(
        (c.motor1, c.motor2, c.motor3, c.motor4),
        (1, 2, 3, 4)
    );
    assert_eq!((c.yaw_kp, c.yaw_ki, c.yaw_kd), (7, 8, 9));
    assert_eq!((c.yaw_i_limit, c.yaw_pid_limit), (10, 11));
    assert_eq!(c.roll_kp, s.pid_roll.p);
    assert_eq!(c.pitch_kp, s.pid_pitch.p);
}
