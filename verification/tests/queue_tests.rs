use drone_link::codec::{Attitude, Axis, CommandType, PIDController, ThrottlePacket};
use drone_link::queue::{
    send_command_calibrate, send_command_emergency_stop, send_command_reset,
    send_command_set_point, send_command_set_throttle, send_command_start,
    send_command_start_manual, send_command_stop, send_command_tune_pid, CommandQueue,
};

#[test]
fn coalescing_keeps_only_newest_of_a_kind() {
    let mut q = CommandQueue::new();
    send_command_set_throttle(&mut q, 2, 0.2f32.to_bits()).unwrap();
    send_command_set_throttle(&mut q, 2, 0.8f32.to_bits()).unwrap();
    assert_eq!(q.len(), 1);
    let e = q.pending_at(0);
    assert_eq!(e.address, 2);
    assert_eq!(e.kind, CommandType::SetThrottle(ThrottlePacket(0.8f32.to_bits())));
}

#[test]
fn coalescing_preserves_order_of_other_kinds() {
    let mut q = CommandQueue::new();
    send_command_start(&mut q, 1).unwrap();
    send_command_set_throttle(&mut q, 1, 0.1f32.to_bits()).unwrap();
    send_command_stop(&mut q, 1).unwrap();
    send_command_set_throttle(&mut q, 1, 0.9f32.to_bits()).unwrap();
    assert_eq!(q.len(), 3);
    assert_eq!(q.pending_at(0).kind, CommandType::Start);
    assert_eq!(q.pending_at(1).kind, CommandType::Stop);
    assert_eq!(q.pending_at(2).kind, CommandType::SetThrottle(ThrottlePacket(0.9f32.to_bits())));
}

#[test]
fn emergency_stop_preempts_everything() {
    let mut q = CommandQueue::new();
    send_command_start(&mut q, 1).unwrap();
    send_command_calibrate(&mut q, 1).unwrap();
    send_command_set_throttle(&mut q, 1, 0.4f32.to_bits()).unwrap();
    assert_eq!(q.len(), 3);
    send_command_emergency_stop(&mut q, 1).unwrap();
    assert_eq!(q.len(), 1);
    assert_eq!(q.pending_at(0).kind, CommandType::EmergencyStop);
    assert!(q.is_estop_active());
    // Further commands of other kinds leave the latch set.
    send_command_stop(&mut q, 1).unwrap();
    send_command_start_manual(&mut q, 1).unwrap();
    assert!(q.is_estop_active());
    // Only a reset clears it.
    send_command_reset(&mut q, 1).unwrap();
    assert!(!q.is_estop_active());
}

#[test]
fn dequeue_pops_fifo_and_renders() {
    let mut q = CommandQueue::new();
    send_command_start(&mut q, 3).unwrap();
    send_command_stop(&mut q, 4).unwrap();
    assert_eq!(q.dequeue(), Some((3, "FC:START".to_string())));
    assert_eq!(q.dequeue(), Some((4, "FC:STOP".to_string())));
    assert_eq!(q.dequeue(), None);
}

#[test]
fn tune_pid_carries_axis_code() {
    let mut q = CommandQueue::new();
    send_command_tune_pid(
        &mut q,
        2,
        Axis::Yaw,
        PIDController { p: 0, i: 0, d: 0, i_limit: 0, pid_limit: 0 },
    )
    .unwrap();
    let (_, line) = q.dequeue().unwrap();
    assert!(line.starts_with("TP:"));
    // The axis code is the final record byte: yaw encodes as 2.
    assert!(line.ends_with("02"));
}

#[test]
fn set_point_carries_attitude_fields() {
    let mut q = CommandQueue::new();
    send_command_set_point(
        &mut q,
        2,
        Attitude { roll: 0.5f32.to_bits(), pitch: 0, yaw: 0 },
    )
    .unwrap();
    let (_, line) = q.dequeue().unwrap();
    assert_eq!(line, "SP:0000003F0000000000000000");
}
