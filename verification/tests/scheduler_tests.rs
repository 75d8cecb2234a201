use drone_link::codec::CommandType;
use drone_link::queue::{
    send_command_reset, send_command_set_throttle, send_command_start, CommandQueue,
};
use drone_link::scheduler::{heartbeat_tick, ControllerState};
use drone_link::settings::PersistentSettings;

fn idle_sticks() -> ControllerState {
    ControllerState { throttle: 0, roll: 0, pitch: 0, yaw: 0 }
}

#[test]
fn empty_queue_ticks_a_heartbeat() {
    let mut q = CommandQueue::new();
    let settings = PersistentSettings::default();
    let ((addr, line), cfg) = heartbeat_tick(&mut q, false, &settings, &idle_sticks(), 2);
    assert_eq!(addr, 2);
    assert_eq!(line, "HB:00000000000000000000000000000000");
    assert!(!cfg);
    assert_eq!(q.len(), 0);
}

#[test]
fn heartbeat_carries_commanded_state() {
    let mut q = CommandQueue::new();
    let settings = PersistentSettings::default();
    let sticks = ControllerState {
        throttle: 1.0f32.to_bits(),
        roll: 0,
        pitch: 0,
        yaw: 0,
    };
    let ((_, line), _) = heartbeat_tick(&mut q, false, &settings, &sticks, 2);
    assert_eq!(line, "HB:0000803F000000000000000000000000");
}

#[test]
fn queued_command_preempts_heartbeat_and_is_removed() {
    let mut q = CommandQueue::new();
    let settings = PersistentSettings::default();
    send_command_start(&mut q, 7).unwrap();
    let ((addr, line), _) = heartbeat_tick(&mut q, false, &settings, &idle_sticks(), 2);
    assert_eq!((addr, line.as_str()), (7, "FC:START"));
    assert_eq!(q.len(), 0);
    // The next tick falls back to the heartbeat again.
    let ((addr, line), _) = heartbeat_tick(&mut q, false, &settings, &idle_sticks(), 2);
    assert_eq!(addr, 2);
    assert!(line.starts_with("HB:"));
}

#[test]
fn estop_latch_preempts_every_tick_until_reset() {
    let mut q = CommandQueue::new();
    let settings = PersistentSettings::default();
    q.enqueue(1, CommandType::EmergencyStop);
    // Each tick transmits the estop token, whatever else arrives.
    for _ in 0..3 {
        let ((_, line), _) = heartbeat_tick(&mut q, false, &settings, &idle_sticks(), 1);
        assert_eq!(line, "ES");
        send_command_set_throttle(&mut q, 1, 0.5f32.to_bits()).unwrap();
    }
    let ((_, line), _) = heartbeat_tick(&mut q, false, &settings, &idle_sticks(), 1);
    assert_eq!(line, "ES");
    // A reset clears the latch; normal queue flow resumes, draining the
    // queued entries in order — the stale estop entry once, then the
    // coalesced throttle, then the reset itself, then heartbeats again.
    send_command_reset(&mut q, 1).unwrap();
    assert!(!q.is_estop_active());
    let ((_, line), _) = heartbeat_tick(&mut q, false, &settings, &idle_sticks(), 1);
    assert_eq!(line, "ES");
    let ((_, line), _) = heartbeat_tick(&mut q, false, &settings, &idle_sticks(), 1);
    assert!(line.starts_with("ST:"));
    let ((_, line), _) = heartbeat_tick(&mut q, false, &settings, &idle_sticks(), 1);
    assert_eq!(line, "FC:RESET");
    let ((_, line), _) = heartbeat_tick(&mut q, false, &settings, &idle_sticks(), 1);
    assert!(line.starts_with("HB:"));
}

#[test]
fn config_request_is_queued_and_flag_cleared() {
    let mut q = CommandQueue::new();
    let settings = PersistentSettings::default();
    let ((addr, line), cfg) = heartbeat_tick(&mut q, true, &settings, &idle_sticks(), 9);
    assert!(!cfg);
    assert_eq!(addr, 9);
    assert!(line.starts_with("CF:"));
    assert_eq!(line.len(), 3 + 2 * 76);
    assert_eq!(q.len(), 0);
}
