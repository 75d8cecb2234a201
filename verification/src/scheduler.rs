//! The heartbeat scheduler: what gets transmitted on each fixed-period
//! tick while the link is up.
//!
//! Exactly one transmission happens per tick. A requested configuration
//! is queued first; a latched emergency stop preempts everything; else
//! the oldest queued command goes out; else a heartbeat carrying the
//! commanded stick state keeps the controller from failing safe.

use vstd::prelude::*;

verus! {

use crate::codec::{spec_ascii_bytes, token_emergency_stop, CommandType, HeartBeatPacket};
use crate::queue::{
    spec_enqueue_estop, spec_enqueue_pending, CommandQueue, QueuedCommand,
};
use crate::settings::{spec_config_packet, PersistentSettings};
use crate::text::chars_bytes;

/// The live commanded stick state, as bit patterns.
#[derive(Clone, Copy, Debug, PartialEq, Eq, Structural)]
pub struct ControllerState {
    pub throttle: u32,
    pub roll: u32,
    pub pitch: u32,
    pub yaw: u32,
}

impl Default for ControllerState {
    /// Sticks centered, throttle down.
    fn default() -> (r: Self)
        ensures
            r == (ControllerState { throttle: 0, roll: 0, pitch: 0, yaw: 0 }),
    {
        ControllerState { throttle: 0, roll: 0, pitch: 0, yaw: 0 }
    }
}

/// The heartbeat command a tick synthesizes from the commanded state.
pub open spec fn spec_heartbeat_kind(c: ControllerState) -> CommandType {
    CommandType::HeartBeat(
        HeartBeatPacket {
            base_throttle: c.throttle,
            roll: c.roll,
            pitch: c.pitch,
            yaw: c.yaw,
        },
    )
}

/// The configuration command a tick synthesizes from the settings.
pub open spec fn spec_config_kind(s: PersistentSettings) -> CommandType {
    CommandType::Config(spec_config_packet(s))
}

/// The pending list after the configuration-request step of a tick.
pub open spec fn spec_tick_queued(
    pending: Seq<QueuedCommand>,
    config_requested: bool,
    s: PersistentSettings,
    address: u16,
) -> Seq<QueuedCommand> {
    if config_requested {
        spec_enqueue_pending(pending, address, spec_config_kind(s))
    } else {
        pending
    }
}

/// The one transmission of a tick: destination address and line bytes.
pub open spec fn spec_tick_line(
    pending: Seq<QueuedCommand>,
    estop: bool,
    c: ControllerState,
    address: u16,
) -> (u16, Seq<u8>) {
    if estop {
        (address, token_emergency_stop())
    } else if pending.len() > 0 {
        (pending[0].address, spec_ascii_bytes(pending[0].kind))
    } else {
        (address, spec_ascii_bytes(spec_heartbeat_kind(c)))
    }
}

/// What stays pending after the tick transmits.
pub open spec fn spec_tick_pending(pending: Seq<QueuedCommand>, estop: bool) -> Seq<
    QueuedCommand,
> {
    if estop || pending.len() == 0 {
        pending
    } else {
        pending.drop_first()
    }
}

/// While the emergency stop is latched, every tick transmits the estop
/// token, whatever is queued and whatever the sticks command.
pub proof fn lemma_tick_estop_preempts(
    pending: Seq<QueuedCommand>,
    c: ControllerState,
    address: u16,
)
    ensures
        spec_tick_line(pending, true, c, address).1 == token_emergency_stop(),
        spec_tick_pending(pending, true) == pending,
{
}

/// With the latch clear, a tick forwards the oldest queued command and
/// removes it; with nothing queued it falls back to a heartbeat carrying
/// the commanded stick state.
pub proof fn lemma_tick_fallback(pending: Seq<QueuedCommand>, c: ControllerState, address: u16)
    ensures
        pending.len() == 0 ==> spec_tick_line(pending, false, c, address) == (
            address,
            spec_ascii_bytes(spec_heartbeat_kind(c)),
        ) && spec_tick_pending(pending, false) == pending,
        pending.len() > 0 ==> spec_tick_line(pending, false, c, address) == (
            pending[0].address,
            spec_ascii_bytes(pending[0].kind),
        ) && spec_tick_pending(pending, false) == pending.drop_first(),
{
}

/// The emergency-stop latch after a run of commands arrives.
pub open spec fn spec_enqueue_estop_all(estop: bool, kinds: Seq<CommandType>) -> bool
    decreases kinds.len(),
{
    if kinds.len() == 0 {
        estop
    } else {
        spec_enqueue_estop_all(spec_enqueue_estop(estop, kinds.first()), kinds.drop_first())
    }
}

/// Once latched, the emergency stop survives any run of commands that
/// holds no reset: until a reset arrives, every tick keeps transmitting
/// the estop token.
pub proof fn lemma_estop_until_reset(estop: bool, kinds: Seq<CommandType>)
    requires
        estop,
        forall|i: int| 0 <= i < kinds.len() ==> !((#[trigger] kinds[i]) is Reset),
    ensures
        spec_enqueue_estop_all(estop, kinds),
    decreases kinds.len(),
{
    if kinds.len() > 0 {
        assert(!(kinds[0] is Reset));
        lemma_estop_until_reset(spec_enqueue_estop(estop, kinds.first()), kinds.drop_first());
    }
}

/// One scheduler tick: queues a requested configuration first, then
/// transmits exactly one line — the estop token while the latch is set,
/// else the oldest queued command, else a heartbeat. Returns the
/// destination and line, and the cleared configuration-request flag.
pub fn heartbeat_tick(
    queue: &mut CommandQueue,
    config_requested: bool,
    settings: &PersistentSettings,
    control: &ControllerState,
    address: u16,
) -> (r: ((u16, String), bool))
    requires
        old(queue).wf(),
    ensures
        final(queue).wf(),
        !r.1,
        ({
            let queued = spec_tick_queued(
                old(queue).pending(),
                config_requested,
                *settings,
                address,
            );
            let line = spec_tick_line(queued, old(queue).estop(), *control, address);
            &&& final(queue).estop() == old(queue).estop()
            &&& final(queue).pending() == spec_tick_pending(queued, old(queue).estop())
            &&& r.0.0 == line.0
            &&& r.0.1.is_ascii()
            &&& chars_bytes(r.0.1@) == line.1
        }),
{
    if config_requested {
        let packet = settings.to_config_packet();
        queue.enqueue(address, CommandType::Config(packet));
    }
    if queue.is_estop_active() {
        let line = CommandType::EmergencyStop.get_ascii();
        return ((address, line), false);
    }
    match queue.dequeue() {
        Some(entry) => (entry, false),
        None => {
            let beat = CommandType::HeartBeat(
                HeartBeatPacket {
                    base_throttle: control.throttle,
                    roll: control.roll,
                    pitch: control.pitch,
                    yaw: control.yaw,
                },
            );
            ((address, beat.get_ascii()), false)
        },
    }
}

} // verus!
