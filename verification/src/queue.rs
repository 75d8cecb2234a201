//! The coalescing command queue shared by the UI and the link worker.
//!
//! At most one entry is pending per command kind: a newer command of the
//! same kind replaces the older one, since commands express current
//! desired state, not a log. An emergency stop clears everything else and
//! latches a flag that the heartbeat scheduler obeys until a reset.

use vstd::prelude::*;

verus! {

use crate::codec::{
    spec_ascii_bytes, spec_axis_code, Attitude, Axis, CommandType, ConfigPacket,
    MotorThrottlePacket, PIDController, PIDTunePacket, SetpointPacket, ThrottlePacket,
};
use crate::text::chars_bytes;

/// One pending command and its destination address.
#[derive(Clone, Copy, Debug, PartialEq, Eq, Structural)]
pub struct QueuedCommand {
    pub address: u16,
    pub kind: CommandType,
}

/// The discriminant used for coalescing: same code, same kind of
/// command, whatever the payload.
pub open spec fn spec_kind_code(k: CommandType) -> int {
    match k {
        CommandType::Start => 0,
        CommandType::Stop => 1,
        CommandType::EmergencyStop => 2,
        CommandType::StartManual => 3,
        CommandType::SetThrottle(_) => 4,
        CommandType::SetPoint(_) => 5,
        CommandType::TunePID(_) => 6,
        CommandType::HeartBeat(_) => 7,
        CommandType::SetMotorThrottle(_) => 8,
        CommandType::Config(_) => 9,
        CommandType::Calibrate => 10,
        CommandType::Reset => 11,
    }
}

fn kind_code(k: &CommandType) -> (r: u8)
    ensures
        r as int == spec_kind_code(*k),
{
    match k {
        CommandType::Start => 0,
        CommandType::Stop => 1,
        CommandType::EmergencyStop => 2,
        CommandType::StartManual => 3,
        CommandType::SetThrottle(_) => 4,
        CommandType::SetPoint(_) => 5,
        CommandType::TunePID(_) => 6,
        CommandType::HeartBeat(_) => 7,
        CommandType::SetMotorThrottle(_) => 8,
        CommandType::Config(_) => 9,
        CommandType::Calibrate => 10,
        CommandType::Reset => 11,
    }
}

/// No two pending entries share a command kind.
pub open spec fn distinct_kinds(s: Seq<QueuedCommand>) -> bool {
    forall|i: int, j: int|
        0 <= i < j < s.len() ==> spec_kind_code(s[i].kind) != spec_kind_code(s[j].kind)
}

/// The pending list with every entry of the given kind removed, order
/// otherwise kept.
pub open spec fn spec_coalesce(pending: Seq<QueuedCommand>, kind: CommandType) -> Seq<
    QueuedCommand,
>
    decreases pending.len(),
{
    if pending.len() == 0 {
        Seq::empty()
    } else {
        let rest = spec_coalesce(pending.drop_last(), kind);
        if spec_kind_code(pending.last().kind) == spec_kind_code(kind) {
            rest
        } else {
            rest.push(pending.last())
        }
    }
}

/// Coalescing removes exactly the same-kind entries: what is left is from
/// the original list, none of it shares the new command's kind, and no
/// two entries come to share a kind.
pub proof fn lemma_coalesce_props(p: Seq<QueuedCommand>, kind: CommandType)
    ensures
        forall|i: int|
            0 <= i < spec_coalesce(p, kind).len() ==> spec_kind_code(
                (#[trigger] spec_coalesce(p, kind)[i]).kind,
            ) != spec_kind_code(kind),
        forall|i: int|
            0 <= i < spec_coalesce(p, kind).len() ==> p.contains(
                #[trigger] spec_coalesce(p, kind)[i],
            ),
        distinct_kinds(p) ==> distinct_kinds(spec_coalesce(p, kind)),
    decreases p.len(),
{
    if p.len() > 0 {
        lemma_coalesce_props(p.drop_last(), kind);
        let rest = spec_coalesce(p.drop_last(), kind);
        let co = spec_coalesce(p, kind);
        assert forall|i: int| 0 <= i < co.len() implies p.contains(#[trigger] co[i]) by {
            if i < rest.len() {
                assert(p.drop_last().contains(rest[i]));
                let j = choose|j: int| 0 <= j < p.drop_last().len() && p.drop_last()[j] == rest[i];
                assert(p[j] == co[i]);
            } else {
                assert(co[i] == p.last());
                assert(p[p.len() - 1] == p.last());
            }
        }
        if distinct_kinds(p) {
            assert(distinct_kinds(p.drop_last()));
            if spec_kind_code(p.last().kind) != spec_kind_code(kind) {
                assert forall|i: int, j: int| 0 <= i < j < co.len() implies spec_kind_code(
                    co[i].kind,
                ) != spec_kind_code(co[j].kind) by {
                    if j == co.len() - 1 {
                        assert(co[j] == p.last());
                        assert(p.drop_last().contains(rest[i]));
                        let k = choose|k: int|
                            0 <= k < p.drop_last().len() && p.drop_last()[k] == rest[i];
                        assert(p[k] == co[i]);
                        assert(spec_kind_code(p[k].kind) != spec_kind_code(
                            p[p.len() - 1].kind,
                        ));
                    }
                }
            }
        }
    }
}

/// Coalescing is a no-op on a list that holds no entry of the kind.
proof fn lemma_coalesce_noop(p: Seq<QueuedCommand>, kind: CommandType)
    requires
        forall|i: int|
            0 <= i < p.len() ==> spec_kind_code((#[trigger] p[i]).kind) != spec_kind_code(kind),
    ensures
        spec_coalesce(p, kind) == p,
    decreases p.len(),
{
    if p.len() > 0 {
        assert(p[p.len() - 1] == p.last());
        lemma_coalesce_noop(p.drop_last(), kind);
        assert(spec_coalesce(p, kind) =~= p);
    }
}

/// Coalescing depends only on the command's kind, not its payload.
proof fn lemma_coalesce_same_code(p: Seq<QueuedCommand>, k1: CommandType, k2: CommandType)
    requires
        spec_kind_code(k1) == spec_kind_code(k2),
    ensures
        spec_coalesce(p, k1) == spec_coalesce(p, k2),
    decreases p.len(),
{
    if p.len() > 0 {
        lemma_coalesce_same_code(p.drop_last(), k1, k2);
    }
}

/// Latest wins: two non-estop commands of the same kind in a row leave
/// the queue exactly as the second alone would have, at any address.
pub proof fn lemma_coalesce_latest_wins(
    p: Seq<QueuedCommand>,
    a1: u16,
    k1: CommandType,
    a2: u16,
    k2: CommandType,
)
    requires
        spec_kind_code(k1) == spec_kind_code(k2),
        !(k1 is EmergencyStop),
        !(k2 is EmergencyStop),
    ensures
        spec_enqueue_pending(spec_enqueue_pending(p, a1, k1), a2, k2) == spec_enqueue_pending(
            p,
            a2,
            k2,
        ),
{
    let e1 = QueuedCommand { address: a1, kind: k1 };
    let co1 = spec_coalesce(p, k1);
    let q1 = co1.push(e1);
    assert(q1.drop_last() =~= co1);
    assert(q1.last() == e1);
    // The second coalesce removes the first command again and leaves the
    // already-coalesced rest untouched.
    assert(spec_coalesce(q1, k2) == spec_coalesce(co1, k2));
    lemma_coalesce_props(p, k1);
    lemma_coalesce_noop(co1, k2);
    lemma_coalesce_same_code(p, k1, k2);
}

/// What the pending list becomes when a command arrives.
pub open spec fn spec_enqueue_pending(
    pending: Seq<QueuedCommand>,
    address: u16,
    kind: CommandType,
) -> Seq<QueuedCommand> {
    if kind is EmergencyStop {
        seq![QueuedCommand { address, kind }]
    } else {
        spec_coalesce(pending, kind).push(QueuedCommand { address, kind })
    }
}

/// What the emergency-stop latch becomes when a command arrives: set by
/// an emergency stop, cleared by a reset, otherwise kept.
pub open spec fn spec_enqueue_estop(estop: bool, kind: CommandType) -> bool {
    if kind is EmergencyStop {
        true
    } else if kind is Reset {
        false
    } else {
        estop
    }
}

/// Arrival of a command never breaks kind-uniqueness of the pending
/// list: a same-kind command replaces, it does not pile up.
pub proof fn lemma_enqueue_kinds_unique(p: Seq<QueuedCommand>, address: u16, kind: CommandType)
    requires
        distinct_kinds(p),
    ensures
        distinct_kinds(spec_enqueue_pending(p, address, kind)),
{
    if !(kind is EmergencyStop) {
        lemma_coalesce_props(p, kind);
        let co = spec_coalesce(p, kind);
        let out = spec_enqueue_pending(p, address, kind);
        assert forall|i: int, j: int| 0 <= i < j < out.len() implies spec_kind_code(out[i].kind)
            != spec_kind_code(out[j].kind) by {
            if j == out.len() - 1 {
                assert(out[i] == co[i]);
            }
        }
    }
}

/// An emergency stop leaves exactly one pending entry — itself — and
/// latches the flag, whatever was queued before.
pub proof fn lemma_estop_preempts(p: Seq<QueuedCommand>, estop: bool, address: u16)
    ensures
        spec_enqueue_pending(p, address, CommandType::EmergencyStop) =~= seq![
            QueuedCommand { address, kind: CommandType::EmergencyStop },
        ],
        spec_enqueue_estop(estop, CommandType::EmergencyStop),
{
}

/// Once latched, the emergency stop survives the arrival of any command
/// but a reset; only a reset clears it.
pub proof fn lemma_estop_latched(estop: bool, kind: CommandType)
    ensures
        estop && !(kind is Reset) ==> spec_enqueue_estop(estop, kind),
        !spec_enqueue_estop(estop, CommandType::Reset),
{
}

/// The shared command queue: a bounded pending list plus the
/// emergency-stop latch.
pub struct CommandQueue {
    entries: Vec<QueuedCommand>,
    estop_active: bool,
}

impl CommandQueue {
    /// The pending commands, oldest first.
    pub closed spec fn pending(&self) -> Seq<QueuedCommand> {
        self.entries@
    }

    /// Whether the emergency stop is latched.
    pub closed spec fn estop(&self) -> bool {
        self.estop_active
    }

    /// No two pending entries share a kind.
    pub open spec fn wf(&self) -> bool {
        distinct_kinds(self.pending())
    }

    pub fn new() -> (r: Self)
        ensures
            r.wf(),
            r.pending() == Seq::<QueuedCommand>::empty(),
            !r.estop(),
    {
        CommandQueue { entries: Vec::new(), estop_active: false }
    }

    /// How many commands are pending.
    pub fn len(&self) -> (r: usize)
        ensures
            r == self.pending().len(),
    {
        self.entries.len()
    }

    /// The pending entry at one position, oldest first.
    pub fn pending_at(&self, i: usize) -> (r: QueuedCommand)
        requires
            i < self.pending().len(),
        ensures
            r == self.pending()[i as int],
    {
        self.entries[i]
    }

    /// Whether the emergency stop is latched.
    pub fn is_estop_active(&self) -> (r: bool)
        ensures
            r == self.estop(),
    {
        self.estop_active
    }

    /// Accepts a command: an emergency stop clears everything else and
    /// latches the flag; a reset clears the flag; and any command but an
    /// emergency stop replaces the pending entry of its own kind, then
    /// joins the back of the queue.
    pub fn enqueue(&mut self, address: u16, kind: CommandType)
        requires
            old(self).wf(),
        ensures
            final(self).wf(),
            final(self).pending() == spec_enqueue_pending(old(self).pending(), address, kind),
            final(self).estop() == spec_enqueue_estop(old(self).estop(), kind),
    {
        proof {
            lemma_enqueue_kinds_unique(self.pending(), address, kind);
        }
        match kind {
            CommandType::EmergencyStop => {
                self.entries.clear();
                self.estop_active = true;
                self.entries.push(QueuedCommand { address, kind });
                assert(self.entries@ =~= spec_enqueue_pending(
                    old(self).pending(),
                    address,
                    kind,
                ));
            },
            _ => {
                if let CommandType::Reset = kind {
                    self.estop_active = false;
                }
                let code = kind_code(&kind);
                let n = self.entries.len();
                let mut kept: Vec<QueuedCommand> = Vec::new();
                assert(self.entries@.take(0) =~= Seq::<QueuedCommand>::empty());
                for i in 0..n
                    invariant
                        n == self.entries@.len(),
                        code as int == spec_kind_code(kind),
                        kept@ == spec_coalesce(self.entries@.take(i as int), kind),
                    {
                    let e = self.entries[i];
                    proof {
                        assert(self.entries@.take(i + 1).drop_last() =~= self.entries@.take(
                            i as int,
                        ));
                        assert(self.entries@.take(i + 1).last() == e);
                    }
                    if kind_code(&e.kind) != code {
                        kept.push(e);
                    }
                }
                assert(self.entries@.take(n as int) =~= self.entries@);
                kept.push(QueuedCommand { address, kind });
                self.entries = kept;
            },
        }
    }

    /// Pops the oldest pending command, rendered to the ASCII line it is
    /// sent as; `None` exactly when nothing is pending. The latch is
    /// untouched.
    pub fn dequeue(&mut self) -> (r: Option<(u16, String)>)
        requires
            old(self).wf(),
        ensures
            final(self).wf(),
            final(self).estop() == old(self).estop(),
            old(self).pending().len() == 0 ==> r is None && final(self).pending() == old(
                self,
            ).pending(),
            old(self).pending().len() > 0 ==> {
                &&& final(self).pending() == old(self).pending().drop_first()
                &&& r matches Some((a, line))
                &&& a == old(self).pending()[0].address
                &&& line.is_ascii()
                &&& chars_bytes(line@) == spec_ascii_bytes(old(self).pending()[0].kind)
            },
    {
        if self.entries.len() == 0 {
            return None;
        }
        let e = self.entries.remove(0);
        assert(self.entries@ =~= old(self).pending().drop_first());
        let line = e.kind.get_ascii();
        Some((e.address, line))
    }
}

/// Queues a start command; always accepted.
pub fn send_command_start(queue: &mut CommandQueue, address: u16) -> (r: Result<(), String>)
    requires
        old(queue).wf(),
    ensures
        final(queue).wf(),
        r is Ok,
        final(queue).pending() == spec_enqueue_pending(
            old(queue).pending(),
            address,
            CommandType::Start,
        ),
        final(queue).estop() == old(queue).estop(),
{
    queue.enqueue(address, CommandType::Start);
    Ok(())
}

/// Queues a stop command; always accepted.
pub fn send_command_stop(queue: &mut CommandQueue, address: u16) -> (r: Result<(), String>)
    requires
        old(queue).wf(),
    ensures
        final(queue).wf(),
        r is Ok,
        final(queue).pending() == spec_enqueue_pending(
            old(queue).pending(),
            address,
            CommandType::Stop,
        ),
        final(queue).estop() == old(queue).estop(),
{
    queue.enqueue(address, CommandType::Stop);
    Ok(())
}

/// Queues an emergency stop: the pending list collapses to this one
/// entry and the latch is set; always accepted.
pub fn send_command_emergency_stop(queue: &mut CommandQueue, address: u16) -> (r: Result<
    (),
    String,
>)
    requires
        old(queue).wf(),
    ensures
        final(queue).wf(),
        r is Ok,
        final(queue).pending() == seq![
            QueuedCommand { address, kind: CommandType::EmergencyStop },
        ],
        final(queue).estop(),
{
    queue.enqueue(address, CommandType::EmergencyStop);
    Ok(())
}

/// Queues a manual-mode start command; always accepted.
pub fn send_command_start_manual(queue: &mut CommandQueue, address: u16) -> (r: Result<
    (),
    String,
>)
    requires
        old(queue).wf(),
    ensures
        final(queue).wf(),
        r is Ok,
        final(queue).pending() == spec_enqueue_pending(
            old(queue).pending(),
            address,
            CommandType::StartManual,
        ),
        final(queue).estop() == old(queue).estop(),
{
    queue.enqueue(address, CommandType::StartManual);
    Ok(())
}

/// Queues a calibration command; always accepted.
pub fn send_command_calibrate(queue: &mut CommandQueue, address: u16) -> (r: Result<(), String>)
    requires
        old(queue).wf(),
    ensures
        final(queue).wf(),
        r is Ok,
        final(queue).pending() == spec_enqueue_pending(
            old(queue).pending(),
            address,
            CommandType::Calibrate,
        ),
        final(queue).estop() == old(queue).estop(),
{
    queue.enqueue(address, CommandType::Calibrate);
    Ok(())
}

/// Queues a reset: the emergency-stop latch clears and normal flow
/// resumes; always accepted.
pub fn send_command_reset(queue: &mut CommandQueue, address: u16) -> (r: Result<(), String>)
    requires
        old(queue).wf(),
    ensures
        final(queue).wf(),
        r is Ok,
        final(queue).pending() == spec_enqueue_pending(
            old(queue).pending(),
            address,
            CommandType::Reset,
        ),
        !final(queue).estop(),
{
    queue.enqueue(address, CommandType::Reset);
    Ok(())
}

/// Queues a throttle setpoint, replacing any pending one: only the
/// newest desired throttle matters; always accepted.
pub fn send_command_set_throttle(
    queue: &mut CommandQueue,
    address: u16,
    throttle_value: u32,
) -> (r: Result<(), String>)
    requires
        old(queue).wf(),
    ensures
        final(queue).wf(),
        r is Ok,
        final(queue).pending() == spec_enqueue_pending(
            old(queue).pending(),
            address,
            CommandType::SetThrottle(ThrottlePacket(throttle_value)),
        ),
        final(queue).estop() == old(queue).estop(),
{
    queue.enqueue(address, CommandType::SetThrottle(ThrottlePacket(throttle_value)));
    Ok(())
}

/// Queues an attitude setpoint, replacing any pending one; always
/// accepted.
pub fn send_command_set_point(queue: &mut CommandQueue, address: u16, attitude: Attitude) -> (r:
    Result<(), String>)
    requires
        old(queue).wf(),
    ensures
        final(queue).wf(),
        r is Ok,
        final(queue).pending() == spec_enqueue_pending(
            old(queue).pending(),
            address,
            CommandType::SetPoint(
                SetpointPacket { roll: attitude.roll, pitch: attitude.pitch, yaw: attitude.yaw },
            ),
        ),
        final(queue).estop() == old(queue).estop(),
{
    queue.enqueue(
        address,
        CommandType::SetPoint(
            SetpointPacket { roll: attitude.roll, pitch: attitude.pitch, yaw: attitude.yaw },
        ),
    );
    Ok(())
}

/// Queues a PID tuning command for one axis, replacing any pending one;
/// always accepted.
pub fn send_command_tune_pid(
    queue: &mut CommandQueue,
    address: u16,
    axis: Axis,
    pid: PIDController,
) -> (r: Result<(), String>)
    requires
        old(queue).wf(),
    ensures
        final(queue).wf(),
        r is Ok,
        final(queue).pending() == spec_enqueue_pending(
            old(queue).pending(),
            address,
            CommandType::TunePID(
                PIDTunePacket {
                    p: pid.p,
                    i: pid.i,
                    d: pid.d,
                    i_limit: pid.i_limit,
                    pid_limit: pid.pid_limit,
                    axis: spec_axis_code(axis),
                },
            ),
        ),
        final(queue).estop() == old(queue).estop(),
{
    let code = axis.code();
    queue.enqueue(
        address,
        CommandType::TunePID(
            PIDTunePacket {
                p: pid.p,
                i: pid.i,
                d: pid.d,
                i_limit: pid.i_limit,
                pid_limit: pid.pid_limit,
                axis: code,
            },
        ),
    );
    Ok(())
}

/// Queues per-motor throttle values, replacing any pending set; always
/// accepted.
pub fn send_command_set_motor_throttle(
    queue: &mut CommandQueue,
    address: u16,
    motor_throttles: [u32; 4],
) -> (r: Result<(), String>)
    requires
        old(queue).wf(),
    ensures
        final(queue).wf(),
        r is Ok,
        final(queue).pending() == spec_enqueue_pending(
            old(queue).pending(),
            address,
            CommandType::SetMotorThrottle(
                MotorThrottlePacket {
                    motor1: motor_throttles@[0],
                    motor2: motor_throttles@[1],
                    motor3: motor_throttles@[2],
                    motor4: motor_throttles@[3],
                },
            ),
        ),
        final(queue).estop() == old(queue).estop(),
{
    queue.enqueue(
        address,
        CommandType::SetMotorThrottle(
            MotorThrottlePacket {
                motor1: motor_throttles[0],
                motor2: motor_throttles[1],
                motor3: motor_throttles[2],
                motor4: motor_throttles[3],
            },
        ),
    );
    Ok(())
}

/// Queues a full configuration record, replacing any pending one; always
/// accepted.
pub fn send_command_config(queue: &mut CommandQueue, address: u16, config: ConfigPacket) -> (r:
    Result<(), String>)
    requires
        old(queue).wf(),
    ensures
        final(queue).wf(),
        r is Ok,
        final(queue).pending() == spec_enqueue_pending(
            old(queue).pending(),
            address,
            CommandType::Config(config),
        ),
        final(queue).estop() == old(queue).estop(),
{
    queue.enqueue(address, CommandType::Config(config));
    Ok(())
}

} // verus!
