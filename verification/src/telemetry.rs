//! Decoded telemetry, device log entries, and the bounded ring buffers the
//! link worker publishes them into.
//!
//! Both buffers drop the oldest entry first once they reach their fixed
//! capacity, so a link that outpaces the reader costs bounded memory and
//! always keeps the most recent data.

use vstd::prelude::*;

verus! {

broadcast use vstd::std_specs::vecdeque::group_vec_dequeue_axioms;

use std::collections::VecDeque;
use std::ops::Index;
use crate::config::{MAX_LOG_MESSAGES, MAX_POINTS};

/// Which axis a PID plot shows.
#[derive(Clone, Copy, Debug, PartialEq, Eq, Structural)]
pub enum PidAxis {
    Roll,
    Pitch,
    Yaw,
}

/// One decoded telemetry record.
///
/// The angle, PID-term, altitude and voltage fields carry IEEE-754
/// single-precision bit patterns; `timestamp` is milliseconds since
/// controller boot, and `clock_millis` is the host wall clock at receipt,
/// in milliseconds since the Unix epoch.
#[derive(Clone, Copy, Debug, PartialEq, Eq, Structural)]
pub struct TelemetryData {
    pub timestamp: u32,
    pub clock_millis: i64,
    // Attitude
    pub roll: u32,
    pub pitch: u32,
    pub yaw: u32,
    // Roll PID
    pub roll_p: u32,
    pub roll_i: u32,
    pub roll_d: u32,
    // Pitch PID
    pub pitch_p: u32,
    pub pitch_i: u32,
    pub pitch_d: u32,
    // Yaw PID
    pub yaw_p: u32,
    pub yaw_i: u32,
    pub yaw_d: u32,
    // Other telemetry
    pub altitude: u32,
    pub battery_voltage: u32,
    // State and flag bytes
    pub state: u8,
    pub flags: u8,
}

/// One log line: a device message or a locally synthesized diagnostic,
/// stamped with the host wall clock in milliseconds.
#[derive(Clone, Debug)]
pub struct LogMessage {
    pub clock_millis: i64,
    pub message: String,
}

/// One radio envelope, already split into its fields.
#[derive(Clone, Debug)]
pub struct ReceivedMessage {
    pub from: u32,
    pub length: u32,
    pub message: String,
    pub rssi: i32,
    pub snr: i32,
    pub clock_millis: i64,
}

/// A bounded FIFO push: the newest entry always enters, the oldest leaves
/// once the buffer is full.
pub open spec fn spec_ring_push<T>(s: Seq<T>, x: T, cap: nat) -> Seq<T> {
    if s.len() < cap {
        s.push(x)
    } else {
        s.drop_first().push(x)
    }
}

/// All of `xs` pushed in order.
pub open spec fn spec_ring_push_all<T>(s: Seq<T>, xs: Seq<T>, cap: nat) -> Seq<T>
    decreases xs.len(),
{
    if xs.len() == 0 {
        s
    } else {
        spec_ring_push_all(spec_ring_push(s, xs.first(), cap), xs.drop_first(), cap)
    }
}

/// What a bounded ring holds after any run of pushes: everything, while it
/// fits; afterwards exactly the most recent `cap` entries.
pub proof fn lemma_ring_push_all<T>(s: Seq<T>, xs: Seq<T>, cap: nat)
    requires
        s.len() <= cap,
        cap >= 1,
    ensures
        spec_ring_push_all(s, xs, cap) == if s.len() + xs.len() <= cap {
            s + xs
        } else {
            (s + xs).subrange(s.len() + xs.len() - cap, (s.len() + xs.len()) as int)
        },
    decreases xs.len(),
{
    if xs.len() == 0 {
        assert(s + xs =~= s);
        if s.len() + xs.len() > cap {
            assert((s + xs).subrange(s.len() + xs.len() - cap, (s.len() + xs.len()) as int) =~= s);
        }
    } else {
        let x = xs.first();
        let t = spec_ring_push(s, x, cap);
        assert(t.len() <= cap);
        lemma_ring_push_all(t, xs.drop_first(), cap);
        if s.len() < cap {
            assert(t =~= s + seq![x]);
            assert(t + xs.drop_first() =~= s + xs);
            if s.len() + xs.len() > cap {
                assert(spec_ring_push_all(s, xs, cap) == (t + xs.drop_first()).subrange(
                    t.len() + xs.drop_first().len() - cap,
                    (t.len() + xs.drop_first().len()) as int,
                ));
            }
        } else {
            assert(t =~= (s + seq![x]).subrange(1, (s.len() + 1) as int));
            let whole = s + xs;
            if t.len() + xs.drop_first().len() <= cap {
                // t has length cap already, so the rest of xs is empty ⇒
                // xs has exactly one element.
                assert(xs.len() == 1);
                assert(spec_ring_push_all(s, xs, cap) == t);
                assert(t =~= whole.subrange(
                    s.len() + xs.len() - cap,
                    (s.len() + xs.len()) as int,
                ));
            } else {
                let inner = t + xs.drop_first();
                assert(spec_ring_push_all(s, xs, cap) == inner.subrange(
                    inner.len() - cap,
                    inner.len() as int,
                ));
                assert(inner =~= whole.subrange(1, whole.len() as int));
                assert(inner.subrange(inner.len() - cap, inner.len() as int) =~= whole.subrange(
                    whole.len() - cap,
                    whole.len() as int,
                ));
            }
        }
    }
}

/// Pushing runs one after the other is pushing their concatenation.
pub proof fn lemma_ring_push_all_app<T>(s: Seq<T>, xs: Seq<T>, ys: Seq<T>, cap: nat)
    ensures
        spec_ring_push_all(s, xs + ys, cap) == spec_ring_push_all(
            spec_ring_push_all(s, xs, cap),
            ys,
            cap,
        ),
    decreases xs.len(),
{
    if xs.len() == 0 {
        assert(xs + ys =~= ys);
    } else {
        assert((xs + ys).first() == xs.first());
        assert((xs + ys).drop_first() =~= xs.drop_first() + ys);
        lemma_ring_push_all_app(spec_ring_push(s, xs.first(), cap), xs.drop_first(), ys, cap);
    }
}

/// A ring of bounded capacity never exceeds it, and the newest entry is
/// always the last one kept.
pub proof fn lemma_ring_push_bound<T>(s: Seq<T>, x: T, cap: nat)
    requires
        s.len() <= cap,
        cap >= 1,
    ensures
        spec_ring_push(s, x, cap).len() <= cap,
        spec_ring_push(s, x, cap).last() == x,
{
}

/// The proportional PID term of one axis.
pub open spec fn spec_pid_p(t: TelemetryData, axis: PidAxis) -> u32 {
    match axis {
        PidAxis::Roll => t.roll_p,
        PidAxis::Pitch => t.pitch_p,
        PidAxis::Yaw => t.yaw_p,
    }
}

/// The integral PID term of one axis.
pub open spec fn spec_pid_i(t: TelemetryData, axis: PidAxis) -> u32 {
    match axis {
        PidAxis::Roll => t.roll_i,
        PidAxis::Pitch => t.pitch_i,
        PidAxis::Yaw => t.yaw_i,
    }
}

/// The derivative PID term of one axis.
pub open spec fn spec_pid_d(t: TelemetryData, axis: PidAxis) -> u32 {
    match axis {
        PidAxis::Roll => t.roll_d,
        PidAxis::Pitch => t.pitch_d,
        PidAxis::Yaw => t.yaw_d,
    }
}

/// The shared telemetry and log store: two independent bounded FIFO
/// buffers, oldest entries evicted first.
pub struct DataBuffer {
    data: VecDeque<TelemetryData>,
    logs: VecDeque<LogMessage>,
}

impl DataBuffer {
    /// The telemetry records, oldest first.
    pub closed spec fn data_view(&self) -> Seq<TelemetryData> {
        self.data@
    }

    /// The log entries, oldest first.
    pub closed spec fn logs_view(&self) -> Seq<LogMessage> {
        self.logs@
    }

    /// Both buffers are within their capacity.
    pub open spec fn wf(&self) -> bool {
        self.data_view().len() <= MAX_POINTS && self.logs_view().len() <= MAX_LOG_MESSAGES
    }

    pub fn new() -> (r: Self)
        ensures
            r.wf(),
            r.data_view() == Seq::<TelemetryData>::empty(),
            r.logs_view() == Seq::<LogMessage>::empty(),
    {
        DataBuffer { data: VecDeque::with_capacity(MAX_POINTS), logs: VecDeque::with_capacity(
            MAX_LOG_MESSAGES,
        ) }
    }

    /// Appends one telemetry record, evicting the oldest once the buffer
    /// is full.
    pub fn push(&mut self, telem: TelemetryData)
        requires
            old(self).wf(),
        ensures
            final(self).wf(),
            final(self).data_view() == spec_ring_push(
                old(self).data_view(),
                telem,
                MAX_POINTS as nat,
            ),
            final(self).logs_view() == old(self).logs_view(),
    {
        if self.data.len() >= MAX_POINTS {
            self.data.pop_front();
        }
        self.data.push_back(telem);
    }

    /// Appends one log entry stamped with the given wall-clock time,
    /// evicting the oldest once the buffer is full.
    pub fn push_log(&mut self, message: String, clock_millis: i64)
        requires
            old(self).wf(),
        ensures
            final(self).wf(),
            final(self).logs_view() == spec_ring_push(
                old(self).logs_view(),
                LogMessage { clock_millis, message },
                MAX_LOG_MESSAGES as nat,
            ),
            final(self).data_view() == old(self).data_view(),
    {
        if self.logs.len() >= MAX_LOG_MESSAGES {
            self.logs.pop_front();
        }
        self.logs.push_back(LogMessage { clock_millis, message });
    }

    /// How many telemetry records are held.
    pub fn data_len(&self) -> (r: usize)
        ensures
            r == self.data_view().len(),
    {
        self.data.len()
    }

    /// How many log entries are held.
    pub fn logs_len(&self) -> (r: usize)
        ensures
            r == self.logs_view().len(),
    {
        self.logs.len()
    }

    /// The record at one position, oldest first.
    pub fn data_at(&self, i: usize) -> (r: TelemetryData)
        requires
            i < self.data_view().len(),
        ensures
            r == self.data_view()[i as int],
    {
        *self.data.index(i)
    }

    /// The log entry at one position, oldest first.
    pub fn log_at(&self, i: usize) -> (r: &LogMessage)
        requires
            i < self.logs_view().len(),
        ensures
            *r == self.logs_view()[i as int],
    {
        self.logs.index(i)
    }

    /// The roll series: receipt stamp and roll bits, oldest first.
    pub fn get_roll_data(&self) -> (r: Vec<(i64, u32)>)
        ensures
            r@.len() == self.data_view().len(),
            forall|i: int|
                0 <= i < r@.len() ==> #[trigger] r@[i] == (
                    self.data_view()[i].clock_millis,
                    self.data_view()[i].roll,
                ),
    {
        let n = self.data.len();
        let mut r: Vec<(i64, u32)> = Vec::new();
        for i in 0..n
            invariant
                n == self.data@.len(),
                r@.len() == i,
                forall|j: int|
                    0 <= j < i ==> #[trigger] r@[j] == (
                        self.data@[j].clock_millis,
                        self.data@[j].roll,
                    ),
        {
            let d = self.data.index(i);
            r.push((d.clock_millis, d.roll));
        }
        r
    }

    /// The pitch series: receipt stamp and pitch bits, oldest first.
    pub fn get_pitch_data(&self) -> (r: Vec<(i64, u32)>)
        ensures
            r@.len() == self.data_view().len(),
            forall|i: int|
                0 <= i < r@.len() ==> #[trigger] r@[i] == (
                    self.data_view()[i].clock_millis,
                    self.data_view()[i].pitch,
                ),
    {
        let n = self.data.len();
        let mut r: Vec<(i64, u32)> = Vec::new();
        for i in 0..n
            invariant
                n == self.data@.len(),
                r@.len() == i,
                forall|j: int|
                    0 <= j < i ==> #[trigger] r@[j] == (
                        self.data@[j].clock_millis,
                        self.data@[j].pitch,
                    ),
        {
            let d = self.data.index(i);
            r.push((d.clock_millis, d.pitch));
        }
        r
    }

    /// The yaw series: receipt stamp and yaw bits, oldest first.
    pub fn get_yaw_data(&self) -> (r: Vec<(i64, u32)>)
        ensures
            r@.len() == self.data_view().len(),
            forall|i: int|
                0 <= i < r@.len() ==> #[trigger] r@[i] == (
                    self.data_view()[i].clock_millis,
                    self.data_view()[i].yaw,
                ),
    {
        let n = self.data.len();
        let mut r: Vec<(i64, u32)> = Vec::new();
        for i in 0..n
            invariant
                n == self.data@.len(),
                r@.len() == i,
                forall|j: int|
                    0 <= j < i ==> #[trigger] r@[j] == (
                        self.data@[j].clock_millis,
                        self.data@[j].yaw,
                    ),
        {
            let d = self.data.index(i);
            r.push((d.clock_millis, d.yaw));
        }
        r
    }

    /// The proportional-term series of one axis, oldest first.
    pub fn get_pid_p_data(&self, axis: PidAxis) -> (r: Vec<(i64, u32)>)
        ensures
            r@.len() == self.data_view().len(),
            forall|i: int|
                0 <= i < r@.len() ==> #[trigger] r@[i] == (
                    self.data_view()[i].clock_millis,
                    spec_pid_p(self.data_view()[i], axis),
                ),
    {
        let n = self.data.len();
        let mut r: Vec<(i64, u32)> = Vec::new();
        for i in 0..n
            invariant
                n == self.data@.len(),
                r@.len() == i,
                forall|j: int|
                    0 <= j < i ==> #[trigger] r@[j] == (
                        self.data@[j].clock_millis,
                        spec_pid_p(self.data@[j], axis),
                    ),
        {
            let d = self.data.index(i);
            let val = match axis {
                PidAxis::Roll => d.roll_p,
                PidAxis::Pitch => d.pitch_p,
                PidAxis::Yaw => d.yaw_p,
            };
            r.push((d.clock_millis, val));
        }
        r
    }

    /// The integral-term series of one axis, oldest first.
    pub fn get_pid_i_data(&self, axis: PidAxis) -> (r: Vec<(i64, u32)>)
        ensures
            r@.len() == self.data_view().len(),
            forall|i: int|
                0 <= i < r@.len() ==> #[trigger] r@[i] == (
                    self.data_view()[i].clock_millis,
                    spec_pid_i(self.data_view()[i], axis),
                ),
    {
        let n = self.data.len();
        let mut r: Vec<(i64, u32)> = Vec::new();
        for i in 0..n
            invariant
                n == self.data@.len(),
                r@.len() == i,
                forall|j: int|
                    0 <= j < i ==> #[trigger] r@[j] == (
                        self.data@[j].clock_millis,
                        spec_pid_i(self.data@[j], axis),
                    ),
        {
            let d = self.data.index(i);
            let val = match axis {
                PidAxis::Roll => d.roll_i,
                PidAxis::Pitch => d.pitch_i,
                PidAxis::Yaw => d.yaw_i,
            };
            r.push((d.clock_millis, val));
        }
        r
    }

    /// The derivative-term series of one axis, oldest first.
    pub fn get_pid_d_data(&self, axis: PidAxis) -> (r: Vec<(i64, u32)>)
        ensures
            r@.len() == self.data_view().len(),
            forall|i: int|
                0 <= i < r@.len() ==> #[trigger] r@[i] == (
                    self.data_view()[i].clock_millis,
                    spec_pid_d(self.data_view()[i], axis),
                ),
    {
        let n = self.data.len();
        let mut r: Vec<(i64, u32)> = Vec::new();
        for i in 0..n
            invariant
                n == self.data@.len(),
                r@.len() == i,
                forall|j: int|
                    0 <= j < i ==> #[trigger] r@[j] == (
                        self.data@[j].clock_millis,
                        spec_pid_d(self.data@[j], axis),
                    ),
        {
            let d = self.data.index(i);
            let val = match axis {
                PidAxis::Roll => d.roll_d,
                PidAxis::Pitch => d.pitch_d,
                PidAxis::Yaw => d.yaw_d,
            };
            r.push((d.clock_millis, val));
        }
        r
    }

    /// Discards all telemetry records.
    pub fn clear_data(&mut self)
        requires
            old(self).wf(),
        ensures
            final(self).wf(),
            final(self).data_view() == Seq::<TelemetryData>::empty(),
            final(self).logs_view() == old(self).logs_view(),
    {
        self.data.clear();
    }

    /// Discards all log entries.
    pub fn clear_logs(&mut self)
        requires
            old(self).wf(),
        ensures
            final(self).wf(),
            final(self).logs_view() == Seq::<LogMessage>::empty(),
            final(self).data_view() == old(self).data_view(),
    {
        self.logs.clear();
    }
}

} // verus!
