//! The link worker's decisions: what a UI control request becomes on the
//! wire, and what one batch of received bytes does to the shared
//! telemetry and log buffers.
//!
//! The worker thread itself — opening the port, blocking reads, channel
//! polling — lives outside the library; it hands bytes and requests in
//! and carries rendered lines out.

use vstd::prelude::*;

verus! {

use vstd::string::StringExecFns;

use crate::codec::spec_decode_record;
use crate::config::{MAX_LOG_MESSAGES, MAX_PAYLOAD_BYTES, MAX_POINTS};
use crate::parser::{
    parse_log, parse_rcv_at, parse_telemetry_at, spec_complete_lines, spec_feed_merge,
    spec_line_rest, spec_log_prefix, spec_rcv_fields, spec_rcv_ok, spec_telemetry_ok, FrameParser,
};
use crate::telemetry::{
    spec_ring_push, spec_ring_push_all, DataBuffer, LogMessage, TelemetryData,
};
use crate::text::lemma_chars_bytes_concat;
use crate::text::{
    ascii_seq, ascii_to_string, chars_bytes, spec_dec_digits, spec_hex_decode, spec_starts_with,
    u32_to_dec,
};

/// A request from the UI to the worker thread.
#[derive(Clone, Debug)]
pub enum UartCommand {
    /// Transmit a payload to the given radio address.
    Send { address: u16, data: String },
    /// Close the port and end the worker loop.
    Disconnect,
}

/// What the worker does with one control request.
#[derive(Clone, Debug)]
pub enum UartAction {
    /// Write this line to the serial port and await the acknowledgement.
    Transmit(u16, String),
    /// The payload was refused before anything was written.
    Reject,
    /// Close the port and exit the loop.
    Shutdown,
}

/// "AT+SEND="
pub open spec fn spec_send_prefix() -> Seq<u8> {
    seq![65u8, 84, 43, 83, 69, 78, 68, 61]
}

/// The line that transmits a payload: `AT+SEND=<addr>,<len>,<data>`,
/// CRLF-terminated, with the payload's byte length in decimal.
pub open spec fn spec_send_line(address: u16, data: Seq<u8>) -> Seq<u8> {
    spec_send_prefix() + spec_dec_digits(address as nat) + seq![44u8] + spec_dec_digits(
        data.len(),
    ) + seq![44u8] + data + seq![13u8, 10u8]
}

/// Renders an outbound send. `None` exactly when the payload is over the
/// radio's size cap or not ASCII; an oversized payload is rejected
/// without anything reaching the port.
pub fn render_send(address: u16, data: &str) -> (r: Option<String>)
    ensures
        r is Some <==> (chars_bytes(data@).len() <= MAX_PAYLOAD_BYTES && ascii_seq(
            chars_bytes(data@),
        )),
        r matches Some(line) ==> line.is_ascii() && chars_bytes(line@) == spec_send_line(
            address,
            chars_bytes(data@),
        ),
{
    let payload = data.as_bytes();
    assert(payload@ == chars_bytes(data@));
    if payload.len() > MAX_PAYLOAD_BYTES {
        return None;
    }
    let mut i: usize = 0;
    while i < payload.len()
        invariant
            payload@ == chars_bytes(data@),
            0 <= i <= payload@.len(),
            forall|j: int| 0 <= j < i ==> payload@[j] < 128,
        decreases payload@.len() - i,
    {
        if payload[i] >= 128 {
            assert(chars_bytes(data@)[i as int] >= 128);
            assert(!ascii_seq(chars_bytes(data@)));
            return None;
        }
        i = i + 1;
    }
    let mut v: Vec<u8> = Vec::new();
    v.push(65);
    v.push(84);
    v.push(43);
    v.push(83);
    v.push(69);
    v.push(78);
    v.push(68);
    v.push(61);
    assert(v@ =~= spec_send_prefix());
    let mut a = u32_to_dec(address as u32);
    v.append(&mut a);
    v.push(44);
    let mut l = u32_to_dec(payload.len() as u32);
    v.append(&mut l);
    v.push(44);
    let mut d = vstd::slice::slice_to_vec(payload);
    v.append(&mut d);
    v.push(13);
    v.push(10);
    proof {
        lemma_dec_ascii(address as nat);
        lemma_dec_ascii(chars_bytes(data@).len());
        assert(v@ =~= spec_send_line(address, chars_bytes(data@)));
    }
    Some(ascii_to_string(&v))
}

proof fn lemma_dec_ascii(n: nat)
    ensures
        ascii_seq(spec_dec_digits(n)),
    decreases n,
{
    if n >= 10 {
        lemma_dec_ascii(n / 10);
    }
}

/// Decides what one control request becomes: a disconnect shuts the loop
/// down; a send either renders to its `AT+SEND=` line or is rejected for
/// being oversized or non-ASCII, without touching the port.
pub fn handle_control(cmd: &UartCommand) -> (r: UartAction)
    ensures
        cmd is Disconnect ==> r is Shutdown,
        ({
            &&& cmd matches UartCommand::Send { address, data } ==> {
                if chars_bytes(data@).len() <= MAX_PAYLOAD_BYTES && ascii_seq(chars_bytes(data@)) {
                    &&& r matches UartAction::Transmit(a, line)
                    &&& a == address
                    &&& line.is_ascii()
                    &&& chars_bytes(line@) == spec_send_line(*address, chars_bytes(data@))
                } else {
                    r is Reject
                }
            }
        }),
{
    match cmd {
        UartCommand::Disconnect => UartAction::Shutdown,
        UartCommand::Send { address, data } => {
            match render_send(*address, data.as_str()) {
                Some(line) => UartAction::Transmit(*address, line),
                None => UartAction::Reject,
            }
        },
    }
}

/// The telemetry record one complete line contributes, if any: the line
/// must be a well-formed envelope whose payload is a well-formed `T:`
/// record.
pub open spec fn spec_line_record(line: Seq<u8>, clock_millis: i64) -> Option<TelemetryData> {
    if spec_rcv_ok(line) && spec_telemetry_ok(spec_rcv_fields(line)[2]) {
        Some(
            spec_decode_record(spec_hex_decode(spec_rcv_fields(line)[2].skip(2)), clock_millis),
        )
    } else {
        None
    }
}

/// The telemetry records a run of lines contributes, in arrival order.
pub open spec fn spec_lines_records(lines: Seq<Seq<u8>>, clock_millis: i64) -> Seq<TelemetryData>
    decreases lines.len(),
{
    if lines.len() == 0 {
        seq![]
    } else {
        (match spec_line_record(lines.first(), clock_millis) {
            Some(t) => seq![t],
            None => seq![],
        }) + spec_lines_records(lines.drop_first(), clock_millis)
    }
}

/// `spec_lines_records` over one more line at the end.
proof fn lemma_lines_records_snoc(lines: Seq<Seq<u8>>, l: Seq<u8>, clock_millis: i64)
    ensures
        spec_lines_records(lines.push(l), clock_millis) == spec_lines_records(lines, clock_millis)
            + (match spec_line_record(l, clock_millis) {
            Some(t) => seq![t],
            None => seq![],
        }),
    decreases lines.len(),
{
    let one = (match spec_line_record(l, clock_millis) {
        Some(t) => seq![t],
        None => seq![],
    });
    if lines.len() == 0 {
        assert(lines.push(l).first() == l);
        assert(lines.push(l).drop_first() =~= Seq::<Seq<u8>>::empty());
        assert(spec_lines_records(lines.push(l).drop_first(), clock_millis) == Seq::<
            TelemetryData,
        >::empty());
        assert(spec_lines_records(lines.push(l), clock_millis) == one + Seq::<
            TelemetryData,
        >::empty());
        assert(spec_lines_records(lines, clock_millis) == Seq::<TelemetryData>::empty());
        assert(one + Seq::<TelemetryData>::empty() =~= Seq::<TelemetryData>::empty() + one);
    } else {
        assert(lines.push(l).first() == lines.first());
        assert(lines.push(l).drop_first() =~= lines.drop_first().push(l));
        lemma_lines_records_snoc(lines.drop_first(), l, clock_millis);
        assert(spec_lines_records(lines.push(l), clock_millis) == (match spec_line_record(
            lines.first(),
            clock_millis,
        ) {
            Some(t) => seq![t],
            None => seq![],
        }) + spec_lines_records(lines.drop_first().push(l), clock_millis));
        assert(spec_lines_records(lines.push(l), clock_millis) =~= spec_lines_records(
            lines,
            clock_millis,
        ) + one);
    }
}

/// The byte-level image of the log buffer: receipt stamp and message
/// bytes of each entry, oldest first.
pub open spec fn spec_logs_model(s: Seq<LogMessage>) -> Seq<(i64, Seq<u8>)> {
    Seq::new(s.len(), |i: int| (s[i].clock_millis, chars_bytes(s[i].message@)))
}

/// The byte image of the warning prefixed to an unparseable line.
pub open spec fn spec_warn_prefix_bytes() -> Seq<u8> {
    chars_bytes("Failed to parse RCV: "@)
}

/// The log entry one complete line contributes, if any: the payload of a
/// `LOG:` envelope, or a synthesized warning for a line that is no
/// envelope at all.
pub open spec fn spec_line_log(line: Seq<u8>, clock_millis: i64) -> Option<(i64, Seq<u8>)> {
    if !spec_rcv_ok(line) {
        Some((clock_millis, spec_warn_prefix_bytes() + line))
    } else if spec_telemetry_ok(spec_rcv_fields(line)[2]) {
        None
    } else if spec_starts_with(spec_rcv_fields(line)[2], spec_log_prefix()) && ascii_seq(
        spec_rcv_fields(line)[2].skip(4),
    ) {
        Some((clock_millis, spec_rcv_fields(line)[2].skip(4)))
    } else {
        None
    }
}

/// The log entries a run of lines contributes, in arrival order.
pub open spec fn spec_lines_logs(lines: Seq<Seq<u8>>, clock_millis: i64) -> Seq<(i64, Seq<u8>)>
    decreases lines.len(),
{
    if lines.len() == 0 {
        seq![]
    } else {
        (match spec_line_log(lines.first(), clock_millis) {
            Some(e) => seq![e],
            None => seq![],
        }) + spec_lines_logs(lines.drop_first(), clock_millis)
    }
}

/// `spec_lines_logs` over one more line at the end.
proof fn lemma_lines_logs_snoc(lines: Seq<Seq<u8>>, l: Seq<u8>, clock_millis: i64)
    ensures
        spec_lines_logs(lines.push(l), clock_millis) == spec_lines_logs(lines, clock_millis) + (
        match spec_line_log(l, clock_millis) {
            Some(e) => seq![e],
            None => seq![],
        }),
    decreases lines.len(),
{
    let one = (match spec_line_log(l, clock_millis) {
        Some(e) => seq![e],
        None => seq![],
    });
    if lines.len() == 0 {
        assert(lines.push(l).first() == l);
        assert(lines.push(l).drop_first() =~= Seq::<Seq<u8>>::empty());
        assert(spec_lines_logs(lines.push(l).drop_first(), clock_millis) == Seq::<
            (i64, Seq<u8>),
        >::empty());
        assert(spec_lines_logs(lines.push(l), clock_millis) == one + Seq::<
            (i64, Seq<u8>),
        >::empty());
        assert(one + Seq::<(i64, Seq<u8>)>::empty() =~= Seq::<(i64, Seq<u8>)>::empty() + one);
    } else {
        assert(lines.push(l).first() == lines.first());
        assert(lines.push(l).drop_first() =~= lines.drop_first().push(l));
        lemma_lines_logs_snoc(lines.drop_first(), l, clock_millis);
        assert(spec_lines_logs(lines.push(l), clock_millis) == (match spec_line_log(
            lines.first(),
            clock_millis,
        ) {
            Some(e) => seq![e],
            None => seq![],
        }) + spec_lines_logs(lines.drop_first().push(l), clock_millis));
        assert(spec_lines_logs(lines.push(l), clock_millis) =~= spec_lines_logs(
            lines,
            clock_millis,
        ) + one);
    }
}

/// The log model commutes with a bounded push.
proof fn lemma_logs_model_push(s: Seq<LogMessage>, x: LogMessage, cap: nat)
    requires
        s.len() <= cap,
        cap >= 1,
    ensures
        spec_logs_model(spec_ring_push(s, x, cap)) == spec_ring_push(
            spec_logs_model(s),
            (x.clock_millis, chars_bytes(x.message@)),
            cap,
        ),
{
    if s.len() < cap {
        assert(spec_logs_model(s.push(x)) =~= spec_logs_model(s).push(
            (x.clock_millis, chars_bytes(x.message@)),
        ));
    } else {
        assert(spec_logs_model(s.drop_first().push(x)) =~= spec_logs_model(s).drop_first().push(
            (x.clock_millis, chars_bytes(x.message@)),
        ));
    }
}

/// Processes one complete line from the radio: a malformed envelope is
/// dropped with a logged warning; a telemetry payload appends a record; a
/// log payload appends a log entry; anything else is ignored. Failures
/// never propagate — best-effort telemetry beats halting.
pub fn process_line(line: &str, buffer: &mut DataBuffer, clock_millis: i64)
    requires
        old(buffer).wf(),
    ensures
        final(buffer).wf(),
        ({
            let lb = chars_bytes(line@);
            let fs = spec_rcv_fields(lb);
            if !spec_rcv_ok(lb) {
                &&& final(buffer).data_view() == old(buffer).data_view()
                &&& final(buffer).logs_view() == spec_ring_push(
                    old(buffer).logs_view(),
                    final(buffer).logs_view().last(),
                    MAX_LOG_MESSAGES as nat,
                )
                &&& final(buffer).logs_view().last().clock_millis == clock_millis
                &&& final(buffer).logs_view().last().message@ == "Failed to parse RCV: "@
                    + line@
            } else if spec_telemetry_ok(fs[2]) {
                &&& final(buffer).data_view() == spec_ring_push(
                    old(buffer).data_view(),
                    spec_decode_record(spec_hex_decode(fs[2].skip(2)), clock_millis),
                    MAX_POINTS as nat,
                )
                &&& final(buffer).logs_view() == old(buffer).logs_view()
            } else if spec_starts_with(fs[2], spec_log_prefix()) && ascii_seq(fs[2].skip(4)) {
                &&& final(buffer).data_view() == old(buffer).data_view()
                &&& final(buffer).logs_view() == spec_ring_push(
                    old(buffer).logs_view(),
                    final(buffer).logs_view().last(),
                    MAX_LOG_MESSAGES as nat,
                )
                &&& final(buffer).logs_view().last().clock_millis == clock_millis
                &&& chars_bytes(final(buffer).logs_view().last().message@) == fs[2].skip(4)
            } else {
                &&& final(buffer).data_view() == old(buffer).data_view()
                &&& final(buffer).logs_view() == old(buffer).logs_view()
            }
        }),
{
    let rcv = match parse_rcv_at(line, clock_millis) {
        Some(m) => m,
        None => {
            let mut msg = String::from_str("Failed to parse RCV: ");
            msg.append(line);
            buffer.push_log(msg, clock_millis);
            return;
        },
    };
    if let Some(telem) = parse_telemetry_at(rcv.message.as_str(), clock_millis) {
        buffer.push(telem);
    } else if let Some(log_msg) = parse_log(rcv.message.as_str()) {
        buffer.push_log(log_msg, clock_millis);
    }
}

/// Handles one serial read: feeds the bytes through the frame parser and
/// processes every complete line. The telemetry buffer gains exactly the
/// records the new lines carry and the log buffer exactly the device
/// logs and warnings they produce, in arrival order.
pub fn handle_read(
    parser: &mut FrameParser,
    bytes: &[u8],
    buffer: &mut DataBuffer,
    clock_millis: i64,
)
    requires
        old(parser).wf(),
        old(buffer).wf(),
    ensures
        final(parser).wf(),
        final(buffer).wf(),
        final(parser).buf_view() == spec_line_rest(
            spec_feed_merge(old(parser).buf_view(), bytes@),
        ),
        final(buffer).data_view() == spec_ring_push_all(
            old(buffer).data_view(),
            spec_lines_records(
                spec_complete_lines(spec_feed_merge(old(parser).buf_view(), bytes@)),
                clock_millis,
            ),
            MAX_POINTS as nat,
        ),
        spec_logs_model(final(buffer).logs_view()) == spec_ring_push_all(
            spec_logs_model(old(buffer).logs_view()),
            spec_lines_logs(
                spec_complete_lines(spec_feed_merge(old(parser).buf_view(), bytes@)),
                clock_millis,
            ),
            MAX_LOG_MESSAGES as nat,
        ),
{
    let lines = parser.feed(bytes);
    let ghost merged = spec_feed_merge(old(parser).buf_view(), bytes@);
    let ghost lbs = Seq::new(lines@.len(), |i: int| chars_bytes(lines@[i]@));
    proof {
        assert(lbs =~= spec_complete_lines(merged));
    }
    let ghost data0 = buffer.data_view();
    let ghost logs0 = buffer.logs_view();
    let n = lines.len();
    assert(lbs.take(0) =~= Seq::<Seq<u8>>::empty());
    for i in 0..n
        invariant
            n == lines@.len(),
            lbs == Seq::new(lines@.len(), |k: int| chars_bytes(lines@[k]@)),
            lbs == spec_complete_lines(merged),
            buffer.wf(),
            buffer.data_view() == spec_ring_push_all(
                data0,
                spec_lines_records(lbs.take(i as int), clock_millis),
                MAX_POINTS as nat,
            ),
            spec_logs_model(buffer.logs_view()) == spec_ring_push_all(
                spec_logs_model(logs0),
                spec_lines_logs(lbs.take(i as int), clock_millis),
                MAX_LOG_MESSAGES as nat,
            ),
    {
        let ghost datapre = buffer.data_view();
        let ghost logspre = buffer.logs_view();
        process_line(lines[i].as_str(), buffer, clock_millis);
        proof {
            let one = (match spec_line_record(lbs[i as int], clock_millis) {
                Some(t) => seq![t],
                None => seq![],
            });
            assert(lbs.take(i + 1) =~= lbs.take(i as int).push(lbs[i as int]));
            lemma_lines_records_snoc(lbs.take(i as int), lbs[i as int], clock_millis);
            crate::telemetry::lemma_ring_push_all_app(
                data0,
                spec_lines_records(lbs.take(i as int), clock_millis),
                one,
                MAX_POINTS as nat,
            );
            if one.len() > 0 {
                assert(one.drop_first() =~= Seq::<TelemetryData>::empty());
                assert(spec_ring_push_all(
                    spec_ring_push(datapre, one.first(), MAX_POINTS as nat),
                    one.drop_first(),
                    MAX_POINTS as nat,
                ) == spec_ring_push(datapre, one.first(), MAX_POINTS as nat));
                assert(spec_ring_push_all(datapre, one, MAX_POINTS as nat) == spec_ring_push(
                    datapre,
                    one.first(),
                    MAX_POINTS as nat,
                ));
            } else {
                assert(one =~= Seq::<TelemetryData>::empty());
                assert(spec_ring_push_all(datapre, one, MAX_POINTS as nat) == datapre);
            }
            assert(chars_bytes(lines@[i as int]@) == lbs[i as int]);
            // Mirror the step for the log fold.
            let logone = (match spec_line_log(lbs[i as int], clock_millis) {
                Some(e) => seq![e],
                None => seq![],
            });
            lemma_lines_logs_snoc(lbs.take(i as int), lbs[i as int], clock_millis);
            crate::telemetry::lemma_ring_push_all_app(
                spec_logs_model(logs0),
                spec_lines_logs(lbs.take(i as int), clock_millis),
                logone,
                MAX_LOG_MESSAGES as nat,
            );
            let cur = buffer.logs_view();
            if logone.len() > 0 {
                let entry = cur.last();
                lemma_logs_model_push(logspre, entry, MAX_LOG_MESSAGES as nat);
                if !spec_rcv_ok(lbs[i as int]) {
                    lemma_chars_bytes_concat("Failed to parse RCV: "@, lines@[i as int]@);
                    assert(chars_bytes(entry.message@) == spec_warn_prefix_bytes()
                        + lbs[i as int]);
                }
                assert((entry.clock_millis, chars_bytes(entry.message@)) == logone[0]);
                assert(logone.drop_first() =~= Seq::<(i64, Seq<u8>)>::empty());
                assert(spec_ring_push_all(
                    spec_ring_push(spec_logs_model(logspre), logone[0], MAX_LOG_MESSAGES as nat),
                    logone.drop_first(),
                    MAX_LOG_MESSAGES as nat,
                ) == spec_ring_push(
                    spec_logs_model(logspre),
                    logone[0],
                    MAX_LOG_MESSAGES as nat,
                ));
                assert(logone.first() == logone[0]);
                assert(spec_ring_push_all(spec_logs_model(logspre), logone, MAX_LOG_MESSAGES as nat)
                    == spec_ring_push(
                    spec_logs_model(logspre),
                    logone[0],
                    MAX_LOG_MESSAGES as nat,
                ));
                assert(spec_logs_model(cur) == spec_ring_push(
                    spec_logs_model(logspre),
                    logone[0],
                    MAX_LOG_MESSAGES as nat,
                ));
            } else {
                assert(cur == logspre);
                assert(spec_ring_push_all(
                    spec_logs_model(logspre),
                    logone,
                    MAX_LOG_MESSAGES as nat,
                ) == spec_logs_model(logspre));
            }
        }
    }
    proof {
        assert(lbs.take(n as int) =~= lbs);
    }
}

} // verus!
