//! Parsing of inbound radio traffic: the `+RCV=` envelope, the `T:` hex
//! telemetry payload, and the `LOG:` free-text payload.
//!
//! A line either matches its shape exactly or yields nothing; no frame is
//! partially accepted. The link is ASCII-only, so all shapes are stated
//! over the byte image of the line.

use vstd::prelude::*;

verus! {

use vstd::slice::slice_subrange;
use crate::codec::{decode_record, record_to_bytes, spec_decode_record, spec_record_bytes, TELEMETRY_RECORD_BYTES};
use crate::telemetry::{ReceivedMessage, TelemetryData};
use crate::text::{
    ascii_seq, spec_trim, ascii_to_string, chars_bytes, parse_i32, parse_u32, hex_decode, spec_all_digits,
    spec_dec_val, spec_hex_decode, spec_i32_shape, spec_i32_val, spec_is_hex, spec_starts_with,
    starts_with,
};

/// Relies on chrono's `Local::now` and `DateTime::timestamp_millis`: the
/// host wall clock as milliseconds since the Unix epoch. Nothing is
/// promised of the clock's value.
#[verifier::external_body]
pub fn wall_clock_millis() -> i64 {
    chrono::Local::now().timestamp_millis()
}

/// Position of the first occurrence of `b`, or a negative value if `b`
/// does not occur.
pub open spec fn spec_find(s: Seq<u8>, b: u8) -> int
    decreases s.len(),
{
    if s.len() == 0 {
        -1
    } else if s[0] == b {
        0
    } else {
        let r = spec_find(s.drop_first(), b);
        if r < 0 {
            -1
        } else {
            r + 1
        }
    }
}

/// What `spec_find` returns: the first position holding `b`, if any.
pub proof fn lemma_find_spec(s: Seq<u8>, b: u8)
    ensures
        spec_find(s, b) == -1 || (0 <= spec_find(s, b) < s.len() && s[spec_find(s, b)] == b),
        spec_find(s, b) == -1 ==> forall|j: int| 0 <= j < s.len() ==> s[j] != b,
        forall|j: int| 0 <= j < spec_find(s, b) ==> s[j] != b,
    decreases s.len(),
{
    if s.len() > 0 && s[0] != b {
        lemma_find_spec(s.drop_first(), b);
        let r = spec_find(s.drop_first(), b);
        if r >= 0 {
            assert(forall|j: int| 1 <= j < r + 1 ==> s[j] == s.drop_first()[j - 1]);
        } else {
            assert(forall|j: int| 1 <= j < s.len() ==> s[j] == s.drop_first()[j - 1]);
        }
    }
}

/// Finds the first occurrence of `b`.
pub fn find_byte(s: &[u8], b: u8) -> (r: Option<usize>)
    ensures
        r matches Some(i) ==> i == spec_find(s@, b),
        r is None ==> spec_find(s@, b) == -1,
{
    proof {
        lemma_find_spec(s@, b);
    }
    let mut i: usize = 0;
    while i < s.len()
        invariant
            0 <= i <= s@.len(),
            forall|j: int| 0 <= j < i ==> s@[j] != b,
            spec_find(s@, b) == -1 || (0 <= spec_find(s@, b) < s@.len() && s@[spec_find(s@, b)]
                == b),
            spec_find(s@, b) == -1 ==> forall|j: int| 0 <= j < s@.len() ==> s@[j] != b,
            forall|j: int| 0 <= j < spec_find(s@, b) ==> s@[j] != b,
        decreases s@.len() - i,
    {
        if s[i] == b {
            proof {
                let r = spec_find(s@, b);
                assert(r != -1);
                if r < i as int {
                    assert(s@[r] == b);
                    assert(false);
                }
                if r > i as int {
                    assert(s@[i as int] != b);
                    assert(false);
                }
            }
            return Some(i);
        }
        i = i + 1;
    }
    proof {
        if spec_find(s@, b) >= 0 {
            assert(s@[spec_find(s@, b)] != b);
        }
    }
    None
}

/// The fields of a line split on commas; one more field than commas.
pub open spec fn spec_split_commas(s: Seq<u8>) -> Seq<Seq<u8>>
    decreases s.len(),
    via spec_split_commas_dec
{
    let i = spec_find(s, 44);
    if i < 0 {
        seq![s]
    } else {
        seq![s.take(i)] + spec_split_commas(s.skip(i + 1))
    }
}

#[via_fn]
proof fn spec_split_commas_dec(s: Seq<u8>) {
    lemma_find_spec(s, 44);
}

/// Splits on commas; the concatenation of the fields with the commas put
/// back is the input.
pub fn split_commas(s: &[u8]) -> (r: Vec<Vec<u8>>)
    ensures
        r.deep_view() == spec_split_commas(s@),
    decreases s@.len(),
{
    match find_byte(s, 44) {
        None => {
            let mut r: Vec<Vec<u8>> = Vec::new();
            r.push(vstd::slice::slice_to_vec(s));
            assert(r.deep_view() =~~= spec_split_commas(s@));
            r
        },
        Some(i) => {
            proof {
                lemma_find_spec(s@, 44);
            }
            let n = s.len();
            assert(i < n);
            let head = vstd::slice::slice_to_vec(slice_subrange(s, 0, i));
            let rest = slice_subrange(s, i + 1, n);
            let mut tail = split_commas(rest);
            let mut r: Vec<Vec<u8>> = Vec::new();
            r.push(head);
            r.append(&mut tail);
            proof {
                assert(s@.take(i as int) =~= s@.subrange(0, i as int));
                assert(s@.skip(i + 1) =~= s@.subrange(i + 1, s@.len() as int));
                assert(r.deep_view() =~~= spec_split_commas(s@));
            }
            r
        },
    }
}

/// The radio envelope marker, "+RCV=".
pub open spec fn spec_marker() -> Seq<u8> {
    seq![43u8, 82, 67, 86, 61]
}

/// The envelope marker as bytes.
pub fn marker_vec() -> (r: Vec<u8>)
    ensures
        r@ == spec_marker(),
{
    let mut v: Vec<u8> = Vec::new();
    v.push(43);
    v.push(82);
    v.push(67);
    v.push(86);
    v.push(61);
    assert(v@ =~= spec_marker());
    v
}

/// The fields of an envelope line after the marker.
pub open spec fn spec_rcv_fields(s: Seq<u8>) -> Seq<Seq<u8>> {
    spec_split_commas(s.skip(5))
}

/// A well-formed envelope line: the marker, then exactly five
/// comma-separated fields; address and length unsigned numbers, rssi and
/// snr signed numbers, the payload ASCII, carried verbatim.
pub open spec fn spec_rcv_ok(s: Seq<u8>) -> bool {
    let fs = spec_rcv_fields(s);
    &&& spec_starts_with(s, spec_marker())
    &&& fs.len() == 5
    &&& fs[0].len() > 0
    &&& spec_all_digits(fs[0])
    &&& spec_dec_val(fs[0]) <= u32::MAX
    &&& fs[1].len() > 0
    &&& spec_all_digits(fs[1])
    &&& spec_dec_val(fs[1]) <= u32::MAX
    &&& ascii_seq(fs[2])
    &&& spec_i32_shape(fs[3])
    &&& i32::MIN <= spec_i32_val(fs[3]) <= i32::MAX
    &&& spec_i32_shape(fs[4])
    &&& i32::MIN <= spec_i32_val(fs[4]) <= i32::MAX
}

fn is_ascii_bytes(s: &[u8]) -> (r: bool)
    ensures
        r == ascii_seq(s@),
{
    let mut i: usize = 0;
    while i < s.len()
        invariant
            0 <= i <= s@.len(),
            forall|j: int| 0 <= j < i ==> s@[j] < 128,
        decreases s@.len() - i,
    {
        if s[i] >= 128 {
            return false;
        }
        i = i + 1;
    }
    true
}

/// Parses a `+RCV=<addr>,<len>,<payload>,<rssi>,<snr>` envelope line,
/// stamping it with the given receipt time. `None` exactly when the line
/// does not have that shape; a malformed line is never partially accepted.
pub fn parse_rcv_at(line: &str, clock_millis: i64) -> (r: Option<ReceivedMessage>)
    ensures
        r is Some <==> spec_rcv_ok(chars_bytes(line@)),
        r matches Some(m) ==> {
            let fs = spec_rcv_fields(chars_bytes(line@));
            &&& m.from == spec_dec_val(fs[0])
            &&& m.length == spec_dec_val(fs[1])
            &&& m.message.is_ascii()
            &&& chars_bytes(m.message@) == fs[2]
            &&& m.rssi == spec_i32_val(fs[3])
            &&& m.snr == spec_i32_val(fs[4])
            &&& m.clock_millis == clock_millis
        },
{
    let b = line.as_bytes();
    let mk = marker_vec();
    if !starts_with(b, mk.as_slice()) {
        return None;
    }
    let rest = slice_subrange(b, 5, b.len());
    assert(rest@ =~= chars_bytes(line@).skip(5));
    let fields = split_commas(rest);
    if fields.len() != 5 {
        return None;
    }
    let ghost fs = spec_rcv_fields(chars_bytes(line@));
    assert(fields@[0]@ == fs[0] && fields@[1]@ == fs[1] && fields@[2]@ == fs[2] && fields@[3]@
        == fs[3] && fields@[4]@ == fs[4]);
    let from = match parse_u32(fields[0].as_slice()) {
        Some(v) => v,
        None => {
            return None;
        },
    };
    let length = match parse_u32(fields[1].as_slice()) {
        Some(v) => v,
        None => {
            return None;
        },
    };
    if !is_ascii_bytes(fields[2].as_slice()) {
        return None;
    }
    let rssi = match parse_i32(fields[3].as_slice()) {
        Some(v) => v,
        None => {
            return None;
        },
    };
    let snr = match parse_i32(fields[4].as_slice()) {
        Some(v) => v,
        None => {
            return None;
        },
    };
    let message = ascii_to_string(&fields[2]);
    Some(ReceivedMessage { from, length, message, rssi, snr, clock_millis })
}

/// Parses an envelope line, stamped with the wall clock now.
pub fn parse_rcv(line: &str) -> (r: Option<ReceivedMessage>)
    ensures
        r is Some <==> spec_rcv_ok(chars_bytes(line@)),
        r matches Some(m) ==> {
            let fs = spec_rcv_fields(chars_bytes(line@));
            &&& m.from == spec_dec_val(fs[0])
            &&& m.length == spec_dec_val(fs[1])
            &&& m.message.is_ascii()
            &&& chars_bytes(m.message@) == fs[2]
            &&& m.rssi == spec_i32_val(fs[3])
            &&& m.snr == spec_i32_val(fs[4])
        },
{
    let now = wall_clock_millis();
    parse_rcv_at(line, now)
}

/// The telemetry payload prefix, "T:".
pub open spec fn spec_telemetry_prefix() -> Seq<u8> {
    seq![84u8, 58]
}

/// A well-formed telemetry payload: the `T:` prefix and a valid hex dump
/// of exactly one packed record — never more, never less.
pub open spec fn spec_telemetry_ok(s: Seq<u8>) -> bool {
    &&& spec_starts_with(s, spec_telemetry_prefix())
    &&& spec_is_hex(s.skip(2))
    &&& spec_hex_decode(s.skip(2)).len() == TELEMETRY_RECORD_BYTES
}

/// Parses a `T:<hex>` telemetry payload, stamping the record with the
/// given receipt time. `None` exactly when the prefix is missing, the hex
/// is malformed, or its length is not the record size; a wrong-length
/// record is discarded entirely, never padded.
pub fn parse_telemetry_at(line: &str, clock_millis: i64) -> (r: Option<TelemetryData>)
    ensures
        r is Some <==> spec_telemetry_ok(chars_bytes(line@)),
        r matches Some(t) ==> t == spec_decode_record(
            spec_hex_decode(chars_bytes(line@).skip(2)),
            clock_millis,
        ),
{
    let b = line.as_bytes();
    let mut pre: Vec<u8> = Vec::new();
    pre.push(84);
    pre.push(58);
    assert(pre@ =~= spec_telemetry_prefix());
    if !starts_with(b, pre.as_slice()) {
        return None;
    }
    let hex = slice_subrange(b, 2, b.len());
    assert(hex@ =~= chars_bytes(line@).skip(2));
    let raw = match hex_decode(hex) {
        Some(v) => v,
        None => {
            return None;
        },
    };
    decode_record(raw.as_slice(), clock_millis)
}

/// Parses a telemetry payload, stamped with the wall clock now.
pub fn parse_telemetry(line: &str) -> (r: Option<TelemetryData>)
    ensures
        r is Some <==> spec_telemetry_ok(chars_bytes(line@)),
        r matches Some(t) ==> {
            let u = spec_decode_record(spec_hex_decode(chars_bytes(line@).skip(2)), t.clock_millis);
            t == u
        },
{
    let now = wall_clock_millis();
    parse_telemetry_at(line, now)
}

/// Renders a telemetry record as the `T:<hex>` line the controller
/// would send it as.
pub fn encode_telemetry(t: &TelemetryData) -> (r: String)
    ensures
        r.is_ascii(),
        chars_bytes(r@) == spec_telemetry_prefix() + crate::text::spec_hex_upper(
            spec_record_bytes(*t),
        ),
{
    let rec = record_to_bytes(t);
    let mut hex = crate::text::bytes_to_hex_upper(rec.as_slice());
    let mut v: Vec<u8> = Vec::new();
    v.push(84);
    v.push(58);
    v.append(&mut hex);
    proof {
        crate::text::lemma_hex_round_trip(spec_record_bytes(*t));
        crate::text::lemma_hex_is_ascii(crate::text::spec_hex_upper(spec_record_bytes(*t)));
        assert(v@ =~= spec_telemetry_prefix() + crate::text::spec_hex_upper(
            spec_record_bytes(*t),
        ));
    }
    ascii_to_string(&v)
}

/// Round trip: a record rendered as its `T:` line is well-formed
/// telemetry and decodes back to exactly the record it came from.
pub proof fn lemma_telemetry_round_trip(t: TelemetryData)
    ensures
        ({
            let line = spec_telemetry_prefix() + crate::text::spec_hex_upper(
                spec_record_bytes(t),
            );
            &&& spec_telemetry_ok(line)
            &&& spec_decode_record(spec_hex_decode(line.skip(2)), t.clock_millis) == t
        }),
{
    let hex = crate::text::spec_hex_upper(spec_record_bytes(t));
    let line = spec_telemetry_prefix() + hex;
    crate::text::lemma_hex_round_trip(spec_record_bytes(t));
    crate::codec::lemma_record_round_trip(t);
    assert(line.skip(2) =~= hex);
    assert(line.take(2) =~= spec_telemetry_prefix());
}

/// The log payload prefix, "LOG:".
pub open spec fn spec_log_prefix() -> Seq<u8> {
    seq![76u8, 79, 71, 58]
}

/// Extracts the text of a `LOG:<text>` payload. `None` exactly when the
/// prefix is missing or the text is not ASCII.
pub fn parse_log(line: &str) -> (r: Option<String>)
    ensures
        r is Some <==> (spec_starts_with(chars_bytes(line@), spec_log_prefix()) && ascii_seq(
            chars_bytes(line@).skip(4),
        )),
        r matches Some(m) ==> m.is_ascii() && chars_bytes(m@) == chars_bytes(line@).skip(4),
{
    let b = line.as_bytes();
    let mut pre: Vec<u8> = Vec::new();
    pre.push(76);
    pre.push(79);
    pre.push(71);
    pre.push(58);
    assert(pre@ =~= spec_log_prefix());
    if !starts_with(b, pre.as_slice()) {
        return None;
    }
    let rest = slice_subrange(b, 4, b.len());
    assert(rest@ =~= chars_bytes(line@).skip(4));
    if !is_ascii_bytes(rest) {
        return None;
    }
    let tail = vstd::slice::slice_to_vec(rest);
    Some(ascii_to_string(&tail))
}

// ---------------------------------------------------------------------------
// Frame parser
// ---------------------------------------------------------------------------
/// The input with every non-ASCII byte dropped; the link carries ASCII
/// and hex only, so anything else is line noise.
pub open spec fn keep_ascii(s: Seq<u8>) -> Seq<u8>
    decreases s.len(),
{
    if s.len() == 0 {
        seq![]
    } else {
        keep_ascii(s.drop_last()) + (if s.last() < 128 {
            seq![s.last()]
        } else {
            seq![]
        })
    }
}

proof fn lemma_keep_ascii_ascii(s: Seq<u8>)
    ensures
        ascii_seq(keep_ascii(s)),
    decreases s.len(),
{
    if s.len() > 0 {
        lemma_keep_ascii_ascii(s.drop_last());
    }
}

/// Start of the latest envelope marker in the buffer, or a negative value
/// if the marker does not occur.
pub open spec fn spec_last_marker(s: Seq<u8>) -> int
    decreases s.len(),
{
    if s.len() < 5 {
        -1
    } else if s.subrange(s.len() - 5, s.len() as int) == spec_marker() {
        s.len() - 5
    } else {
        spec_last_marker(s.take(s.len() - 1))
    }
}

/// Garbage recovery: when the buffer holds the envelope marker after
/// stray bytes or a torn earlier envelope, only what starts at the latest
/// marker is trustworthy; everything before it is discarded.
pub open spec fn spec_recover(s: Seq<u8>) -> Seq<u8> {
    let m = spec_last_marker(s);
    if m <= 0 {
        s
    } else {
        s.skip(m)
    }
}

/// The complete lines in the buffer, each trimmed of surrounding
/// whitespace.
pub open spec fn spec_complete_lines(s: Seq<u8>) -> Seq<Seq<u8>>
    decreases s.len(),
    via spec_complete_lines_dec
{
    let i = spec_find(s, 10);
    if i < 0 {
        seq![]
    } else {
        seq![spec_trim(s.take(i))] + spec_complete_lines(s.skip(i + 1))
    }
}

#[via_fn]
proof fn spec_complete_lines_dec(s: Seq<u8>) {
    lemma_find_spec(s, 10);
}

/// What stays in the buffer after every complete line is taken.
pub open spec fn spec_line_rest(s: Seq<u8>) -> Seq<u8>
    decreases s.len(),
    via spec_line_rest_dec
{
    let i = spec_find(s, 10);
    if i < 0 {
        s
    } else {
        spec_line_rest(s.skip(i + 1))
    }
}

#[via_fn]
proof fn spec_line_rest_dec(s: Seq<u8>) {
    lemma_find_spec(s, 10);
}

/// The full effect of feeding bytes into a buffer: drop non-ASCII bytes,
/// recover at the latest envelope marker, and the lines then complete.
pub open spec fn spec_feed_merge(pre: Seq<u8>, input: Seq<u8>) -> Seq<u8> {
    spec_recover(pre + keep_ascii(input))
}

/// Accumulates raw serial bytes into line-delimited frames, recovering
/// from garbage and torn envelopes at the latest `+RCV=` marker.
pub struct FrameParser {
    buf: Vec<u8>,
}

impl FrameParser {
    /// The bytes awaiting a newline.
    pub closed spec fn buf_view(&self) -> Seq<u8> {
        self.buf@
    }

    /// The pending buffer is ASCII.
    pub closed spec fn wf(&self) -> bool {
        ascii_seq(self.buf@)
    }

    pub fn new() -> (r: Self)
        ensures
            r.wf(),
            r.buf_view() == Seq::<u8>::empty(),
    {
        FrameParser { buf: Vec::new() }
    }

    /// Appends the readable bytes and discards everything before the
    /// latest envelope marker.
    fn absorb(&mut self, bytes: &[u8])
        requires
            old(self).wf(),
        ensures
            final(self).wf(),
            final(self).buf_view() == spec_feed_merge(old(self).buf_view(), bytes@),
    {
        let mut filt: Vec<u8> = Vec::new();
        let n = bytes.len();
        assert(bytes@.take(0) =~= Seq::<u8>::empty());
        for i in 0..n
            invariant
                n == bytes@.len(),
                filt@ == keep_ascii(bytes@.take(i as int)),
        {
            let b = bytes[i];
            proof {
                assert(bytes@.take(i + 1).drop_last() =~= bytes@.take(i as int));
            }
            if b < 128 {
                filt.push(b);
            }
        }
        assert(bytes@.take(n as int) =~= bytes@);
        self.buf.append(&mut filt);
        proof {
            lemma_keep_ascii_ascii(bytes@);
            assert(ascii_seq(self.buf@));
        }
        let ghost merged = self.buf@;
        // Scan back to the latest envelope marker.
        let mk = marker_vec();
        let mut j: usize = self.buf.len();
        let mut m: usize = 0;
        let mut found = false;
        assert(merged.take(merged.len() as int) =~= merged);
        while j >= 5 && !found
            invariant
                self.buf@ == merged,
                mk@ == spec_marker(),
                j <= merged.len(),
                !found ==> spec_last_marker(merged) == spec_last_marker(merged.take(j as int)),
                found ==> spec_last_marker(merged) == m as int && m + 5 <= merged.len(),
            decreases (if found { 0int } else { j + 1 }),
        {
            if crate::text::matches_at(self.buf.as_slice(), j - 5, mk.as_slice()) {
                m = j - 5;
                found = true;
                proof {
                    assert(merged.take(j as int).subrange(j - 5, j as int) =~= merged.subrange(
                        j - 5,
                        j as int,
                    ));
                    assert(spec_last_marker(merged.take(j as int)) == j - 5);
                }
            } else {
                proof {
                    assert(merged.take(j as int).subrange(j - 5, j as int) =~= merged.subrange(
                        j - 5,
                        j as int,
                    ));
                    assert(merged.take(j as int).take(j - 1) =~= merged.take(j - 1));
                }
                j = j - 1;
            }
        }
        proof {
            if !found {
                assert(spec_last_marker(merged) == -1);
            }
        }
        if found && m > 0 {
            let tail = vstd::slice::slice_to_vec(
                slice_subrange(self.buf.as_slice(), m, self.buf.len()),
            );
            self.buf = tail;
            assert(self.buf@ =~= merged.skip(m as int));
        }
    }

    /// Extracts every complete line, trimmed; what follows the last
    /// newline stays buffered.
    fn take_lines(&mut self) -> (r: Vec<String>)
        requires
            old(self).wf(),
        ensures
            final(self).wf(),
            final(self).buf_view() == spec_line_rest(old(self).buf_view()),
            r@.len() == spec_complete_lines(old(self).buf_view()).len(),
            forall|i: int|
                0 <= i < r@.len() ==> (#[trigger] r@[i]).is_ascii() && chars_bytes(r@[i]@)
                    == spec_complete_lines(old(self).buf_view())[i],
    {
        let ghost buf0 = self.buf@;
        let ghost lines0 = spec_complete_lines(buf0);
        let mut out: Vec<String> = Vec::new();
        let mut done = false;
        while !done
            invariant
                ascii_seq(self.buf@),
                out@.len() + spec_complete_lines(self.buf@).len() == lines0.len(),
                spec_line_rest(self.buf@) == spec_line_rest(buf0),
                forall|i: int|
                    0 <= i < out@.len() ==> (#[trigger] out@[i]).is_ascii() && chars_bytes(
                        out@[i]@,
                    ) == lines0[i],
                forall|i: int|
                    0 <= i < spec_complete_lines(self.buf@).len() ==> #[trigger] spec_complete_lines(
                        self.buf@,
                    )[i] == lines0[out@.len() + i],
                done ==> spec_complete_lines(self.buf@).len() == 0,
            decreases self.buf@.len() + (if done { 0int } else { 1 }),
        {
            match find_byte(self.buf.as_slice(), 10) {
                None => {
                    done = true;
                },
                Some(p) => {
                    let ghost cur = self.buf@;
                    let ghost outlen = out@.len();
                    proof {
                        lemma_find_spec(cur, 10);
                        assert(spec_complete_lines(cur) == seq![spec_trim(cur.take(p as int))]
                            + spec_complete_lines(cur.skip(p + 1)));
                        assert(spec_complete_lines(cur)[0] == lines0[outlen as int]);
                    }
                    let n = self.buf.len();
                    assert(p < n);
                    let head = slice_subrange(self.buf.as_slice(), 0, p);
                    assert(head@ =~= cur.take(p as int));
                    let line = crate::text::trim_bytes(head);
                    proof {
                        crate::text::lemma_trim_ascii(cur.take(p as int));
                    }
                    let s = ascii_to_string(&line);
                    out.push(s);
                    let tail = vstd::slice::slice_to_vec(
                        slice_subrange(self.buf.as_slice(), p + 1, n),
                    );
                    self.buf = tail;
                    proof {
                        assert(self.buf@ =~= cur.skip(p + 1));
                        assert(chars_bytes(out@[outlen as int]@) == lines0[outlen as int]);
                        assert(forall|i: int|
                            0 <= i < spec_complete_lines(self.buf@).len()
                                ==> #[trigger] spec_complete_lines(self.buf@)[i]
                                == spec_complete_lines(cur)[i + 1]);
                    }
                },
            }
        }
        out
    }

    /// Feeds raw serial bytes in and hands every complete, trimmed line
    /// back. Non-ASCII bytes are dropped; if the buffer holds the
    /// envelope marker after stray bytes or more than once, everything
    /// before the latest occurrence is discarded first.
    pub fn feed(&mut self, bytes: &[u8]) -> (r: Vec<String>)
        requires
            old(self).wf(),
        ensures
            final(self).wf(),
            final(self).buf_view() == spec_line_rest(
                spec_feed_merge(old(self).buf_view(), bytes@),
            ),
            r@.len() == spec_complete_lines(spec_feed_merge(old(self).buf_view(), bytes@)).len(),
            forall|i: int|
                0 <= i < r@.len() ==> (#[trigger] r@[i]).is_ascii() && chars_bytes(r@[i]@)
                    == spec_complete_lines(spec_feed_merge(old(self).buf_view(), bytes@))[i],
    {
        self.absorb(bytes);
        self.take_lines()
    }
}

} // verus!
