//! The radio module handshake: the fixed AT-command sequence that
//! configures address, network id, band and modulation parameters before
//! any data traffic, and the state machine that judges the module's
//! responses.
//!
//! The caller owns the serial port and the clock: it writes the command
//! line, feeds received bytes in, and aborts on its own timeout. The
//! machine decides what each complete response line means.

use vstd::prelude::*;

verus! {

use crate::config::{
    LORA_ADDRESS, LORA_BAND, LORA_BANDWIDTH, LORA_CODING_RATE, LORA_NETWORK_ID, LORA_PREAMBLE,
    LORA_SPREADING_FACTOR,
};
use crate::parser::keep_ascii;
use crate::text::{
    ascii_seq, ascii_to_string, chars_bytes, contains_seq, spec_contains, spec_dec_digits,
    spec_starts_with, spec_trim, starts_with, trim_bytes, u32_to_dec,
};

/// How many configuration commands the handshake sends.
pub const INIT_COMMAND_COUNT: u8 = 5;

/// "AT"
pub open spec fn spec_at_token() -> Seq<u8> {
    seq![65u8, 84]
}

/// "AT+ADDRESS="
pub open spec fn spec_address_prefix() -> Seq<u8> {
    seq![65u8, 84, 43, 65, 68, 68, 82, 69, 83, 83, 61]
}

/// "AT+NETWORKID="
pub open spec fn spec_network_prefix() -> Seq<u8> {
    seq![65u8, 84, 43, 78, 69, 84, 87, 79, 82, 75, 73, 68, 61]
}

/// "AT+BAND="
pub open spec fn spec_band_prefix() -> Seq<u8> {
    seq![65u8, 84, 43, 66, 65, 78, 68, 61]
}

/// "AT+PARAMETER="
pub open spec fn spec_parameter_prefix() -> Seq<u8> {
    seq![65u8, 84, 43, 80, 65, 82, 65, 77, 69, 84, 69, 82, 61]
}

/// The configuration command sent at each handshake step, without the
/// line terminator: the liveness check, then address, network id, band,
/// and modulation parameters.
pub open spec fn spec_init_command(step: int) -> Seq<u8> {
    if step == 0 {
        spec_at_token()
    } else if step == 1 {
        spec_address_prefix() + spec_dec_digits(LORA_ADDRESS as nat)
    } else if step == 2 {
        spec_network_prefix() + spec_dec_digits(LORA_NETWORK_ID as nat)
    } else if step == 3 {
        spec_band_prefix() + spec_dec_digits(LORA_BAND as nat)
    } else if step == 4 {
        spec_parameter_prefix() + spec_dec_digits(LORA_SPREADING_FACTOR as nat) + seq![44u8]
            + spec_dec_digits(LORA_BANDWIDTH as nat) + seq![44u8] + spec_dec_digits(
            LORA_CODING_RATE as nat,
        ) + seq![44u8] + spec_dec_digits(LORA_PREAMBLE as nat)
    } else {
        seq![]
    }
}

/// "+ERR="
pub open spec fn spec_err_prefix() -> Seq<u8> {
    seq![43u8, 69, 82, 82, 61]
}

/// "+OK"
pub open spec fn spec_ok_token() -> Seq<u8> {
    seq![43u8, 79, 75]
}

/// The line ends in the module's CRLF terminator.
pub open spec fn spec_crlf_terminated(s: Seq<u8>) -> bool {
    s.len() >= 2 && s[s.len() - 2] == 13 && s[s.len() - 1] == 10
}

/// What one accumulated response means once a complete line is there.
#[derive(Clone, Copy, Debug, PartialEq, Eq, Structural)]
pub enum InitResponse {
    /// No complete line yet, or a line that is neither an error nor the
    /// acknowledgement; keep waiting.
    Pending,
    /// The module acknowledged; move to the next command.
    Acknowledged,
    /// The module reported an error; the handshake fails at once.
    ModuleError,
}

fn push_dec(v: &mut Vec<u8>, n: u32)
    ensures
        final(v)@ == old(v)@ + spec_dec_digits(n as nat),
{
    let mut d = u32_to_dec(n);
    v.append(&mut d);
}

/// Drives the AT handshake: one step per configuration command, each
/// acknowledged by the module before the next is sent.
pub struct LinkInitializer {
    step: u8,
    acc: Vec<u8>,
}

impl LinkInitializer {
    /// Which command is next, counting from zero.
    pub closed spec fn step_view(&self) -> int {
        self.step as int
    }

    /// The response bytes accumulated since the last complete line.
    pub closed spec fn acc_view(&self) -> Seq<u8> {
        self.acc@
    }

    /// The step never passes the command count and the accumulator is
    /// ASCII.
    pub closed spec fn wf(&self) -> bool {
        self.step <= INIT_COMMAND_COUNT && ascii_seq(self.acc@)
    }

    pub fn new() -> (r: Self)
        ensures
            r.wf(),
            r.step_view() == 0,
            r.acc_view() == Seq::<u8>::empty(),
    {
        LinkInitializer { step: 0, acc: Vec::new() }
    }

    /// Every configuration command has acknowledged.
    pub fn is_complete(&self) -> (r: bool)
        requires
            self.wf(),
        ensures
            r == (self.step_view() == INIT_COMMAND_COUNT),
    {
        self.step == INIT_COMMAND_COUNT
    }

    /// The command line to send for the current step, CRLF-terminated;
    /// `None` once the handshake is complete.
    pub fn next_command(&self) -> (r: Option<String>)
        requires
            self.wf(),
        ensures
            r is Some <==> self.step_view() < INIT_COMMAND_COUNT,
            r matches Some(line) ==> line.is_ascii() && chars_bytes(line@) == spec_init_command(
                self.step_view(),
            ) + seq![13u8, 10u8],
    {
        if self.step >= INIT_COMMAND_COUNT {
            return None;
        }
        let mut v: Vec<u8> = Vec::new();
        if self.step == 0 {
            v.push(65);
            v.push(84);
            assert(v@ =~= spec_at_token());
        } else if self.step == 1 {
            v.push(65);
            v.push(84);
            v.push(43);
            v.push(65);
            v.push(68);
            v.push(68);
            v.push(82);
            v.push(69);
            v.push(83);
            v.push(83);
            v.push(61);
            assert(v@ =~= spec_address_prefix());
            push_dec(&mut v, LORA_ADDRESS);
        } else if self.step == 2 {
            v.push(65);
            v.push(84);
            v.push(43);
            v.push(78);
            v.push(69);
            v.push(84);
            v.push(87);
            v.push(79);
            v.push(82);
            v.push(75);
            v.push(73);
            v.push(68);
            v.push(61);
            assert(v@ =~= spec_network_prefix());
            push_dec(&mut v, LORA_NETWORK_ID);
        } else if self.step == 3 {
            v.push(65);
            v.push(84);
            v.push(43);
            v.push(66);
            v.push(65);
            v.push(78);
            v.push(68);
            v.push(61);
            assert(v@ =~= spec_band_prefix());
            push_dec(&mut v, LORA_BAND);
        } else {
            v.push(65);
            v.push(84);
            v.push(43);
            v.push(80);
            v.push(65);
            v.push(82);
            v.push(65);
            v.push(77);
            v.push(69);
            v.push(84);
            v.push(69);
            v.push(82);
            v.push(61);
            assert(v@ =~= spec_parameter_prefix());
            push_dec(&mut v, LORA_SPREADING_FACTOR);
            v.push(44);
            push_dec(&mut v, LORA_BANDWIDTH);
            v.push(44);
            push_dec(&mut v, LORA_CODING_RATE);
            v.push(44);
            push_dec(&mut v, LORA_PREAMBLE);
        }
        v.push(13);
        v.push(10);
        proof {
            lemma_dec_digits_ascii(LORA_ADDRESS as nat);
            lemma_dec_digits_ascii(LORA_NETWORK_ID as nat);
            lemma_dec_digits_ascii(LORA_BAND as nat);
            lemma_dec_digits_ascii(LORA_SPREADING_FACTOR as nat);
            lemma_dec_digits_ascii(LORA_BANDWIDTH as nat);
            lemma_dec_digits_ascii(LORA_CODING_RATE as nat);
            lemma_dec_digits_ascii(LORA_PREAMBLE as nat);
            assert(v@ =~= spec_init_command(self.step_view()) + seq![13u8, 10u8]);
        }
        Some(ascii_to_string(&v))
    }

    /// Feeds response bytes in. Until a CRLF-terminated line is there,
    /// the bytes accumulate and the result is `Pending`. A complete line
    /// starting with the error marker fails the handshake; one holding
    /// the acknowledgement token advances to the next command and clears
    /// the accumulator; anything else is discarded and the wait goes on.
    pub fn on_bytes(&mut self, bytes: &[u8]) -> (r: InitResponse)
        requires
            old(self).wf(),
            old(self).step_view() < INIT_COMMAND_COUNT,
        ensures
            final(self).wf(),
            ({
                let acc2 = old(self).acc_view() + keep_ascii(bytes@);
                let line = spec_trim(acc2);
                if !spec_crlf_terminated(acc2) {
                    &&& r == InitResponse::Pending
                    &&& final(self).acc_view() == acc2
                    &&& final(self).step_view() == old(self).step_view()
                } else if spec_starts_with(line, spec_err_prefix()) {
                    &&& r == InitResponse::ModuleError
                    &&& final(self).step_view() == old(self).step_view()
                } else if spec_contains(line, spec_ok_token()) {
                    &&& r == InitResponse::Acknowledged
                    &&& final(self).acc_view() == Seq::<u8>::empty()
                    &&& final(self).step_view() == old(self).step_view() + 1
                } else {
                    &&& r == InitResponse::Pending
                    &&& final(self).acc_view() == Seq::<u8>::empty()
                    &&& final(self).step_view() == old(self).step_view()
                }
            }),
    {
        let mut filt: Vec<u8> = Vec::new();
        let n = bytes.len();
        assert(bytes@.take(0) =~= Seq::<u8>::empty());
        for i in 0..n
            invariant
                n == bytes@.len(),
                filt@ == keep_ascii(bytes@.take(i as int)),
                ascii_seq(filt@),
        {
            let b = bytes[i];
            proof {
                assert(bytes@.take(i + 1).drop_last() =~= bytes@.take(i as int));
            }
            if b < 128 {
                filt.push(b);
            }
        }
        assert(bytes@.take(n as int) =~= bytes@);
        self.acc.append(&mut filt);
        let m = self.acc.len();
        if m < 2 || self.acc[m - 2] != 13 || self.acc[m - 1] != 10 {
            return InitResponse::Pending;
        }
        let line = trim_bytes(self.acc.as_slice());
        proof {
            crate::text::lemma_trim_ascii(self.acc@);
        }
        let mut err: Vec<u8> = Vec::new();
        err.push(43);
        err.push(69);
        err.push(82);
        err.push(82);
        err.push(61);
        assert(err@ =~= spec_err_prefix());
        if starts_with(line.as_slice(), err.as_slice()) {
            return InitResponse::ModuleError;
        }
        let mut ok: Vec<u8> = Vec::new();
        ok.push(43);
        ok.push(79);
        ok.push(75);
        assert(ok@ =~= spec_ok_token());
        if contains_seq(line.as_slice(), ok.as_slice()) {
            self.acc.clear();
            self.step = self.step + 1;
            InitResponse::Acknowledged
        } else {
            self.acc.clear();
            InitResponse::Pending
        }
    }
}

/// Decimal digits are ASCII.
proof fn lemma_dec_digits_ascii(n: nat)
    ensures
        ascii_seq(spec_dec_digits(n)),
    decreases n,
{
    if n >= 10 {
        lemma_dec_digits_ascii(n / 10);
    }
}

} // verus!
