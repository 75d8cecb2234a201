//! Byte-level text helpers for the ASCII line protocol: hex encoding and
//! decoding, decimal rendering and parsing, whitespace trimming, and
//! substring search. Every quantity on the wire is ASCII, so the whole
//! protocol is specified over byte sequences.

use vstd::prelude::*;

verus! {

use vstd::slice::{slice_subrange, slice_to_vec};

/// Every byte is ASCII (the radio link carries nothing else).
pub open spec fn ascii_seq(s: Seq<u8>) -> bool {
    forall|i: int| 0 <= i < s.len() ==> s[i] < 128
}

/// The UTF-8 bytes of a character sequence; for ASCII text this is the
/// byte-for-byte image of the characters. Contracts about `String` and
/// `&str` values go through this, so that the whole protocol is stated
/// over one kind of sequence.
pub open spec fn chars_bytes(s: Seq<char>) -> Seq<u8> {
    vstd::utf8::encode_utf8(s)
}

/// The byte image of concatenated text is the concatenation of the byte
/// images.
pub proof fn lemma_chars_bytes_concat(a: Seq<char>, b: Seq<char>)
    ensures
        chars_bytes(a + b) == chars_bytes(a) + chars_bytes(b),
    decreases a.len(),
{
    if a.len() == 0 {
        assert(a + b =~= b);
        assert(chars_bytes(a) =~= Seq::<u8>::empty());
        assert(chars_bytes(a) + chars_bytes(b) =~= chars_bytes(b));
    } else {
        assert((a + b)[0] == a[0]);
        assert((a + b).drop_first() =~= a.drop_first() + b);
        lemma_chars_bytes_concat(a.drop_first(), b);
        assert(chars_bytes(a + b) =~= chars_bytes(a) + chars_bytes(b));
    }
}

/// Relies on std's `String::from_utf8`: a sequence of ASCII bytes is valid
/// UTF-8 and decodes to the characters with the same code points.
#[verifier::external_body]
pub fn ascii_to_string(v: &Vec<u8>) -> (r: String)
    requires
        ascii_seq(v@),
    ensures
        r.is_ascii(),
        r@.len() == v@.len(),
        chars_bytes(r@) == v@,
{
    match String::from_utf8(v.clone()) {
        Ok(s) => s,
        Err(_) => String::new(),
    }
}

// ---------------------------------------------------------------------------
// Hex
// ---------------------------------------------------------------------------
/// The upper-case hex digit for a value below sixteen.
pub open spec fn hex_digit_of(v: u8) -> u8
    recommends
        v < 16,
{
    if v < 10 {
        (v + 48) as u8
    } else {
        (v + 55) as u8
    }
}

/// Upper-case hex dump of a byte sequence: two digits per byte, no
/// separators.
pub open spec fn spec_hex_upper(data: Seq<u8>) -> Seq<u8>
    decreases data.len(),
{
    if data.len() == 0 {
        seq![]
    } else {
        seq![hex_digit_of(data.first() / 16), hex_digit_of(data.first() % 16)]
            + spec_hex_upper(data.drop_first())
    }
}

pub open spec fn is_hex_digit(b: u8) -> bool {
    (48 <= b <= 57) || (65 <= b <= 70) || (97 <= b <= 102)
}

/// Value of one hex digit, either case.
pub open spec fn hex_val(b: u8) -> u8
    recommends
        is_hex_digit(b),
{
    if b <= 57 {
        (b - 48) as u8
    } else if b <= 70 {
        (b - 55) as u8
    } else {
        (b - 87) as u8
    }
}

/// A well-formed hex string: even length, hex digits throughout.
pub open spec fn spec_is_hex(s: Seq<u8>) -> bool {
    s.len() % 2 == 0 && forall|i: int| 0 <= i < s.len() ==> is_hex_digit(s[i])
}

/// The bytes a hex string denotes, two digits at a time.
pub open spec fn spec_hex_decode(s: Seq<u8>) -> Seq<u8>
    decreases s.len(),
{
    if s.len() < 2 {
        seq![]
    } else {
        seq![((hex_val(s[0]) * 16 + hex_val(s[1])) as u8)] + spec_hex_decode(s.skip(2))
    }
}

fn hex_digit_exec(v: u8) -> (r: u8)
    requires
        v < 16,
    ensures
        r == hex_digit_of(v),
{
    if v < 10 {
        v + 48
    } else {
        v + 55
    }
}

/// Renders `data` as upper-case hex, two digits per byte.
pub fn bytes_to_hex_upper(data: &[u8]) -> (r: Vec<u8>)
    ensures
        r@ == spec_hex_upper(data@),
{
    let mut r: Vec<u8> = Vec::new();
    assert(data@.skip(0) == data@);
    for i in 0..data.len()
        invariant
            spec_hex_upper(data@) == r@ + spec_hex_upper(data@.skip(i as int)),
            r@.len() == 2 * i,
    {
        let b = data[i];
        assert(b / 16 < 16 && b % 16 < 16) by (bit_vector);
        r.push(hex_digit_exec(b / 16));
        r.push(hex_digit_exec(b % 16));
        assert(data@.skip(i as int).drop_first() == data@.skip(i + 1));
    }
    assert(data@.skip(data@.len() as int) == Seq::<u8>::empty());
    r
}

/// Decodes a hex string, either case; `None` exactly when the length is
/// odd or a byte is not a hex digit.
pub fn hex_decode(s: &[u8]) -> (r: Option<Vec<u8>>)
    ensures
        r is Some <==> spec_is_hex(s@),
        r matches Some(v) ==> v@ == spec_hex_decode(s@),
{
    if s.len() % 2 != 0 {
        return None;
    }
    let mut out: Vec<u8> = Vec::new();
    let mut i: usize = 0;
    assert(s@.skip(0) == s@);
    while i < s.len()
        invariant
            i % 2 == 0,
            i <= s@.len(),
            s@.len() % 2 == 0,
            forall|j: int| 0 <= j < i ==> is_hex_digit(s@[j]),
            spec_hex_decode(s@) == out@ + spec_hex_decode(s@.skip(i as int)),
        decreases s@.len() - i,
    {
        let hi = s[i];
        let lo = s[i + 1];
        let hv = if 48 <= hi && hi <= 57 {
            hi - 48
        } else if 65 <= hi && hi <= 70 {
            hi - 55
        } else if 97 <= hi && hi <= 102 {
            hi - 87
        } else {
            return None;
        };
        let lv = if 48 <= lo && lo <= 57 {
            lo - 48
        } else if 65 <= lo && lo <= 70 {
            lo - 55
        } else if 97 <= lo && lo <= 102 {
            lo - 87
        } else {
            return None;
        };
        assert(hv == hex_val(s@[i as int]) && hv < 16);
        assert(lv == hex_val(s@[i as int + 1]) && lv < 16);
        out.push(hv * 16 + lv);
        assert(s@.skip(i as int).skip(2) == s@.skip(i + 2));
        i = i + 2;
    }
    assert(s@.skip(s@.len() as int) == Seq::<u8>::empty());
    Some(out)
}

/// Encoding then decoding gives the bytes back; the encoding is
/// well-formed hex of twice the length.
pub proof fn lemma_hex_round_trip(data: Seq<u8>)
    ensures
        spec_hex_upper(data).len() == 2 * data.len(),
        spec_is_hex(spec_hex_upper(data)),
        spec_hex_decode(spec_hex_upper(data)) == data,
    decreases data.len(),
{
    if data.len() == 0 {
        assert(spec_hex_decode(spec_hex_upper(data)) =~= data);
    } else {
        lemma_hex_round_trip(data.drop_first());
        let b = data.first();
        let h = spec_hex_upper(data);
        assert(h[0] == hex_digit_of(b / 16) && h[1] == hex_digit_of(b % 16));
        assert(is_hex_digit(hex_digit_of(b / 16)) && is_hex_digit(hex_digit_of(b % 16)));
        assert(forall|i: int| 2 <= i < h.len() ==> h[i] == spec_hex_upper(data.drop_first())[i - 2]);
        assert(h.skip(2) =~= spec_hex_upper(data.drop_first()));
        assert(hex_val(hex_digit_of(b / 16)) == b / 16);
        assert(hex_val(hex_digit_of(b % 16)) == b % 16);
        assert((b / 16) * 16 + b % 16 == b) by (nonlinear_arith);
        assert(spec_hex_decode(h) =~= data);
    }
}

/// Hex output is plain ASCII.
pub proof fn lemma_hex_is_ascii(h: Seq<u8>)
    requires
        spec_is_hex(h),
    ensures
        ascii_seq(h),
{
}

// ---------------------------------------------------------------------------
// Decimal
// ---------------------------------------------------------------------------
/// Decimal digits of a number, most significant first, no sign and no
/// leading zeros (a single zero for zero).
pub open spec fn spec_dec_digits(n: nat) -> Seq<u8>
    decreases n,
{
    if n < 10 {
        seq![(n + 48) as u8]
    } else {
        spec_dec_digits(n / 10).push((n % 10 + 48) as u8)
    }
}

/// Renders a number in decimal.
pub fn u32_to_dec(n: u32) -> (r: Vec<u8>)
    ensures
        r@ == spec_dec_digits(n as nat),
    decreases n,
{
    if n < 10 {
        let mut v: Vec<u8> = Vec::new();
        v.push((n as u8) + 48);
        assert(v@ =~= spec_dec_digits(n as nat));
        v
    } else {
        let mut v = u32_to_dec(n / 10);
        v.push(((n % 10) as u8) + 48);
        assert(v@ =~= spec_dec_digits(n as nat));
        v
    }
}

pub open spec fn spec_all_digits(s: Seq<u8>) -> bool {
    forall|i: int| 0 <= i < s.len() ==> 48 <= #[trigger] s[i] <= 57
}

/// The number a digit string denotes.
pub open spec fn spec_dec_val(s: Seq<u8>) -> nat
    decreases s.len(),
{
    if s.len() == 0 {
        0
    } else {
        (spec_dec_val(s.drop_last()) * 10 + (s.last() - 48)) as nat
    }
}

/// Reading more digits never shrinks the value.
proof fn lemma_dec_val_prefix(s: Seq<u8>, i: int)
    requires
        0 <= i <= s.len(),
        spec_all_digits(s),
    ensures
        spec_dec_val(s.take(i)) <= spec_dec_val(s),
    decreases s.len() - i,
{
    if i < s.len() {
        assert(s.take(i + 1).drop_last() =~= s.take(i));
        assert(s.take(i + 1).last() == s[i]);
        assert(spec_dec_val(s.take(i)) <= spec_dec_val(s.take(i)) * 10 + (s[i] - 48));
        lemma_dec_val_prefix(s, i + 1);
    } else {
        assert(s.take(i) =~= s);
    }
}

/// Parses an unsigned decimal number: `None` exactly when the input is
/// empty, holds a non-digit, or denotes a value that does not fit.
pub fn parse_u32(s: &[u8]) -> (r: Option<u32>)
    ensures
        r is Some <==> (s@.len() > 0 && spec_all_digits(s@) && spec_dec_val(s@) <= u32::MAX),
        r matches Some(v) ==> v == spec_dec_val(s@),
{
    if s.len() == 0 {
        return None;
    }
    let mut acc: u32 = 0;
    let mut i: usize = 0;
    while i < s.len()
        invariant
            0 <= i <= s@.len(),
            forall|j: int| 0 <= j < i ==> 48 <= #[trigger] s@[j] <= 57,
            acc == spec_dec_val(s@.take(i as int)),
        decreases s@.len() - i,
    {
        let b = s[i];
        if b < 48 || b > 57 {
            return None;
        }
        let d = (b - 48) as u32;
        proof {
            assert(s@.take(i + 1).drop_last() =~= s@.take(i as int));
            assert(s@.take(i + 1).last() == s@[i as int]);
        }
        if acc > (u32::MAX - d) / 10 {
            proof {
                assert(spec_dec_val(s@.take(i + 1)) == acc * 10 + d);
                assert(acc * 10 + d > u32::MAX) by (nonlinear_arith)
                    requires
                        acc > (u32::MAX - d) / 10,
                        d <= 9,
                ;
                if spec_all_digits(s@) {
                    lemma_dec_val_prefix(s@, i + 1);
                }
            }
            return None;
        }
        assert(acc * 10 + d <= u32::MAX) by (nonlinear_arith)
            requires
                acc <= (u32::MAX - d) / 10,
                d <= 9,
        ;
        acc = acc * 10 + d;
        i = i + 1;
    }
    assert(s@.take(s@.len() as int) =~= s@);
    Some(acc)
}

/// Shape of a signed decimal number: digits, with one optional leading
/// minus sign.
pub open spec fn spec_i32_shape(s: Seq<u8>) -> bool {
    if s.len() > 0 && s[0] == 45 {
        s.len() > 1 && spec_all_digits(s.skip(1))
    } else {
        s.len() > 0 && spec_all_digits(s)
    }
}

/// The signed value a decimal string denotes.
pub open spec fn spec_i32_val(s: Seq<u8>) -> int {
    if s.len() > 0 && s[0] == 45 {
        -(spec_dec_val(s.skip(1)) as int)
    } else {
        spec_dec_val(s) as int
    }
}

/// Parses a signed decimal number: `None` exactly when the shape is wrong
/// or the value does not fit.
pub fn parse_i32(s: &[u8]) -> (r: Option<i32>)
    ensures
        r is Some <==> (spec_i32_shape(s@) && i32::MIN <= spec_i32_val(s@) <= i32::MAX),
        r matches Some(v) ==> v == spec_i32_val(s@),
{
    if s.len() > 0 && s[0] == 45 {
        let rest = slice_subrange(s, 1, s.len());
        assert(rest@ == s@.skip(1));
        match parse_u32(rest) {
            Some(m) => {
                if m <= 2_147_483_648 {
                    Some((-(m as i64)) as i32)
                } else {
                    None
                }
            },
            None => None,
        }
    } else {
        match parse_u32(s) {
            Some(m) => {
                if m <= 2_147_483_647 {
                    Some(m as i32)
                } else {
                    None
                }
            },
            None => None,
        }
    }
}

// ---------------------------------------------------------------------------
// Trim, prefix, search
// ---------------------------------------------------------------------------
/// ASCII whitespace as the line protocol sees it.
pub open spec fn is_blank(b: u8) -> bool {
    b == 32 || b == 9 || b == 13 || b == 10
}

pub open spec fn spec_trim_front(s: Seq<u8>) -> Seq<u8>
    decreases s.len(),
{
    if s.len() > 0 && is_blank(s[0]) {
        spec_trim_front(s.drop_first())
    } else {
        s
    }
}

pub open spec fn spec_trim_back(s: Seq<u8>) -> Seq<u8>
    decreases s.len(),
{
    if s.len() > 0 && is_blank(s.last()) {
        spec_trim_back(s.drop_last())
    } else {
        s
    }
}

/// The line with surrounding whitespace removed.
pub open spec fn spec_trim(s: Seq<u8>) -> Seq<u8> {
    spec_trim_back(spec_trim_front(s))
}

proof fn lemma_trim_front_ascii(s: Seq<u8>)
    requires
        ascii_seq(s),
    ensures
        ascii_seq(spec_trim_front(s)),
    decreases s.len(),
{
    if s.len() > 0 && is_blank(s[0]) {
        lemma_trim_front_ascii(s.drop_first());
    }
}

proof fn lemma_trim_back_ascii(s: Seq<u8>)
    requires
        ascii_seq(s),
    ensures
        ascii_seq(spec_trim_back(s)),
    decreases s.len(),
{
    if s.len() > 0 && is_blank(s.last()) {
        lemma_trim_back_ascii(s.drop_last());
    }
}

/// Trimming ASCII text leaves ASCII text.
pub proof fn lemma_trim_ascii(s: Seq<u8>)
    requires
        ascii_seq(s),
    ensures
        ascii_seq(spec_trim(s)),
{
    lemma_trim_front_ascii(s);
    lemma_trim_back_ascii(spec_trim_front(s));
}

fn is_blank_exec(b: u8) -> (r: bool)
    ensures
        r == is_blank(b),
{
    b == 32 || b == 9 || b == 13 || b == 10
}

/// Copies the slice with surrounding whitespace removed.
pub fn trim_bytes(s: &[u8]) -> (r: Vec<u8>)
    ensures
        r@ == spec_trim(s@),
{
    let mut a: usize = 0;
    assert(s@.skip(0) == s@);
    while a < s.len() && is_blank_exec(s[a])
        invariant
            0 <= a <= s@.len(),
            spec_trim_front(s@) == spec_trim_front(s@.skip(a as int)),
        decreases s@.len() - a,
    {
        proof {
            assert(s@.skip(a as int).drop_first() =~= s@.skip(a + 1));
        }
        a = a + 1;
    }
    proof {
        assert(s@.skip(a as int) =~= s@.subrange(a as int, s@.len() as int));
        if a < s@.len() {
            assert(!is_blank(s@.skip(a as int)[0]));
        }
        assert(spec_trim_front(s@) == s@.subrange(a as int, s@.len() as int));
    }
    let mut b: usize = s.len();
    while b > a && is_blank_exec(s[b - 1])
        invariant
            a <= b <= s@.len(),
            spec_trim_back(s@.subrange(a as int, s@.len() as int)) == spec_trim_back(
                s@.subrange(a as int, b as int),
            ),
        decreases b,
    {
        proof {
            assert(s@.subrange(a as int, b as int).drop_last() =~= s@.subrange(
                a as int,
                b - 1,
            ));
        }
        b = b - 1;
    }
    proof {
        if b > a {
            assert(!is_blank(s@.subrange(a as int, b as int).last()));
        }
        assert(spec_trim(s@) == s@.subrange(a as int, b as int));
    }
    slice_to_vec(slice_subrange(s, a, b))
}

/// `p` stands at the front of `s`.
pub open spec fn spec_starts_with(s: Seq<u8>, p: Seq<u8>) -> bool {
    p.len() <= s.len() && s.take(p.len() as int) == p
}

/// `p` occurs somewhere in `s`.
pub open spec fn spec_contains(s: Seq<u8>, p: Seq<u8>) -> bool {
    exists|i: int| 0 <= i <= s.len() - p.len() && #[trigger] s.subrange(i, i + p.len()) == p
}

fn bytes_eq_at(s: &[u8], at: usize, p: &[u8]) -> (r: bool)
    requires
        at + p@.len() <= s@.len(),
    ensures
        r == (s@.subrange(at as int, at + p@.len()) == p@),
{
    let slen = s.len();
    let mut k: usize = 0;
    while k < p.len()
        invariant
            at + p@.len() <= s@.len(),
            s@.len() == slen,
            0 <= k <= p@.len(),
            forall|j: int| 0 <= j < k ==> s@[at + j] == p@[j],
        decreases p@.len() - k,
    {
        assert(at + k < s@.len());
        if s[at + k] != p[k] {
            proof {
                assert(s@.subrange(at as int, at + p@.len())[k as int] != p@[k as int]);
            }
            return false;
        }
        k = k + 1;
    }
    proof {
        assert(s@.subrange(at as int, at + p@.len()) =~= p@);
    }
    true
}

/// Tests whether `p` stands in `s` at the given position.
pub fn matches_at(s: &[u8], at: usize, p: &[u8]) -> (r: bool)
    requires
        at + p@.len() <= s@.len(),
    ensures
        r == (s@.subrange(at as int, at + p@.len()) == p@),
{
    bytes_eq_at(s, at, p)
}

/// Tests whether `s` starts with `p`.
pub fn starts_with(s: &[u8], p: &[u8]) -> (r: bool)
    ensures
        r == spec_starts_with(s@, p@),
{
    if p.len() > s.len() {
        return false;
    }
    let r = bytes_eq_at(s, 0, p);
    proof {
        assert(s@.subrange(0, p@.len() as int) == s@.take(p@.len() as int));
    }
    r
}

/// Tests whether `p` occurs anywhere in `s`.
pub fn contains_seq(s: &[u8], p: &[u8]) -> (r: bool)
    ensures
        r == spec_contains(s@, p@),
{
    if p.len() > s.len() {
        assert(!spec_contains(s@, p@));
        return false;
    }
    if p.len() == 0 {
        assert(spec_contains(s@, p@)) by {
            assert(s@.subrange(0, 0 + p@.len() as int) =~= p@);
        }
        return true;
    }
    let bound = s.len() - p.len();
    let mut i: usize = 0;
    while i <= bound
        invariant
            1 <= p@.len() <= s@.len(),
            bound == s@.len() - p@.len(),
            s@.len() <= usize::MAX,
            0 <= i <= bound + 1,
            forall|j: int| 0 <= j < i ==> #[trigger] s@.subrange(j, j + p@.len()) != p@,
        decreases bound + 1 - i,
    {
        if bytes_eq_at(s, i, p) {
            assert(spec_contains(s@, p@));
            return true;
        }
        i = i + 1;
    }
    false
}

} // verus!
