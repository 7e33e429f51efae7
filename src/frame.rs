//! Control frames: the four bytes written to the device for each command, and
//! the argument grammar that turns typed text into a frame's 16-bit value.
use vstd::prelude::*;
use crate::text::{chars_of, count_char, count_in, is_digit};

verus! {

/// Marker byte of a remote-call frame.
pub const RPC_MARKER: u8 = 0x7F;

/// Marker byte of a motion preset frame.
pub const MOTOR_MARKER: u8 = 0xFF;

/// The axis that a motion preset frame drives.
#[derive(Clone, Copy, Debug, PartialEq, Eq, Structural)]
pub enum Axis {
    Forward,
    Turn,
}

/// One control frame. Both layouts put the value big-endian in the last two
/// bytes, as its 16-bit two's complement pattern.
#[derive(Clone, Copy, Debug, PartialEq, Eq, Structural)]
pub enum ControlFrame {
    /// `[0x7F, id, hi, lo]`: call the remote item `id` with `value`.
    Rpc { id: u8, value: i16 },
    /// `[0xFF, axis, hi, lo]`: axis byte 0 drives forward, 1 turns.
    Motor { axis: Axis, value: i16 },
}

/// Why a typed argument gives no frame value.
#[derive(Clone, Copy, Debug, PartialEq, Eq, Structural)]
pub enum ArgError {
    /// One '.', but no 64-bit float.
    InvalidFloat,
    /// Neither a decimal (one '.') nor an integer (optional '-', digits).
    NotANumber,
    /// A number outside the signed 16-bit range once scaled.
    Overflow,
    /// No argument where one is required.
    Missing,
}

pub open spec fn in_i16(v: int) -> bool {
    -32768 <= v <= 32767
}

/// The 16-bit two's complement pattern of `v`, as an unsigned number.
pub open spec fn wire_value(v: int) -> int {
    if v < 0 {
        v + 65536
    } else {
        v
    }
}

/// The signed value that two big-endian bytes carry.
pub open spec fn signed_of(hi: u8, lo: u8) -> int {
    let u = hi as int * 256 + lo as int;
    if u >= 32768 {
        u - 65536
    } else {
        u
    }
}

pub open spec fn axis_byte(a: Axis) -> u8 {
    match a {
        Axis::Forward => 0,
        Axis::Turn => 1,
    }
}

/// The bytes of a frame.
pub open spec fn frame_bytes(f: ControlFrame) -> Seq<u8> {
    match f {
        ControlFrame::Rpc { id, value } => seq![
            RPC_MARKER,
            id,
            (wire_value(value as int) / 256) as u8,
            (wire_value(value as int) % 256) as u8,
        ],
        ControlFrame::Motor { axis, value } => seq![
            MOTOR_MARKER,
            axis_byte(axis),
            (wire_value(value as int) / 256) as u8,
            (wire_value(value as int) % 256) as u8,
        ],
    }
}

/// The frame that four bytes hold, if they hold one.
pub open spec fn frame_of(b: Seq<u8>) -> Option<ControlFrame> {
    if b.len() != 4 {
        None
    } else if b[0] == RPC_MARKER {
        Some(ControlFrame::Rpc { id: b[1], value: signed_of(b[2], b[3]) as i16 })
    } else if b[0] == MOTOR_MARKER && b[1] == 0 {
        Some(ControlFrame::Motor { axis: Axis::Forward, value: signed_of(b[2], b[3]) as i16 })
    } else if b[0] == MOTOR_MARKER && b[1] == 1 {
        Some(ControlFrame::Motor { axis: Axis::Turn, value: signed_of(b[2], b[3]) as i16 })
    } else {
        None
    }
}

fn split_value(v: i16) -> (r: (u8, u8))
    ensures
        r.0 == (wire_value(v as int) / 256) as u8,
        r.1 == (wire_value(v as int) % 256) as u8,
        r.0 as int == wire_value(v as int) / 256,
        r.1 as int == wire_value(v as int) % 256,
{
    let u: u32 = if v < 0 {
        (v as i32 + 65536) as u32
    } else {
        v as u32
    };
    ((u / 256) as u8, (u % 256) as u8)
}

fn join_value(hi: u8, lo: u8) -> (r: i16)
    ensures
        r as int == signed_of(hi, lo),
{
    let u: u32 = hi as u32 * 256 + lo as u32;
    if u >= 32768 {
        (u as i32 - 65536) as i16
    } else {
        u as i16
    }
}

impl ControlFrame {
    /// The four bytes of this frame, as they go on the wire.
    pub fn to_bytes(&self) -> (r: [u8; 4])
        ensures
            r@ == frame_bytes(*self),
    {
        match *self {
            ControlFrame::Rpc { id, value } => {
                let (hi, lo) = split_value(value);
                let r = [RPC_MARKER, id, hi, lo];
                assert(r@ =~= frame_bytes(*self));
                r
            },
            ControlFrame::Motor { axis, value } => {
                let (hi, lo) = split_value(value);
                let dir: u8 = match axis {
                    Axis::Forward => 0,
                    Axis::Turn => 1,
                };
                let r = [MOTOR_MARKER, dir, hi, lo];
                assert(r@ =~= frame_bytes(*self));
                r
            },
        }
    }
}

/// The frame that four bytes hold, or `None` for an unknown marker or axis.
pub fn decode_frame(b: [u8; 4]) -> (r: Option<ControlFrame>)
    ensures
        r == frame_of(b@),
{
    let value = join_value(b[2], b[3]);
    if b[0] == RPC_MARKER {
        Some(ControlFrame::Rpc { id: b[1], value })
    } else if b[0] == MOTOR_MARKER && b[1] == 0 {
        Some(ControlFrame::Motor { axis: Axis::Forward, value })
    } else if b[0] == MOTOR_MARKER && b[1] == 1 {
        Some(ControlFrame::Motor { axis: Axis::Turn, value })
    } else {
        None
    }
}


pub open spec fn digit_val(c: char) -> int {
    (c as u32) as int - ('0' as u32) as int
}

/// The number that a run of decimal digits spells.
pub open spec fn digits_value(t: Seq<char>) -> int
    decreases t.len(),
{
    if t.len() == 0 {
        0
    } else {
        digits_value(t.drop_last()) * 10 + digit_val(t.last())
    }
}

pub open spec fn all_digits(t: Seq<char>) -> bool {
    forall|i: int| 0 <= i < t.len() ==> is_digit(#[trigger] t[i])
}

pub open spec fn is_negative(t: Seq<char>) -> bool {
    t.len() > 0 && t[0] == '-'
}

/// An optional '-' followed by one or more digits.
pub open spec fn integer_shape(t: Seq<char>) -> bool {
    let b = if is_negative(t) { 1int } else { 0int };
    t.len() > b && all_digits(t.subrange(b, t.len() as int))
}

pub open spec fn integer_value(t: Seq<char>) -> int {
    if is_negative(t) {
        -digits_value(t.drop_first())
    } else {
        digits_value(t)
    }
}

/// The frame value that a scaled decimal gives: `hundredths` is the text
/// read as a 64-bit float, times 100, cut toward zero, or `None` where the
/// text reads as no float.
pub open spec fn scaled_value(hundredths: Option<i64>) -> Result<i16, ArgError> {
    match hundredths {
        None => Err(ArgError::InvalidFloat),
        Some(v) => if in_i16(v as int) {
            Ok(v as i16)
        } else {
            Err(ArgError::Overflow)
        },
    }
}

/// What a typed argument `t` gives as a frame value. Text with exactly one
/// '.' is a decimal, and gives what its float reading `hundredths` gives
/// (see `scaled_value`); text that is an optional '-' and digits is an
/// integer; anything else is no number. A value outside 16 bits is an
/// overflow.
pub open spec fn argument_value(t: Seq<char>, hundredths: Option<i64>) -> Result<i16, ArgError> {
    if count_char(t, '.') == 1 {
        scaled_value(hundredths)
    } else if integer_shape(t) {
        if in_i16(integer_value(t)) {
            Ok(integer_value(t) as i16)
        } else {
            Err(ArgError::Overflow)
        }
    } else {
        Err(ArgError::NotANumber)
    }
}

fn is_digit_char(c: char) -> (r: bool)
    ensures
        r == is_digit(c),
{
    '0' <= c && c <= '9'
}

/// Whether `t[a..b]` is all digits.
pub(crate) fn digits_only(t: &Vec<char>, a: usize, b: usize) -> (r: bool)
    requires
        a <= b <= t@.len(),
    ensures
        r == all_digits(t@.subrange(a as int, b as int)),
{
    let mut k = a;
    while k < b
        invariant
            a <= k <= b <= t@.len(),
            forall|m: int| a <= m < k ==> is_digit(#[trigger] t@[m]),
        decreases b - k,
    {
        if !is_digit_char(t[k]) {
            assert(!is_digit(t@.subrange(a as int, b as int)[k - a]));
            return false;
        }
        k = k + 1;
    }
    assert forall|i: int| 0 <= i < b - a implies is_digit(#[trigger] t@.subrange(a as int, b as int)[i]) by {
        assert(is_digit(t@[a + i]));
    }
    true
}

/// The number that the digits `t[a..b]` spell, exact up to `cap`, and
/// above `cap` whenever the number is.
pub(crate) fn digits_capped(t: &Vec<char>, a: usize, b: usize, cap: u32) -> (r: u32)
    requires
        a <= b <= t@.len(),
        cap <= 1_000_000,
        all_digits(t@.subrange(a as int, b as int)),
    ensures
        (r > cap) == (digits_value(t@.subrange(a as int, b as int)) > cap),
        r <= cap ==> r == digits_value(t@.subrange(a as int, b as int)),
{
    let mut acc: u32 = 0;
    let mut k = a;
    while k < b
        invariant
            a <= k <= b <= t@.len(),
            cap <= 1_000_000,
            all_digits(t@.subrange(a as int, b as int)),
            acc <= cap * 10 + 9,
            (acc > cap) == (digits_value(t@.subrange(a as int, k as int)) > cap),
            acc <= cap ==> acc == digits_value(t@.subrange(a as int, k as int)),
        decreases b - k,
    {
        let ghost pre = t@.subrange(a as int, k as int);
        let ghost next = t@.subrange(a as int, k + 1);
        proof {
            assert(next.drop_last() =~= pre);
            assert(next.last() == t@[k as int]);
            assert(is_digit(t@.subrange(a as int, b as int)[k - a]));
            assert(digits_value(next) == digits_value(pre) * 10 + digit_val(t@[k as int]));
            assert(digits_value(pre) >= 0) by {
                lemma_digits_nonneg(pre);
            }
        }
        if acc <= cap {
            acc = acc * 10 + ((t[k] as u32) - ('0' as u32));
        }
        k = k + 1;
    }
    acc
}

pub(crate) proof fn lemma_digits_nonneg(t: Seq<char>)
    requires
        all_digits(t),
    ensures
        digits_value(t) >= 0,
    decreases t.len(),
{
    if t.len() > 0 {
        assert(is_digit(t[t.len() - 1]));
        assert(all_digits(t.drop_last())) by {
            assert forall|i: int| 0 <= i < t.drop_last().len() implies is_digit(#[trigger] t.drop_last()[i]) by {
                assert(is_digit(t[i]));
            }
        }
        lemma_digits_nonneg(t.drop_last());
    }
}

/// The frame value of a decimal argument, from its float reading.
pub fn decimal_value(hundredths: Option<i64>) -> (r: Result<i16, ArgError>)
    ensures
        r == scaled_value(hundredths),
{
    match hundredths {
        None => Err(ArgError::InvalidFloat),
        Some(v) => if -32768 <= v && v <= 32767 {
            Ok(v as i16)
        } else {
            Err(ArgError::Overflow)
        },
    }
}

/// The frame value of an argument without exactly one '.'.
fn integer_argument(t: &Vec<char>) -> (r: Result<i16, ArgError>)
    requires
        count_char(t@, '.') != 1,
    ensures
        r == argument_value(t@, None),
{
    let n = t.len();
    let neg = n > 0 && t[0] == '-';
    let b: usize = if neg { 1 } else { 0 };
    if n <= b || !digits_only(t, b, n) {
        return Err(ArgError::NotANumber);
    }
    assert(t@.drop_first() =~= t@.subrange(1, n as int));
    assert(t@ =~= t@.subrange(0, n as int));
    let m = digits_capped(t, b, n, 100_000);
    if neg {
        if m > 32768 {
            return Err(ArgError::Overflow);
        }
        Ok((0 - (m as i32)) as i16)
    } else {
        if m > 32767 {
            return Err(ArgError::Overflow);
        }
        Ok(m as i16)
    }
}

/// The frame value that the typed argument `text` gives, or why it gives
/// none. `hundredths` is `text` read as a 64-bit float, times 100, cut
/// toward zero (`None` if it reads as no float); it is used only for a
/// decimal.
pub fn parse_value(text: &str, hundredths: Option<i64>) -> (r: Result<i16, ArgError>)
    ensures
        r == argument_value(text@, hundredths),
{
    let t = chars_of(text);
    let n = t.len();
    assert(t@.subrange(0, n as int) =~= t@);
    if count_in(&t, 0, n, '.') == 1 {
        decimal_value(hundredths)
    } else {
        integer_argument(&t)
    }
}

/// The bytes of a call of remote item `id` with the argument `text` (and
/// its float reading `hundredths`, as for `parse_value`), or why `text` is
/// no valid argument (then no frame is made).
pub fn encode_frame(id: u8, text: &str, hundredths: Option<i64>) -> (r: Result<[u8; 4], ArgError>)
    ensures
        match argument_value(text@, hundredths) {
            Ok(v) => r matches Ok(b) && b@ == frame_bytes(ControlFrame::Rpc { id, value: v }),
            Err(e) => r == Err::<[u8; 4], ArgError>(e),
        },
{
    match parse_value(text, hundredths) {
        Ok(value) => Ok(ControlFrame::Rpc { id, value }.to_bytes()),
        Err(e) => Err(e),
    }
}

/// Every frame reads back from its own bytes unchanged.
pub proof fn lemma_frame_round_trip(f: ControlFrame)
    ensures
        frame_of(frame_bytes(f)) == Some(f),
{
    let v = match f {
        ControlFrame::Rpc { id, value } => value,
        ControlFrame::Motor { axis, value } => value,
    };
    let w = wire_value(v as int);
    let hi = (w / 256) as u8;
    let lo = (w % 256) as u8;
    assert(hi as int * 256 + lo as int == w);
    assert(signed_of(hi, lo) == v as int);
}

} // verus!
