//! Direct steering: each key the operator presses maps to a pair of motion
//! preset frames, one per axis.
use vstd::prelude::*;
use crate::frame::{frame_bytes, Axis, ControlFrame};

verus! {

/// Turning speed of the presets.
pub const SPEED_THETA: i16 = 123;

/// Forward speed of the presets.
pub const SPEED_FORWARD: i16 = 200;

/// A key press, as far as steering tells keys apart.
#[derive(Clone, Copy, Debug, PartialEq, Eq, Structural)]
pub enum ControlKey {
    ArrowLeft,
    ArrowRight,
    ArrowUp,
    ArrowDown,
    Shift,
    Char(char),
    Other,
}

pub open spec fn turn(v: i16) -> ControlFrame {
    ControlFrame::Motor { axis: Axis::Turn, value: v }
}

pub open spec fn drive(v: i16) -> ControlFrame {
    ControlFrame::Motor { axis: Axis::Forward, value: v }
}

/// The two presets that a key sends: turn left or right with the forward
/// axis stopped, go forward or back with the turn axis stopped, turn while
/// going forward (upper-case 'A' and 'D'), or stop both axes (space). Any
/// other key sends nothing.
pub open spec fn key_motion(k: ControlKey) -> Option<(ControlFrame, ControlFrame)> {
    match k {
        ControlKey::ArrowLeft | ControlKey::Char('a') => Some((turn((-SPEED_THETA) as i16), drive(0))),
        ControlKey::ArrowRight | ControlKey::Char('d') => Some((turn(SPEED_THETA), drive(0))),
        ControlKey::ArrowUp | ControlKey::Char('w') | ControlKey::Char('W') | ControlKey::Shift => Some(
            (turn(0), drive(SPEED_FORWARD)),
        ),
        ControlKey::ArrowDown | ControlKey::Char('s') | ControlKey::Char('S') => Some(
            (turn(0), drive((-SPEED_FORWARD) as i16)),
        ),
        ControlKey::Char('A') => Some((turn((-SPEED_THETA) as i16), drive(SPEED_FORWARD))),
        ControlKey::Char('D') => Some((turn(SPEED_THETA), drive(SPEED_FORWARD))),
        ControlKey::Char(' ') => Some((drive(0), turn(0))),
        _ => None,
    }
}

fn motion(k: ControlKey) -> (r: Option<(ControlFrame, ControlFrame)>)
    ensures
        r == key_motion(k),
{
    let t = |v: i16| -> (f: ControlFrame)
        ensures
            f == turn(v),
        { ControlFrame::Motor { axis: Axis::Turn, value: v } };
    let f = |v: i16| -> (g: ControlFrame)
        ensures
            g == drive(v),
        { ControlFrame::Motor { axis: Axis::Forward, value: v } };
    match k {
        ControlKey::ArrowLeft | ControlKey::Char('a') => Some((t(-SPEED_THETA), f(0))),
        ControlKey::ArrowRight | ControlKey::Char('d') => Some((t(SPEED_THETA), f(0))),
        ControlKey::ArrowUp | ControlKey::Char('w') | ControlKey::Char('W') | ControlKey::Shift => Some(
            (t(0), f(SPEED_FORWARD)),
        ),
        ControlKey::ArrowDown | ControlKey::Char('s') | ControlKey::Char('S') => Some(
            (t(0), f(-SPEED_FORWARD)),
        ),
        ControlKey::Char('A') => Some((t(-SPEED_THETA), f(SPEED_FORWARD))),
        ControlKey::Char('D') => Some((t(SPEED_THETA), f(SPEED_FORWARD))),
        ControlKey::Char(' ') => Some((f(0), t(0))),
        _ => None,
    }
}

/// The eight bytes that a key press sends, or `None` for a key that steers
/// nothing.
pub fn key_frames(key: ControlKey) -> (r: Option<Vec<u8>>)
    ensures
        match key_motion(key) {
            Some((a, b)) => r matches Some(v) && v@ == frame_bytes(a) + frame_bytes(b),
            None => r is None,
        },
{
    match motion(key) {
        Some((a, b)) => {
            let x = a.to_bytes();
            let y = b.to_bytes();
            let v: Vec<u8> = vec![x[0], x[1], x[2], x[3], y[0], y[1], y[2], y[3]];
            assert(v@ =~= frame_bytes(a) + frame_bytes(b));
            Some(v)
        },
        None => None,
    }
}

} // verus!
