//! A link to a small remote-controlled device that streams a text log: the
//! log line grammar, discovery of the device's remote items, the control
//! frame codec, and the operator's command namespace.
use vstd::prelude::*;

pub mod control;
pub mod discovery;
pub mod dispatch;
pub mod frame;
pub mod log;
pub mod text;

verus! {

/// What the generator writes: the manual page, or shell completions.
#[derive(Clone, Copy, Debug, PartialEq, Eq, Structural)]
pub enum Generate {
    Manual,
    Complete,
}

} // verus!
