//! Decisions of the serial dispatch loop and of the player event watcher.

use vstd::prelude::*;
use crate::codec::{Command, PanelSignal};
use crate::playlist::moved;

verus! {

/// What the wait on the serial line ends with.
#[derive(Clone, Copy, Debug, PartialEq, Eq, Structural)]
pub enum InputEvent {
    /// A line with a command was decoded.
    Received(Command),
    /// Reading or decoding a line failed.
    ReadFailed,
    /// The line delivered nothing.
    Nothing,
    /// No input came within the idle timeout.
    IdleTimeout,
}

/// What the dispatch loop does with an input event.
#[derive(Clone, Copy, Debug, PartialEq, Eq, Structural)]
pub enum Dispatch {
    /// Hand the command to the playlist task.
    Forward(Command),
    /// Go on waiting.
    Skip,
}

pub open spec fn dispatch_of(event: InputEvent) -> Dispatch {
    match event {
        InputEvent::Received(c) => Dispatch::Forward(c),
        InputEvent::IdleTimeout => Dispatch::Forward(Command::Sleep),
        _ => Dispatch::Skip,
    }
}

/// Decides what one input event leads to: a decoded command is forwarded, an
/// idle timeout stands for a `Sleep` command, anything else is passed over.
pub fn on_input(event: InputEvent) -> (r: Dispatch)
    ensures
        r == dispatch_of(event),
{
    match event {
        InputEvent::Received(c) => Dispatch::Forward(c),
        InputEvent::IdleTimeout => Dispatch::Forward(Command::Sleep),
        InputEvent::ReadFailed => Dispatch::Skip,
        InputEvent::Nothing => Dispatch::Skip,
    }
}

/// An idle timeout forwards exactly one command, `Sleep`, and the cursor
/// goes back to the first fragment when it is carried out.
pub proof fn lemma_idle_timeout_sleeps(index: int, len: int)
    requires
        0 <= index < len,
    ensures
        dispatch_of(InputEvent::IdleTimeout) == Dispatch::Forward(Command::Sleep),
        moved(index, len, Command::Sleep) == 0,
{
}

/// Whether `p` occurs in `s` as a contiguous run.
pub open spec fn has_infix(s: Seq<char>, p: Seq<char>) -> bool {
    exists|i: int| 0 <= i && i + p.len() <= s.len() && #[trigger] s.subrange(i, i + p.len()) == p
}

/// Relies on `str::contains` with a `&str` pattern: whether `pat` occurs in
/// `s`.
#[verifier::external_body]
fn str_contains(s: &str, pat: &str) -> (r: bool)
    ensures
        r == has_infix(s@, pat@),
{
    s.contains(pat)
}

/// The part of a file name that marks a looping clip.
pub const LOOP_MARKER: &'static str = "loop";

pub open spec fn signal_for(name: Seq<char>) -> PanelSignal {
    if has_infix(name, LOOP_MARKER@) {
        PanelSignal::StartOnly
    } else {
        PanelSignal::Both
    }
}

/// The panel signal for the clip `name` that the player has just opened:
/// only the start button is lit while a looping clip plays.
pub fn signal_for_filename(name: &str) -> (r: PanelSignal)
    ensures
        r == signal_for(name@),
{
    if str_contains(name, LOOP_MARKER) {
        PanelSignal::StartOnly
    } else {
        PanelSignal::Both
    }
}

} // verus!
