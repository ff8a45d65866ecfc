//! The cyclic playlist with its cursor, and the player commands that each
//! panel command turns into.

use vstd::prelude::*;
use crate::codec::Command;
use crate::fadeout::{Telemetry, select_fadeout, selected_fadeout};
use crate::settings::{Fadeout, Fragment};

verus! {

/// A command for the media player.
#[derive(Clone, Debug)]
pub enum EngineAction {
    /// Play `clip` now, dropping what plays.
    Replace { clip: String, loop_forever: bool },
    /// Play `clip` after what is queued.
    Queue { clip: String, loop_forever: bool },
    /// Drop everything queued after the clip that plays.
    ClearQueue,
}

pub const LOOP_FOREVER_OPTION: &'static str = "loop-file=inf";

pub const PLAY_ONCE_OPTION: &'static str = "loop-file=0";

pub const REPLACE_MODE: &'static str = "replace";

pub const QUEUE_MODE: &'static str = "append-play";

/// The player's per-file option that makes a clip loop forever or play once.
pub fn loop_option(loop_forever: bool) -> (r: &'static str)
    ensures
        r == (if loop_forever {
            LOOP_FOREVER_OPTION
        } else {
            PLAY_ONCE_OPTION
        }),
{
    if loop_forever {
        LOOP_FOREVER_OPTION
    } else {
        PLAY_ONCE_OPTION
    }
}

/// The player's `loadfile` mode of a load command: play now or append;
/// `None` for a command that loads nothing.
pub fn load_mode(action: &EngineAction) -> (r: Option<&'static str>)
    ensures
        r == (match action {
            EngineAction::Replace { .. } => Some(REPLACE_MODE),
            EngineAction::Queue { .. } => Some(QUEUE_MODE),
            EngineAction::ClearQueue => None::<&'static str>,
        }),
{
    match action {
        EngineAction::Replace { .. } => Some(REPLACE_MODE),
        EngineAction::Queue { .. } => Some(QUEUE_MODE),
        EngineAction::ClearQueue => None,
    }
}

/// The cursor position after `cmd`: `Next` wraps past the end to the start,
/// `Prev` stops at the start, `Sleep` goes back to the start.
pub open spec fn moved(index: int, len: int, cmd: Command) -> int {
    match cmd {
        Command::Next => if index + 1 >= len {
            0
        } else {
            index + 1
        },
        Command::Prev => if index <= 0 {
            0
        } else {
            index - 1
        },
        Command::Sleep => 0,
    }
}

/// Loading `clip`: queued where a replacement has already been made in this
/// transition, else played now with the queue cleared after it.
pub open spec fn load(clip: String, loop_forever: bool, replaced: bool) -> Seq<EngineAction> {
    if replaced {
        seq![EngineAction::Queue { clip, loop_forever }]
    } else {
        seq![EngineAction::Replace { clip, loop_forever }, EngineAction::ClearQueue]
    }
}

/// Loading the fragment `f` that the cursor moved to: its intro once, if it
/// has one, then its clip looping forever.
pub open spec fn enter_fragment(f: Fragment, replaced: bool) -> Seq<EngineAction> {
    match f.intro {
        Some(intro) => load(intro, false, replaced) + load(f.static_, true, true),
        None => load(f.static_, true, replaced),
    }
}

/// The outro that ends fragment `f`: none without an outro list or without
/// telemetry, else the selected one.
pub open spec fn outro_of(f: Fragment, telemetry: Option<Telemetry>) -> Option<Fadeout> {
    match (f.fadeout, telemetry) {
        (Some(list), Some(t)) => match selected_fadeout(
            t.remaining_loops as int,
            t.playback_ms as int,
            list@,
        ) {
            Some(k) => Some(list@[k]),
            None => None,
        },
        _ => None,
    }
}

/// All player commands of one transition from position `index` of `frags`.
pub open spec fn transition_actions(
    frags: Seq<Fragment>,
    index: int,
    cmd: Command,
    telemetry: Option<Telemetry>,
) -> Seq<EngineAction> {
    let target = frags[moved(index, frags.len() as int, cmd)];
    match outro_of(frags[index], telemetry) {
        Some(f) => load(f.video, false, false) + enter_fragment(target, true),
        None => enter_fragment(target, false),
    }
}

/// Past the last fragment the cursor wraps to the first; before the first it
/// stays at the first.
pub proof fn lemma_wrap_and_clamp(len: int)
    requires
        len > 0,
    ensures
        moved(len - 1, len, Command::Next) == 0,
        moved(0, len, Command::Prev) == 0,
{
}

/// The cursor never leaves the playlist.
pub proof fn lemma_moved_in_range(index: int, len: int, cmd: Command)
    requires
        0 <= index < len,
    ensures
        0 <= moved(index, len, cmd) < len,
{
}

/// Where the current fragment has no outros, nothing is played before the
/// cursor moves: the transition only loads the fragment moved to.
pub proof fn lemma_no_outros_no_early_replace(
    frags: Seq<Fragment>,
    index: int,
    cmd: Command,
    telemetry: Option<Telemetry>,
)
    requires
        0 <= index < frags.len(),
        match frags[index].fadeout {
            None => true,
            Some(list) => list@.len() == 0,
        },
    ensures
        transition_actions(frags, index, cmd, telemetry) == enter_fragment(
            frags[moved(index, frags.len() as int, cmd)],
            false,
        ),
{
}

/// Appends the commands that load `clip` to `actions`.
fn push_load(actions: &mut Vec<EngineAction>, clip: String, loop_forever: bool, replaced: bool)
    ensures
        final(actions)@ == old(actions)@ + load(clip, loop_forever, replaced),
{
    if replaced {
        actions.push(EngineAction::Queue { clip, loop_forever });
    } else {
        actions.push(EngineAction::Replace { clip, loop_forever });
        actions.push(EngineAction::ClearQueue);
    }
    assert(final(actions)@ =~= old(actions)@ + load(clip, loop_forever, replaced));
}

/// An ordered, non-empty sequence of fragments with a current position.
pub struct Playlist {
    fragments: Vec<Fragment>,
    position: usize,
}

impl Playlist {
    pub closed spec fn fragments(&self) -> Seq<Fragment> {
        self.fragments@
    }

    pub closed spec fn index(&self) -> int {
        self.position as int
    }

    pub open spec fn wf(&self) -> bool {
        &&& self.fragments().len() > 0
        &&& 0 <= self.index() < self.fragments().len()
    }

    /// A playlist over `fragments` at its first fragment; `None` where there
    /// is no fragment.
    pub fn new(fragments: Vec<Fragment>) -> (r: Option<Playlist>)
        ensures
            fragments@.len() == 0 <==> r is None,
            r matches Some(p) ==> p.wf() && p.fragments() == fragments@ && p.index() == 0,
    {
        if fragments.len() == 0 {
            None
        } else {
            Some(Playlist { fragments, position: 0 })
        }
    }

    pub fn len(&self) -> (r: usize)
        ensures
            r == self.fragments().len(),
    {
        self.fragments.len()
    }

    /// The current position.
    pub fn position(&self) -> (r: usize)
        ensures
            r == self.index(),
    {
        self.position
    }

    /// The fragment at the current position.
    pub fn current(&self) -> (r: &Fragment)
        requires
            self.wf(),
        ensures
            *r == self.fragments()[self.index()],
    {
        &self.fragments[self.position]
    }

    /// Moves to the next fragment, from the last one to the first.
    pub fn advance(&mut self)
        requires
            old(self).wf(),
        ensures
            final(self).wf(),
            final(self).fragments() == old(self).fragments(),
            final(self).index() == moved(
                old(self).index(),
                old(self).fragments().len() as int,
                Command::Next,
            ),
    {
        if self.position >= self.fragments.len() - 1 {
            self.position = 0;
        } else {
            self.position = self.position + 1;
        }
    }

    /// Moves to the previous fragment; at the first one it stays.
    pub fn retreat(&mut self)
        requires
            old(self).wf(),
        ensures
            final(self).wf(),
            final(self).fragments() == old(self).fragments(),
            final(self).index() == moved(
                old(self).index(),
                old(self).fragments().len() as int,
                Command::Prev,
            ),
    {
        if self.position > 0 {
            self.position = self.position - 1;
        }
    }

    /// Moves to the first fragment.
    pub fn reset_to_start(&mut self)
        requires
            old(self).wf(),
        ensures
            final(self).wf(),
            final(self).fragments() == old(self).fragments(),
            final(self).index() == 0,
    {
        self.position = 0;
    }

    /// Whether the current fragment has outros, so that a transition needs
    /// the player's telemetry.
    pub fn needs_telemetry(&self) -> (r: bool)
        requires
            self.wf(),
        ensures
            r == self.fragments()[self.index()].fadeout is Some,
    {
        self.fragments[self.position].fadeout.is_some()
    }

    /// What the player is told at start: queue the current fragment's clip,
    /// looping forever.
    pub fn startup_actions(&self) -> (r: Vec<EngineAction>)
        requires
            self.wf(),
        ensures
            r@ == seq![
                EngineAction::Queue {
                    clip: self.fragments()[self.index()].static_,
                    loop_forever: true,
                },
            ],
    {
        let clip = self.fragments[self.position].static_.clone();
        let mut r: Vec<EngineAction> = Vec::new();
        r.push(EngineAction::Queue { clip, loop_forever: true });
        r
    }

    /// Carries out `cmd`: picks the outro of the current fragment from
    /// `telemetry`, moves the cursor, and returns the player commands of the
    /// whole transition in order. At most one of them plays a clip at once;
    /// an intro comes before the looping clip.
    pub fn transition(&mut self, cmd: Command, telemetry: Option<Telemetry>) -> (r: Vec<
        EngineAction,
    >)
        requires
            old(self).wf(),
        ensures
            final(self).wf(),
            final(self).fragments() == old(self).fragments(),
            final(self).index() == moved(
                old(self).index(),
                old(self).fragments().len() as int,
                cmd,
            ),
            r@ == transition_actions(old(self).fragments(), old(self).index(), cmd, telemetry),
    {
        let mut actions: Vec<EngineAction> = Vec::new();
        let mut outro: Option<String> = None;
        let cur = &self.fragments[self.position];
        if let Some(fadeouts) = &cur.fadeout {
            if let Some(t) = telemetry {
                if let Some(k) = select_fadeout(t, fadeouts) {
                    outro = Some(fadeouts[k].video.clone());
                }
            }
        }
        assert(outro == (match outro_of(old(self).fragments()[old(self).index()], telemetry) {
            Some(f) => Some(f.video),
            None => None::<String>,
        }));
        let replaced = outro.is_some();
        if let Some(clip) = outro {
            push_load(&mut actions, clip, false, false);
        }
        match cmd {
            Command::Next => self.advance(),
            Command::Prev => self.retreat(),
            Command::Sleep => self.reset_to_start(),
        }
        let target = &self.fragments[self.position];
        let mut replaced_now = replaced;
        if let Some(intro) = &target.intro {
            push_load(&mut actions, intro.clone(), false, replaced_now);
            replaced_now = true;
        }
        push_load(&mut actions, target.static_.clone(), true, replaced_now);
        assert(actions@ =~= transition_actions(
            old(self).fragments(),
            old(self).index(),
            cmd,
            telemetry,
        ));
        actions
    }
}

} // verus!
