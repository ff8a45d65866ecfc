//! Choice of the outro that ends the current fragment.

use vstd::prelude::*;
use crate::settings::Fadeout;

verus! {

/// What the player reports at the moment of a transition: the loops left of
/// the current clip (-1 while it loops forever) and the playback time.
#[derive(Clone, Copy, Debug, PartialEq, Eq, Structural)]
pub struct Telemetry {
    pub remaining_loops: i32,
    pub playback_ms: u64,
}

pub const LOOPS_FOREVER: i32 = -1;

/// Whether the outro `f` may be chosen: while the clip loops forever only an
/// unconditional one; otherwise one whose threshold is not before the
/// playback time, an absent threshold counting as unbounded.
pub open spec fn fadeout_applies(loops: int, time_ms: int, f: Fadeout) -> bool {
    if loops == LOOPS_FOREVER {
        f.before_ms is None
    } else {
        match f.before_ms {
            None => true,
            Some(b) => time_ms <= b,
        }
    }
}

pub open spec fn is_first_applicable(loops: int, time_ms: int, fs: Seq<Fadeout>, i: int) -> bool {
    &&& 0 <= i < fs.len()
    &&& fadeout_applies(loops, time_ms, fs[i])
    &&& forall|j: int| 0 <= j < i ==> !fadeout_applies(loops, time_ms, #[trigger] fs[j])
}

/// The index of the outro chosen from `fs`: the first one, in list order,
/// that applies.
pub open spec fn selected_fadeout(loops: int, time_ms: int, fs: Seq<Fadeout>) -> Option<int> {
    if exists|i: int| is_first_applicable(loops, time_ms, fs, i) {
        Some(choose|i: int| is_first_applicable(loops, time_ms, fs, i))
    } else {
        None
    }
}

proof fn lemma_selected_is(loops: int, time_ms: int, fs: Seq<Fadeout>, i: int)
    requires
        is_first_applicable(loops, time_ms, fs, i),
    ensures
        selected_fadeout(loops, time_ms, fs) == Some(i),
{
    let m = choose|m: int| is_first_applicable(loops, time_ms, fs, m);
    assert(is_first_applicable(loops, time_ms, fs, m));
    if m < i {
        assert(!fadeout_applies(loops, time_ms, fs[m]));
    } else if i < m {
        assert(!fadeout_applies(loops, time_ms, fs[i]));
    }
}

proof fn lemma_selected_none(loops: int, time_ms: int, fs: Seq<Fadeout>)
    requires
        forall|j: int| 0 <= j < fs.len() ==> !fadeout_applies(loops, time_ms, #[trigger] fs[j]),
    ensures
        selected_fadeout(loops, time_ms, fs) is None,
{
    if exists|i: int| is_first_applicable(loops, time_ms, fs, i) {
        let i = choose|i: int| is_first_applicable(loops, time_ms, fs, i);
        assert(fadeout_applies(loops, time_ms, fs[i]));
    }
}

/// Returns the index of the first outro of `fadeouts` that applies under
/// `telemetry`, or `None` where none does.
pub fn select_fadeout(telemetry: Telemetry, fadeouts: &Vec<Fadeout>) -> (r: Option<usize>)
    ensures
        r matches Some(i) ==> selected_fadeout(
            telemetry.remaining_loops as int,
            telemetry.playback_ms as int,
            fadeouts@,
        ) == Some(i as int),
        r is None ==> selected_fadeout(
            telemetry.remaining_loops as int,
            telemetry.playback_ms as int,
            fadeouts@,
        ) is None,
{
    let ghost loops = telemetry.remaining_loops as int;
    let ghost t = telemetry.playback_ms as int;
    let mut i: usize = 0;
    while i < fadeouts.len()
        invariant
            i <= fadeouts@.len(),
            loops == telemetry.remaining_loops as int,
            t == telemetry.playback_ms as int,
            forall|j: int| 0 <= j < i ==> !fadeout_applies(loops, t, #[trigger] fadeouts@[j]),
        decreases fadeouts@.len() - i,
    {
        let before = fadeouts[i].before_ms;
        let applies = if telemetry.remaining_loops == LOOPS_FOREVER {
            before.is_none()
        } else {
            match before {
                None => true,
                Some(b) => telemetry.playback_ms <= b,
            }
        };
        assert(applies == fadeout_applies(loops, t, fadeouts@[i as int]));
        if applies {
            proof {
                lemma_selected_is(loops, t, fadeouts@, i as int);
            }
            return Some(i);
        }
        i += 1;
    }
    proof {
        lemma_selected_none(loops, t, fadeouts@);
    }
    None
}

/// While the clip loops forever, a list with a single unconditional outro
/// selects that outro, whatever the playback time.
pub proof fn lemma_forever_selects_unconditional(time_ms: int, fs: Seq<Fadeout>, k: int)
    requires
        0 <= k < fs.len(),
        fs[k].before_ms is None,
        forall|j: int| 0 <= j < fs.len() && j != k ==> (#[trigger] fs[j]).before_ms is Some,
    ensures
        selected_fadeout(LOOPS_FOREVER as int, time_ms, fs) == Some(k),
{
    assert forall|j: int| 0 <= j < k implies !fadeout_applies(
        LOOPS_FOREVER as int,
        time_ms,
        #[trigger] fs[j],
    ) by {
        assert(fs[j].before_ms is Some);
    }
    lemma_selected_is(LOOPS_FOREVER as int, time_ms, fs, k);
}

} // verus!
