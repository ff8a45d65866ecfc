use panel_player::codec::Command;
use panel_player::fadeout::{select_fadeout, Telemetry};
use panel_player::playlist::{load_mode, loop_option, EngineAction, Playlist};
use panel_player::settings::{Fadeout, Fragment};

fn fade(before_ms: Option<u64>, video: &str) -> Fadeout {
    Fadeout { before_ms, video: video.to_string() }
}

fn frag(intro: Option<&str>, static_: &str, fadeout: Option<Vec<Fadeout>>) -> Fragment {
    Fragment { intro: intro.map(|s| s.to_string()), static_: static_.to_string(), fadeout }
}

fn tel(remaining_loops: i32, playback_ms: u64) -> Telemetry {
    Telemetry { remaining_loops, playback_ms }
}

fn is_replace(a: &EngineAction, c: &str, l: bool) -> bool {
    matches!(a, EngineAction::Replace { clip, loop_forever } if clip == c && *loop_forever == l)
}

fn is_queue(a: &EngineAction, c: &str, l: bool) -> bool {
    matches!(a, EngineAction::Queue { clip, loop_forever } if clip == c && *loop_forever == l)
}

fn is_clear(a: &EngineAction) -> bool {
    matches!(a, EngineAction::ClearQueue)
}

#[test]
fn timed_fadeout_first_threshold_not_before_time() {
    let list = vec![fade(Some(5000), "A"), fade(Some(15000), "B")];
    assert_eq!(select_fadeout(tel(2, 10000), &list), Some(1));
    assert_eq!(select_fadeout(tel(2, 5000), &list), Some(0));
    assert_eq!(select_fadeout(tel(2, 15001), &list), None);
}

#[test]
fn infinite_loops_take_unconditional_fadeout() {
    let list = vec![fade(Some(5000), "A"), fade(None, "B")];
    assert_eq!(select_fadeout(tel(-1, 0), &list), Some(1));
    assert_eq!(select_fadeout(tel(-1, 1_000_000), &list), Some(1));
    let timed_only = vec![fade(Some(5000), "A")];
    assert_eq!(select_fadeout(tel(-1, 0), &timed_only), None);
}

#[test]
fn unconditional_fadeout_order_matters() {
    let first = vec![fade(None, "U"), fade(Some(5000), "A")];
    assert_eq!(select_fadeout(tel(0, 1000), &first), Some(0));
    let last = vec![fade(Some(5000), "A"), fade(None, "U")];
    assert_eq!(select_fadeout(tel(0, 1000), &last), Some(0));
    assert_eq!(select_fadeout(tel(0, 9000), &last), Some(1));
    assert_eq!(select_fadeout(tel(0, 0), &vec![]), None);
}

#[test]
fn empty_playlist_is_refused() {
    assert!(Playlist::new(vec![]).is_none());
}

#[test]
fn advance_wraps_and_retreat_clamps() {
    let mut p = Playlist::new(vec![frag(None, "a", None), frag(None, "b", None)]).unwrap();
    assert_eq!(p.position(), 0);
    p.retreat();
    assert_eq!(p.position(), 0);
    p.advance();
    assert_eq!(p.position(), 1);
    assert_eq!(p.current().static_, "b");
    p.advance();
    assert_eq!(p.position(), 0);
    p.advance();
    p.retreat();
    assert_eq!(p.position(), 0);
    p.advance();
    p.reset_to_start();
    assert_eq!(p.position(), 0);
}

#[test]
fn next_into_fragment_without_intro() {
    let mut p = Playlist::new(vec![frag(None, "s0", None), frag(None, "s1", None)]).unwrap();
    let actions = p.transition(Command::Next, None);
    assert_eq!(actions.len(), 2);
    assert!(is_replace(&actions[0], "s1", true));
    assert!(is_clear(&actions[1]));
    assert_eq!(p.position(), 1);
}

#[test]
fn next_into_fragment_with_intro() {
    let mut p =
        Playlist::new(vec![frag(None, "s0", None), frag(Some("i1"), "s1", None)]).unwrap();
    assert!(!p.needs_telemetry());
    let actions = p.transition(Command::Next, None);
    assert_eq!(actions.len(), 3);
    assert!(is_replace(&actions[0], "i1", false));
    assert!(is_clear(&actions[1]));
    assert!(is_queue(&actions[2], "s1", true));
}

#[test]
fn outro_replaces_before_moving() {
    let list = vec![fade(Some(5000), "A"), fade(Some(15000), "B")];
    let mut p =
        Playlist::new(vec![frag(None, "s0", Some(list)), frag(Some("i1"), "s1", None)]).unwrap();
    assert!(p.needs_telemetry());
    let actions = p.transition(Command::Next, Some(tel(2, 10000)));
    assert_eq!(actions.len(), 4);
    assert!(is_replace(&actions[0], "B", false));
    assert!(is_clear(&actions[1]));
    assert!(is_queue(&actions[2], "i1", false));
    assert!(is_queue(&actions[3], "s1", true));
}

#[test]
fn no_outro_selected_loads_target_directly() {
    let list = vec![fade(Some(5000), "A")];
    let mut p =
        Playlist::new(vec![frag(None, "s0", Some(list)), frag(None, "s1", None)]).unwrap();
    let actions = p.transition(Command::Prev, Some(tel(2, 10000)));
    assert_eq!(actions.len(), 2);
    assert!(is_replace(&actions[0], "s0", true));
    assert!(is_clear(&actions[1]));
    assert_eq!(p.position(), 0);
}

#[test]
fn empty_outro_list_never_replaces_early() {
    let mut p =
        Playlist::new(vec![frag(None, "s0", Some(vec![])), frag(None, "s1", None)]).unwrap();
    let actions = p.transition(Command::Next, Some(tel(-1, 0)));
    assert_eq!(actions.len(), 2);
    assert!(is_replace(&actions[0], "s1", true));
}

#[test]
fn sleep_returns_to_start() {
    let mut p = Playlist::new(vec![
        frag(None, "s0", None),
        frag(None, "s1", None),
        frag(None, "s2", None),
    ])
    .unwrap();
    p.advance();
    p.advance();
    let actions = p.transition(Command::Sleep, None);
    assert_eq!(p.position(), 0);
    assert!(is_replace(&actions[0], "s0", true));
}

#[test]
fn startup_queues_first_loop() {
    let p = Playlist::new(vec![frag(Some("i0"), "s0", None)]).unwrap();
    let actions = p.startup_actions();
    assert_eq!(actions.len(), 1);
    assert!(is_queue(&actions[0], "s0", true));
}

#[test]
fn loadfile_arguments() {
    assert_eq!(loop_option(true), "loop-file=inf");
    assert_eq!(loop_option(false), "loop-file=0");
    let replace = EngineAction::Replace { clip: "a".to_string(), loop_forever: true };
    let queue = EngineAction::Queue { clip: "a".to_string(), loop_forever: false };
    assert_eq!(load_mode(&replace), Some("replace"));
    assert_eq!(load_mode(&queue), Some("append-play"));
    assert_eq!(load_mode(&EngineAction::ClearQueue), None);
}
