use panel_player::codec::{Command, PanelSignal};
use panel_player::dispatch::{on_input, signal_for_filename, Dispatch, InputEvent};
use panel_player::playlist::Playlist;
use panel_player::settings::Fragment;

#[test]
fn idle_timeout_forwards_one_sleep() {
    assert_eq!(on_input(InputEvent::IdleTimeout), Dispatch::Forward(Command::Sleep));
    let mut p = Playlist::new(vec![
        Fragment { intro: None, static_: "a".to_string(), fadeout: None },
        Fragment { intro: None, static_: "b".to_string(), fadeout: None },
    ])
    .unwrap();
    p.advance();
    if let Dispatch::Forward(c) = on_input(InputEvent::IdleTimeout) {
        p.transition(c, None);
    }
    assert_eq!(p.position(), 0);
}

#[test]
fn decoded_commands_are_forwarded() {
    assert_eq!(on_input(InputEvent::Received(Command::Next)), Dispatch::Forward(Command::Next));
    assert_eq!(on_input(InputEvent::Received(Command::Prev)), Dispatch::Forward(Command::Prev));
    assert_eq!(on_input(InputEvent::ReadFailed), Dispatch::Skip);
    assert_eq!(on_input(InputEvent::Nothing), Dispatch::Skip);
}

#[test]
fn looping_clip_lights_start_only() {
    assert_eq!(signal_for_filename("fragment1_loop.mp4"), PanelSignal::StartOnly);
    assert_eq!(signal_for_filename("fragment1_intro.mp4"), PanelSignal::Both);
    assert_eq!(signal_for_filename("lo op"), PanelSignal::Both);
    assert_eq!(signal_for_filename(""), PanelSignal::Both);
}
