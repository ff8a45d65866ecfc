//! The controller's configuration: serial line, idle timeout and playlist.

use vstd::prelude::*;

verus! {

/// An outro clip. `before_ms`, in milliseconds of playback, is the latest
/// point at which it may be chosen; without it the outro is unconditional.
#[derive(Clone, Debug)]
pub struct Fadeout {
    pub before_ms: Option<u64>,
    pub video: String,
}

/// One playlist entry: an optional intro, the looping clip, and the outros
/// in the order in which they are tried.
#[derive(Clone, Debug)]
pub struct Fragment {
    pub intro: Option<String>,
    pub static_: String,
    pub fadeout: Option<Vec<Fadeout>>,
}

#[derive(Clone, Debug)]
pub struct Settings {
    pub log_dir: String,
    pub serial_port: String,
    pub baud_rate: usize,
    pub sleep_timeout_sec: usize,
    pub rotation_deg: Option<i64>,
    pub playlist: Vec<Fragment>,
}

} // verus!
