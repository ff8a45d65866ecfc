//! Controller logic for a button panel on a serial line that drives a media
//! player through a cyclic playlist of video fragments.

pub mod codec;
pub mod settings;
pub mod fadeout;
pub mod playlist;
pub mod dispatch;
