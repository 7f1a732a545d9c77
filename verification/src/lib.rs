//! An in-memory music catalog: a library of songs, named playlists with a
//! playback cursor, controls for stepping through it and simple recommendations.

pub mod chance;
pub mod player;
pub mod playlist;
pub mod ranking;
pub mod song;
pub mod text;
