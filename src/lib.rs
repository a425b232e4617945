//! Plays a score on a game instrument by injecting timed key presses.
//!
//! `keymap` maps pitches to keys, `calibrate` measures how much of a track a transposition
//! makes playable, `clock` links wall-clock time to track time, `scheduler` turns a track
//! into key actions as time passes, `transport` holds the controls shared with the user
//! interface, and `play` holds the user interface's decisions.

use vstd::prelude::*;

pub mod calibrate;
pub mod clock;
pub mod keymap;
pub mod play;
pub mod scheduler;
pub mod track;
pub mod transport;

verus! {

} // verus!
