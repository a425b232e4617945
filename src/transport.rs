use vstd::prelude::*;

use crate::clock::SPEED_SCALE;
use crate::track::{clamp_position, clamp_to_track};

verus! {

/// The control and status values shared by the presentation layer and the scheduler.
#[derive(Debug, Clone, Copy, PartialEq, Eq, Structural)]
pub struct TransportState {
    /// A session exists and has not been stopped.
    pub active: bool,
    /// Emission is suspended; meaningful only while `active`.
    pub paused: bool,
    /// The scheduler is running a session.
    pub running: bool,
    /// Speed in thousandths of normal speed.
    pub speed_milli: u64,
    /// Index of the event at or just past the play head.
    pub position: usize,
    /// The user moved the play head to `position`; the scheduler jumps there and clears it.
    pub seek_requested: bool,
    /// Transposition in semitones.
    pub offset: i32,
}

impl TransportState {
    /// A stopped transport at position 0, normal speed, no transposition.
    pub fn new() -> (r: TransportState)
        ensures
            !r.active && !r.paused && !r.running && !r.seek_requested,
            r.speed_milli == SPEED_SCALE,
            r.position == 0,
            r.offset == 0,
    {
        TransportState {
            active: false,
            paused: false,
            running: false,
            speed_milli: SPEED_SCALE,
            position: 0,
            seek_requested: false,
            offset: 0,
        }
    }

    /// Asks the scheduler to jump to `p`, clamped into a track of `len` events.
    pub fn request_seek(&mut self, p: usize, len: usize)
        ensures
            final(self).position == clamp_position(p as int, len as int),
            final(self).seek_requested,
            final(self).active == old(self).active,
            final(self).paused == old(self).paused,
            final(self).running == old(self).running,
            final(self).speed_milli == old(self).speed_milli,
            final(self).offset == old(self).offset,
    {
        self.position = clamp_to_track(p, len);
        self.seek_requested = true;
    }

    /// The play head's position.
    pub fn position(&self) -> (r: usize)
        ensures
            r == self.position,
    {
        self.position
    }

    /// A new file was opened: the session stops, and playback will start from the beginning.
    pub fn reset_for_new_track(&mut self)
        ensures
            !final(self).active && !final(self).paused && !final(self).seek_requested,
            final(self).position == 0,
            final(self).offset == 0,
            final(self).running == old(self).running,
            final(self).speed_milli == old(self).speed_milli,
    {
        self.active = false;
        self.paused = false;
        self.seek_requested = false;
        self.position = 0;
        self.offset = 0;
    }
}

} // verus!
