use vstd::prelude::*;

use crate::clock::SPEED_SCALE;
use crate::keymap::Mode;
use crate::track::clamp_position;
use crate::transport::TransportState;

verus! {

/// One step of the speed buttons, in thousandths (0.1x).
pub const SPEED_STEP: u64 = 100;

/// Whether the speed-down and speed-up hotkeys were already held on the last frame, so that
/// holding a key changes the speed once.
#[derive(Debug, Clone, Copy, PartialEq, Eq, Structural)]
pub struct SpeedStatus {
    pub add: bool,
    pub sub: bool,
}

impl Default for SpeedStatus {
    fn default() -> (r: SpeedStatus)
        ensures
            !r.add && !r.sub,
    {
        SpeedStatus { add: false, sub: false }
    }
}

/// The virtual-key codes of the play, pause and stop hotkeys.
#[derive(Debug, Clone, Copy, PartialEq, Eq, Structural)]
pub struct FunctionKeys {
    pub play: u16,
    pub pause: u16,
    pub stop: u16,
}

impl Default for FunctionKeys {
    /// Space plays, Backspace pauses, Ctrl stops.
    fn default() -> (r: FunctionKeys)
        ensures
            r.play == 32 && r.pause == 8 && r.stop == 17,
    {
        FunctionKeys { play: 32, pause: 8, stop: 17 }
    }
}

/// What the status line shows.
#[derive(Debug, Clone, Copy, PartialEq, Eq, Structural)]
pub enum PlayState {
    Stopped,
    Playing,
    Paused,
}

/// The status that a transport shows: stopped unless active, paused while paused.
pub open spec fn state_of(active: bool, paused: bool) -> PlayState {
    if !active {
        PlayState::Stopped
    } else if paused {
        PlayState::Paused
    } else {
        PlayState::Playing
    }
}

/// The player panel: the user's settings and what it shows.
#[derive(Debug, Clone, Copy, PartialEq, Eq, Structural)]
pub struct Play {
    /// Speed in thousandths of normal speed.
    pub speed_milli: u64,
    pub mode: Mode,
    pub state: PlayState,
    /// Whether the track list is shown.
    pub tracks_enable: bool,
    /// Transposition in semitones.
    pub offset: i32,
    pub notify_merge: bool,
    pub function_keys: FunctionKeys,
    pub speed_status: SpeedStatus,
    /// The play head as the progress slider shows it.
    pub progress: usize,
}

/// The speed after one press of the speed-down control: one step lower, where it is above one step.
pub open spec fn slower(speed: int) -> int {
    if speed > SPEED_STEP { speed - SPEED_STEP } else { speed }
}

/// The speed after one press of the speed-up control: one step higher, where that fits.
pub open spec fn faster(speed: int) -> int {
    if speed <= u64::MAX - SPEED_STEP { speed + SPEED_STEP } else { speed }
}

/// Whether a hotkey that is `held` now, with `was` its state on the last frame, or a click
/// on its button, triggers the control: a key counts once when it goes down.
pub open spec fn triggers(clicked: bool, held: bool, was: bool) -> bool {
    clicked || (held && !was)
}

/// The three hotkeys are pairwise different.
pub open spec fn keys_distinct(k: FunctionKeys) -> bool {
    k.play != k.pause && k.play != k.stop && k.pause != k.stop
}

impl Play {
    /// The panel as it opens: normal speed, the lyre, stopped, no transposition.
    pub fn new() -> (r: Play)
        ensures
            r.speed_milli == SPEED_SCALE,
            r.mode == Mode::GenShin,
            r.state == PlayState::Stopped,
            !r.tracks_enable && !r.notify_merge,
            r.offset == 0,
            r.function_keys == (FunctionKeys { play: 32, pause: 8, stop: 17 }),
            keys_distinct(r.function_keys),
            r.speed_status == (SpeedStatus { add: false, sub: false }),
            r.progress == 0,
    {
        Play {
            speed_milli: SPEED_SCALE,
            mode: Mode::GenShin,
            state: PlayState::Stopped,
            tracks_enable: false,
            offset: 0,
            notify_merge: false,
            function_keys: FunctionKeys::default(),
            speed_status: SpeedStatus::default(),
            progress: 0,
        }
    }

    /// Handles the speed-down control for one frame: `held` is whether a minus key is down,
    /// `clicked` whether its button was clicked.
    pub fn speed_down(&mut self, held: bool, clicked: bool)
        ensures
            final(self).speed_status.sub == held,
            final(self).speed_status.add == old(self).speed_status.add,
            final(self).speed_milli == if triggers(clicked, held, old(self).speed_status.sub) {
                slower(old(self).speed_milli as int)
            } else {
                old(self).speed_milli as int
            },
            final(self).offset == old(self).offset,
            final(self).mode == old(self).mode,
    {
        if !held {
            self.speed_status.sub = false;
        }
        if clicked || held != self.speed_status.sub {
            self.speed_status.sub = held;
            if self.speed_milli > SPEED_STEP {
                self.speed_milli = self.speed_milli - SPEED_STEP;
            }
        }
    }

    /// Handles the speed-up control for one frame: `held` is whether a plus key is down,
    /// `clicked` whether its button was clicked.
    pub fn speed_up(&mut self, held: bool, clicked: bool)
        ensures
            final(self).speed_status.add == held,
            final(self).speed_status.sub == old(self).speed_status.sub,
            final(self).speed_milli == if triggers(clicked, held, old(self).speed_status.add) {
                faster(old(self).speed_milli as int)
            } else {
                old(self).speed_milli as int
            },
            final(self).offset == old(self).offset,
            final(self).mode == old(self).mode,
    {
        if !held {
            self.speed_status.add = false;
        }
        if clicked || held != self.speed_status.add {
            self.speed_status.add = held;
            if self.speed_milli <= u64::MAX - SPEED_STEP {
                self.speed_milli = self.speed_milli + SPEED_STEP;
            }
        }
    }

    /// Binds the play hotkey to `key`, unless the pause or stop hotkey uses it; returns
    /// whether it did.
    pub fn bind_play(&mut self, key: u16) -> (r: bool)
        ensures
            r == (key != old(self).function_keys.pause && key != old(self).function_keys.stop),
            final(self).function_keys == if r {
                (FunctionKeys { play: key, ..old(self).function_keys })
            } else {
                old(self).function_keys
            },
            keys_distinct(old(self).function_keys) ==> keys_distinct(final(self).function_keys),
            final(self).speed_milli == old(self).speed_milli,
            final(self).offset == old(self).offset,
    {
        if key != self.function_keys.pause && key != self.function_keys.stop {
            self.function_keys.play = key;
            true
        } else {
            false
        }
    }

    /// Binds the pause hotkey to `key`, unless the play or stop hotkey uses it; returns
    /// whether it did.
    pub fn bind_pause(&mut self, key: u16) -> (r: bool)
        ensures
            r == (key != old(self).function_keys.play && key != old(self).function_keys.stop),
            final(self).function_keys == if r {
                (FunctionKeys { pause: key, ..old(self).function_keys })
            } else {
                old(self).function_keys
            },
            keys_distinct(old(self).function_keys) ==> keys_distinct(final(self).function_keys),
            final(self).speed_milli == old(self).speed_milli,
            final(self).offset == old(self).offset,
    {
        if key != self.function_keys.play && key != self.function_keys.stop {
            self.function_keys.pause = key;
            true
        } else {
            false
        }
    }

    /// Binds the stop hotkey to `key`, unless the play or pause hotkey uses it; returns
    /// whether it did.
    pub fn bind_stop(&mut self, key: u16) -> (r: bool)
        ensures
            r == (key != old(self).function_keys.play && key != old(self).function_keys.pause),
            final(self).function_keys == if r {
                (FunctionKeys { stop: key, ..old(self).function_keys })
            } else {
                old(self).function_keys
            },
            keys_distinct(old(self).function_keys) ==> keys_distinct(final(self).function_keys),
            final(self).speed_milli == old(self).speed_milli,
            final(self).offset == old(self).offset,
    {
        if key != self.function_keys.play && key != self.function_keys.pause {
            self.function_keys.stop = key;
            true
        } else {
            false
        }
    }

    /// Back to normal speed.
    pub fn reset_speed(&mut self)
        ensures
            final(self).speed_milli == SPEED_SCALE,
            final(self).offset == old(self).offset,
    {
        self.speed_milli = SPEED_SCALE;
    }

    /// Transposes one semitone up (an octave is 12), where that fits.
    pub fn offset_up(&mut self)
        ensures
            final(self).offset == if old(self).offset < i32::MAX { old(self).offset + 1 } else { old(self).offset as int },
            final(self).speed_milli == old(self).speed_milli,
    {
        if self.offset < i32::MAX {
            self.offset = self.offset + 1;
        }
    }

    /// Transposes one semitone down, where that fits.
    pub fn offset_down(&mut self)
        ensures
            final(self).offset == if old(self).offset > i32::MIN { old(self).offset - 1 } else { old(self).offset as int },
            final(self).speed_milli == old(self).speed_milli,
    {
        if self.offset > i32::MIN {
            self.offset = self.offset - 1;
        }
    }

    /// Removes the transposition.
    pub fn reset_offset(&mut self)
        ensures
            final(self).offset == 0,
            final(self).speed_milli == old(self).speed_milli,
    {
        self.offset = 0;
    }

    /// A new file was opened: playback stops and the transposition goes back to zero.
    pub fn open_file(&mut self, ts: &mut TransportState)
        ensures
            final(self).offset == 0,
            !final(ts).active && !final(ts).paused && !final(ts).seek_requested,
            final(ts).position == 0,
            final(ts).offset == 0,
            final(ts).running == old(ts).running,
    {
        ts.reset_for_new_track();
        self.offset = 0;
    }

    /// Publishes the panel's speed and transposition to the transport.
    pub fn publish(&self, ts: &mut TransportState)
        ensures
            final(ts).speed_milli == self.speed_milli,
            final(ts).offset == self.offset,
            final(ts).active == old(ts).active,
            final(ts).paused == old(ts).paused,
            final(ts).running == old(ts).running,
            final(ts).position == old(ts).position,
            final(ts).seek_requested == old(ts).seek_requested,
    {
        ts.speed_milli = self.speed_milli;
        ts.offset = self.offset;
    }

    /// The user released the progress slider at `p`, in a track of `len` events.
    pub fn drag_released(&mut self, ts: &mut TransportState, p: usize, len: usize)
        ensures
            final(self).progress == clamp_position(p as int, len as int),
            final(ts).position == clamp_position(p as int, len as int),
            final(ts).seek_requested,
            final(ts).active == old(ts).active,
            final(ts).paused == old(ts).paused,
            final(ts).running == old(ts).running,
    {
        ts.request_seek(p, len);
        self.progress = ts.position;
    }

    /// Handles the play, pause and stop hotkeys for one frame and updates the status line.
    /// Returns whether a new playback session is to be started (play pressed while none runs).
    pub fn function_keys_pressed(&mut self, ts: &mut TransportState, play: bool, pause: bool, stop: bool) -> (r: bool)
        ensures
            r == (play && !old(ts).running),
            final(ts).active == ((old(ts).active || (play && !old(ts).running)) && !stop),
            final(ts).paused == (pause || (old(ts).paused && !play && !stop)),
            final(self).state == state_of(final(ts).active, final(ts).paused),
            final(ts).running == old(ts).running,
            final(ts).position == old(ts).position,
            final(ts).seek_requested == old(ts).seek_requested,
            final(ts).speed_milli == old(ts).speed_milli,
            final(ts).offset == old(ts).offset,
            final(self).offset == old(self).offset,
            final(self).speed_milli == old(self).speed_milli,
    {
        let mut start = false;
        if play {
            ts.paused = false;
            if !ts.running {
                ts.active = true;
                start = true;
            }
        }
        if stop {
            ts.paused = false;
            ts.active = false;
        }
        if pause {
            if !ts.paused {
                ts.paused = true;
            }
        }
        self.state = if !ts.active {
            PlayState::Stopped
        } else if ts.paused {
            PlayState::Paused
        } else {
            PlayState::Playing
        };
        start
    }
}

} // verus!
