use vstd::prelude::*;

verus! {

/// The target instrument whose keyboard layout decides which pitches can be played.
#[derive(Debug, Clone, Copy, PartialEq, Eq, Structural)]
pub enum Mode {
    /// A lyre of three diatonic octaves (C major, white keys only) on three letter rows.
    GenShin,
    /// A chromatic keyboard of three octaves laid out over the digit row and the letter rows.
    VRChat,
}

/// Lowest playable pitch of both instruments (the C one octave below middle C).
pub const LOWEST_PITCH: i64 = 48;

/// Number of semitones that both instruments span.
pub const PITCH_SPAN: i64 = 36;

/// Position of a pitch class on the C major scale, if it belongs to it.
pub open spec fn degree_of(pc: int) -> Option<int> {
    if pc == 0 {
        Some(0)
    } else if pc == 2 {
        Some(1)
    } else if pc == 4 {
        Some(2)
    } else if pc == 5 {
        Some(3)
    } else if pc == 7 {
        Some(4)
    } else if pc == 9 {
        Some(5)
    } else if pc == 11 {
        Some(6)
    } else {
        None
    }
}

/// Virtual-key code of the lyre's key number `i` (0..21), low row first, from C upward.
pub open spec fn lyre_key(i: int) -> u16 {
    let row: Seq<u16> = seq![
        0x5A, 0x58, 0x43, 0x56, 0x42, 0x4E, 0x4D,
        0x41, 0x53, 0x44, 0x46, 0x47, 0x48, 0x4A,
        0x51, 0x57, 0x45, 0x52, 0x54, 0x59, 0x55,
    ];
    row[i]
}

/// Virtual-key code of the chromatic keyboard's key number `i` (0..36), from the lowest pitch upward.
pub open spec fn chromatic_key(i: int) -> u16 {
    let row: Seq<u16> = seq![
        0x31, 0x32, 0x33, 0x34, 0x35, 0x36, 0x37, 0x38, 0x39, 0x30,
        0x51, 0x57, 0x45, 0x52, 0x54, 0x59, 0x55, 0x49, 0x4F, 0x50,
        0x41, 0x53, 0x44, 0x46, 0x47, 0x48, 0x4A, 0x4B, 0x4C,
        0x5A, 0x58, 0x43, 0x56, 0x42, 0x4E, 0x4D,
    ];
    row[i]
}

/// The key that plays `pitch` on the instrument of `mode`, or `None` where it cannot be played.
pub open spec fn key_of(pitch: int, mode: Mode) -> Option<u16> {
    if pitch < LOWEST_PITCH || pitch >= LOWEST_PITCH + PITCH_SPAN {
        None
    } else {
        let rel = pitch - LOWEST_PITCH;
        match mode {
            Mode::GenShin => match degree_of(rel % 12) {
                Some(d) => Some(lyre_key((rel / 12) * 7 + d)),
                None => None,
            },
            Mode::VRChat => Some(chromatic_key(rel)),
        }
    }
}

/// Whether `pitch` can be played on the instrument of `mode`.
pub open spec fn playable(pitch: int, mode: Mode) -> bool {
    key_of(pitch, mode) is Some
}

fn lyre_key_at(i: usize) -> (r: u16)
    requires
        i < 21,
    ensures
        r == lyre_key(i as int),
{
    let row: [u16; 21] = [
        0x5A, 0x58, 0x43, 0x56, 0x42, 0x4E, 0x4D,
        0x41, 0x53, 0x44, 0x46, 0x47, 0x48, 0x4A,
        0x51, 0x57, 0x45, 0x52, 0x54, 0x59, 0x55,
    ];
    assert(row@ =~= seq![
        0x5Au16, 0x58, 0x43, 0x56, 0x42, 0x4E, 0x4D,
        0x41, 0x53, 0x44, 0x46, 0x47, 0x48, 0x4A,
        0x51, 0x57, 0x45, 0x52, 0x54, 0x59, 0x55,
    ]);
    row[i]
}

fn chromatic_key_at(i: usize) -> (r: u16)
    requires
        i < 36,
    ensures
        r == chromatic_key(i as int),
{
    let row: [u16; 36] = [
        0x31, 0x32, 0x33, 0x34, 0x35, 0x36, 0x37, 0x38, 0x39, 0x30,
        0x51, 0x57, 0x45, 0x52, 0x54, 0x59, 0x55, 0x49, 0x4F, 0x50,
        0x41, 0x53, 0x44, 0x46, 0x47, 0x48, 0x4A, 0x4B, 0x4C,
        0x5A, 0x58, 0x43, 0x56, 0x42, 0x4E, 0x4D,
    ];
    assert(row@ =~= seq![
        0x31u16, 0x32, 0x33, 0x34, 0x35, 0x36, 0x37, 0x38, 0x39, 0x30,
        0x51, 0x57, 0x45, 0x52, 0x54, 0x59, 0x55, 0x49, 0x4F, 0x50,
        0x41, 0x53, 0x44, 0x46, 0x47, 0x48, 0x4A, 0x4B, 0x4C,
        0x5A, 0x58, 0x43, 0x56, 0x42, 0x4E, 0x4D,
    ]);
    row[i]
}

fn degree_at(pc: i64) -> (r: Option<i64>)
    ensures
        r == (match degree_of(pc as int) {
            Some(d) => Some(d as i64),
            None => None::<i64>,
        }),
{
    if pc == 0 {
        Some(0)
    } else if pc == 2 {
        Some(1)
    } else if pc == 4 {
        Some(2)
    } else if pc == 5 {
        Some(3)
    } else if pc == 7 {
        Some(4)
    } else if pc == 9 {
        Some(5)
    } else if pc == 11 {
        Some(6)
    } else {
        None
    }
}

/// Looks up the key that plays `pitch` on the instrument of `mode`.
pub fn lookup(pitch: i64, mode: Mode) -> (r: Option<u16>)
    ensures
        r == key_of(pitch as int, mode),
{
    if pitch < LOWEST_PITCH || pitch >= LOWEST_PITCH + PITCH_SPAN {
        return None;
    }
    let rel: i64 = pitch - LOWEST_PITCH;
    match mode {
        Mode::GenShin => match degree_at(rel % 12) {
            Some(d) => {
                let i: i64 = (rel / 12) * 7 + d;
                Some(lyre_key_at(i as usize))
            },
            None => None,
        },
        Mode::VRChat => Some(chromatic_key_at(rel as usize)),
    }
}

} // verus!
