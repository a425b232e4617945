use vstd::prelude::*;

verus! {

/// One note of a score: when it starts, which pitch it plays, and how long it is held.
#[derive(Debug, Clone, Copy, PartialEq, Eq, Structural)]
pub struct NoteEvent {
    /// Milliseconds from the start of the track.
    pub start_ms: u64,
    /// Semitone number (60 is middle C).
    pub pitch: i32,
    /// Milliseconds the note is held.
    pub duration_ms: u64,
}

impl NoteEvent {
    /// Scheduled time at which the note's key is released.
    pub open spec fn end_ms(self) -> int {
        self.start_ms + self.duration_ms
    }
}

/// A track is ordered by start time; events with equal start keep their order of emission.
pub open spec fn is_sorted(track: Seq<NoteEvent>) -> bool {
    forall|i: int, j: int| 0 <= i <= j < track.len() ==> track[i].start_ms <= track[j].start_ms
}

/// Whether `track` is sorted by start time.
pub fn is_ordered(track: &Vec<NoteEvent>) -> (r: bool)
    ensures
        r == is_sorted(track@),
{
    let n = track.len();
    if n == 0 {
        return true;
    }
    let mut i: usize = 1;
    while i < n
        invariant
            1 <= i <= n,
            n == track@.len(),
            forall|a: int, b: int| 0 <= a <= b < i ==> track@[a].start_ms <= track@[b].start_ms,
        decreases n - i,
    {
        if track[i - 1].start_ms > track[i].start_ms {
            return false;
        }
        i = i + 1;
    }
    true
}

/// The track's index table: for each event, the elapsed time in milliseconds at its position
/// (its start). The last entry is the track's length as the progress bar measures it, up to
/// the start of its last note.
pub open spec fn index_table_of(track: Seq<NoteEvent>) -> Seq<u64> {
    track.map_values(|e: NoteEvent| e.start_ms)
}

/// Builds the index table that converts a position in the track into elapsed time.
pub fn index_table(track: &Vec<NoteEvent>) -> (r: Vec<u64>)
    ensures
        r@ == index_table_of(track@),
        is_sorted(track@) ==> forall|i: int, j: int|
            0 <= i <= j < r@.len() ==> r@[i] <= r@[j],
{
    let mut r: Vec<u64> = Vec::new();
    let mut i: usize = 0;
    while i < track.len()
        invariant
            i <= track@.len(),
            r@ == index_table_of(track@.subrange(0, i as int)),
        decreases track@.len() - i,
    {
        r.push(track[i].start_ms);
        i = i + 1;
        assert(r@ =~= index_table_of(track@.subrange(0, i as int)));
    }
    assert(track@.subrange(0, track@.len() as int) =~= track@);
    r
}

/// Largest valid position in a track of `len` events (0 for an empty track).
pub open spec fn last_position(len: int) -> int {
    if len == 0 { 0 } else { len - 1 }
}

/// `p` clamped into the valid positions `[0, len - 1]` of a track of `len` events.
pub open spec fn clamp_position(p: int, len: int) -> int {
    if p > last_position(len) { last_position(len) } else { p }
}

/// Clamps a requested position into the valid range of a track of `len` events.
pub fn clamp_to_track(p: usize, len: usize) -> (r: usize)
    ensures
        r == clamp_position(p as int, len as int),
{
    let last: usize = if len == 0 { 0 } else { len - 1 };
    if p > last { last } else { p }
}

/// Whole minutes and remaining seconds of a duration in milliseconds, as shown on the progress bar.
pub fn minutes_seconds(ms: u64) -> (r: (u64, u64))
    ensures
        r.0 == ms / 60000,
        r.1 == (ms / 1000) % 60,
        r.1 < 60,
{
    (ms / 60000, (ms / 1000) % 60)
}

/// The progress bar's label: minutes and seconds at position `pos` and at the end of the
/// track, from its index table; `None` where the table has no entry at `pos`.
pub fn progress_label(table: &Vec<u64>, pos: usize) -> (r: Option<((u64, u64), (u64, u64))>)
    ensures
        r is None <==> pos >= table@.len(),
        r is Some ==> ({
            let ((m, s), (tm, ts)) = r->0;
            let here = table@[pos as int];
            let end = table@.last();
            &&& m == here / 60000 && s == (here / 1000) % 60
            &&& tm == end / 60000 && ts == (end / 1000) % 60
        }),
{
    if pos >= table.len() {
        return None;
    }
    let here = minutes_seconds(table[pos]);
    let end = minutes_seconds(table[table.len() - 1]);
    Some((here, end))
}

} // verus!
