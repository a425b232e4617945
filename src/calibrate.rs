use vstd::prelude::*;

use vstd::arithmetic::div_mod::{lemma_div_by_multiple, lemma_div_is_ordered};

use crate::keymap::{lookup, playable, Mode};
use crate::track::NoteEvent;

verus! {

/// Scale of a hit rate given in fixed point: this value stands for 1.0 (100.00%).
pub const RATE_SCALE: u64 = 10000;

/// The share of a track's notes that land on a playable key, as a count over a total.
#[derive(Debug, Clone, Copy, PartialEq, Eq, Structural)]
pub struct HitRate {
    /// Notes whose transposed pitch maps to a key.
    pub hits: u64,
    /// Notes in the track.
    pub total: u64,
}

/// Whether the note `e`, transposed by `offset`, can be played in `mode`.
pub open spec fn note_hits(e: NoteEvent, offset: int, mode: Mode) -> bool {
    playable(e.pitch + offset, mode)
}

/// The notes of `track` that can be played after transposing by `offset`.
pub open spec fn hit_notes(track: Seq<NoteEvent>, offset: int, mode: Mode) -> Seq<NoteEvent> {
    track.filter(|e: NoteEvent| note_hits(e, offset, mode))
}

/// The hit rate in units of `1 / RATE_SCALE`; an empty track counts as fully playable.
pub open spec fn scaled_rate(hits: int, total: int) -> int {
    if total == 0 { RATE_SCALE as int } else { hits * RATE_SCALE / total }
}

impl HitRate {
    /// The rate in units of `1 / RATE_SCALE` (so 10000 is 100.00%); 10000 for an empty track.
    pub fn scaled(&self) -> (r: u64)
        requires
            self.hits <= self.total,
        ensures
            r as int == scaled_rate(self.hits as int, self.total as int),
            r <= RATE_SCALE,
    {
        if self.total == 0 {
            RATE_SCALE
        } else {
            let h: u128 = self.hits as u128;
            let t: u128 = self.total as u128;
            proof {
                let hi = h as int;
                let ti = t as int;
                assert(hi * 10000 <= ti * 10000) by (nonlinear_arith)
                    requires hi <= ti;
                lemma_div_is_ordered(hi * 10000, ti * 10000, ti);
                lemma_div_by_multiple(10000, ti);
                assert(ti * 10000 == 10000 * ti) by (nonlinear_arith);
            }
            (h * 10000 / t) as u64
        }
    }
}

proof fn lemma_hit_notes_push(track: Seq<NoteEvent>, offset: int, mode: Mode, e: NoteEvent)
    ensures
        hit_notes(track.push(e), offset, mode) == if note_hits(e, offset, mode) {
            hit_notes(track, offset, mode).push(e)
        } else {
            hit_notes(track, offset, mode)
        },
{
    reveal(Seq::filter);
    let pred = |x: NoteEvent| note_hits(x, offset, mode);
    let s = track.push(e);
    assert(s.drop_last() =~= track);
    assert(s.last() == e);
    assert(s.filter(pred) == if pred(s.last()) {
        s.drop_last().filter(pred).push(s.last())
    } else {
        s.drop_last().filter(pred)
    });
}

/// Counts the notes of `track` that are playable in `mode` after transposing by `offset`.
pub fn detect(track: &Vec<NoteEvent>, offset: i32, mode: Mode) -> (r: HitRate)
    ensures
        r.hits == hit_notes(track@, offset as int, mode).len(),
        r.total == track@.len(),
        r.hits <= r.total,
{
    let n = track.len();
    let mut hits: u64 = 0;
    let mut i: usize = 0;
    while i < n
        invariant
            i <= n,
            n == track@.len(),
            hits == hit_notes(track@.subrange(0, i as int), offset as int, mode).len(),
            hits <= i,
        decreases n - i,
    {
        let e = track[i];
        proof {
            let s = track@.subrange(0, i as int + 1);
            assert(s =~= track@.subrange(0, i as int).push(e));
            lemma_hit_notes_push(track@.subrange(0, i as int), offset as int, mode, e);
        }
        if lookup(e.pitch as i64 + offset as i64, mode).is_some() {
            hits = hits + 1;
        }
        i = i + 1;
    }
    assert(track@.subrange(0, n as int) =~= track@);
    HitRate { hits, total: n as u64 }
}

/// An empty track has the full hit rate, whatever the offset and mode.
pub proof fn lemma_empty_track_full_rate(offset: int, mode: Mode)
    ensures
        hit_notes(Seq::<NoteEvent>::empty(), offset, mode).len() == 0,
        scaled_rate(0, 0) == RATE_SCALE,
{
}

/// The hit count is the number of notes whose transposed pitch has a key, and never exceeds
/// the number of notes; a note whose transposed pitch has a key always adds to the count.
pub proof fn lemma_hit_count_membership(track: Seq<NoteEvent>, offset: int, mode: Mode, e: NoteEvent)
    ensures
        hit_notes(track, offset, mode).len() <= track.len(),
        hit_notes(track.push(e), offset, mode).len() == hit_notes(track, offset, mode).len()
            + if playable(e.pitch + offset, mode) { 1int } else { 0int },
{
    track.lemma_filter_len(|x: NoteEvent| note_hits(x, offset, mode));
    lemma_hit_notes_push(track, offset, mode, e);
}

} // verus!
