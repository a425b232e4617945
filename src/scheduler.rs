use vstd::prelude::*;

use crate::clock::{effective_speed, Clock};
use crate::keymap::{key_of, lookup, Mode};
use crate::track::{clamp_position, clamp_to_track, NoteEvent};
use crate::transport::TransportState;

verus! {

/// A synthetic key event handed to the key injector.
#[derive(Debug, Clone, Copy, PartialEq, Eq, Structural)]
pub enum KeyAction {
    Down(u16),
    Up(u16),
}

/// A key the scheduler has pressed and not yet released, with its release time in track time.
#[derive(Debug, Clone, Copy, PartialEq, Eq, Structural)]
pub struct HeldKey {
    pub key: u16,
    pub release_ms: u64,
}

/// Plays `acts` from the set `down` of pressed keys: `None` where a key-up finds its key
/// released or a key-down finds its key already pressed, else the keys pressed at the end.
pub open spec fn replay(down: Set<u16>, acts: Seq<KeyAction>) -> Option<Set<u16>>
    decreases acts.len(),
{
    if acts.len() == 0 {
        Some(down)
    } else {
        match replay(down, acts.drop_last()) {
            None => None,
            Some(d) => match acts.last() {
                KeyAction::Down(k) => if d.contains(k) { None } else { Some(d.insert(k)) },
                KeyAction::Up(k) => if d.contains(k) { Some(d.remove(k)) } else { None },
            },
        }
    }
}

/// The keys pressed by `acts`, in order.
pub open spec fn downs(acts: Seq<KeyAction>) -> Seq<u16>
    decreases acts.len(),
{
    if acts.len() == 0 {
        Seq::empty()
    } else {
        match acts.last() {
            KeyAction::Down(k) => downs(acts.drop_last()).push(k),
            KeyAction::Up(_) => downs(acts.drop_last()),
        }
    }
}

/// The keys that firing `events` presses: one per playable note, in track order.
pub open spec fn fired_keys(events: Seq<NoteEvent>, offset: int, mode: Mode) -> Seq<u16>
    decreases events.len(),
{
    if events.len() == 0 {
        Seq::empty()
    } else {
        match key_of(events.last().pitch + offset, mode) {
            Some(k) => fired_keys(events.drop_last(), offset, mode).push(k),
            None => fired_keys(events.drop_last(), offset, mode),
        }
    }
}

/// Track time at which the key of note `e` is released: its end, capped at the largest `u64`.
pub open spec fn note_release(e: NoteEvent) -> u64 {
    if e.start_ms + e.duration_ms > u64::MAX { u64::MAX } else { (e.start_ms + e.duration_ms) as u64 }
}

/// The release time set by the last note of `events` that presses `k`, if any does.
pub open spec fn last_release(events: Seq<NoteEvent>, offset: int, mode: Mode, k: u16) -> Option<u64>
    decreases events.len(),
{
    if events.len() == 0 {
        None
    } else if key_of(events.last().pitch + offset, mode) == Some(k) {
        Some(note_release(events.last()))
    } else {
        last_release(events.drop_last(), offset, mode, k)
    }
}

/// The keys in `held`.
pub open spec fn down_set(held: Seq<HeldKey>) -> Set<u16> {
    Set::new(|k: u16| exists|i: int| 0 <= i < held.len() && held[i].key == k)
}

/// No key appears twice in `held`.
pub open spec fn distinct_keys(held: Seq<HeldKey>) -> bool {
    forall|i: int, j: int| 0 <= i < j < held.len() ==> held[i].key != held[j].key
}

proof fn lemma_replay_push(down: Set<u16>, acts: Seq<KeyAction>, a: KeyAction)
    ensures
        replay(down, acts.push(a)) == match replay(down, acts) {
            None => None,
            Some(d) => match a {
                KeyAction::Down(k) => if d.contains(k) { None } else { Some(d.insert(k)) },
                KeyAction::Up(k) => if d.contains(k) { Some(d.remove(k)) } else { None },
            },
        },
        downs(acts.push(a)) == match a {
            KeyAction::Down(k) => downs(acts).push(k),
            KeyAction::Up(_) => downs(acts),
        },
{
    assert(acts.push(a).drop_last() =~= acts);
}

proof fn lemma_downs_concat(a: Seq<KeyAction>, b: Seq<KeyAction>)
    ensures
        downs(a + b) == downs(a) + downs(b),
    decreases b.len(),
{
    if b.len() == 0 {
        assert(a + b =~= a);
        assert(downs(a) + downs(b) =~= downs(a));
    } else {
        lemma_downs_concat(a, b.drop_last());
        assert((a + b).drop_last() =~= a + b.drop_last());
        assert((a + b).last() == b.last());
        match b.last() {
            KeyAction::Down(k) => {
                assert(downs(a) + downs(b.drop_last()).push(k) =~= (downs(a) + downs(b.drop_last())).push(k));
            },
            KeyAction::Up(_) => {},
        }
    }
}

proof fn lemma_fired_push(events: Seq<NoteEvent>, e: NoteEvent, offset: int, mode: Mode)
    ensures
        fired_keys(events.push(e), offset, mode) == match key_of(e.pitch + offset, mode) {
            Some(k) => fired_keys(events, offset, mode).push(k),
            None => fired_keys(events, offset, mode),
        },
{
    assert(events.push(e).drop_last() =~= events);
}

proof fn lemma_last_release_push(events: Seq<NoteEvent>, e: NoteEvent, offset: int, mode: Mode, k: u16)
    ensures
        last_release(events.push(e), offset, mode, k) == if key_of(e.pitch + offset, mode) == Some(k) {
            Some(note_release(e))
        } else {
            last_release(events, offset, mode, k)
        },
{
    assert(events.push(e).drop_last() =~= events);
}

proof fn lemma_held_remove(c: Seq<HeldKey>, m: int)
    requires
        distinct_keys(c),
        0 <= m < c.len(),
    ensures
        distinct_keys(c.remove(m)),
        down_set(c).contains(c[m].key),
        down_set(c.remove(m)) == down_set(c).remove(c[m].key),
{
    let r = c.remove(m);
    assert(c[m].key == c[m].key);
    assert(down_set(c).contains(c[m].key));
    assert forall|i: int, j: int| 0 <= i < j < r.len() implies r[i].key != r[j].key by {
        let ii = if i < m { i } else { i + 1 };
        let jj = if j < m { j } else { j + 1 };
        assert(r[i] == c[ii] && r[j] == c[jj]);
    }
    assert forall|k: u16| down_set(r).contains(k) <==> down_set(c).remove(c[m].key).contains(k) by {
        if down_set(r).contains(k) {
            let i = choose|i: int| 0 <= i < r.len() && r[i].key == k;
            let ii = if i < m { i } else { i + 1 };
            assert(r[i] == c[ii]);
        }
        if down_set(c).remove(c[m].key).contains(k) {
            let i = choose|i: int| 0 <= i < c.len() && c[i].key == k;
            assert(i != m);
            let ri = if i < m { i } else { i - 1 };
            assert(r[ri] == c[i]);
        }
    }
    assert(down_set(r) =~= down_set(c).remove(c[m].key));
}

proof fn lemma_held_push(c: Seq<HeldKey>, h: HeldKey)
    requires
        distinct_keys(c),
        !down_set(c).contains(h.key),
    ensures
        distinct_keys(c.push(h)),
        down_set(c.push(h)) == down_set(c).insert(h.key),
{
    let r = c.push(h);
    assert forall|i: int, j: int| 0 <= i < j < r.len() implies r[i].key != r[j].key by {
        if j == c.len() {
            assert(r[i] == c[i]);
        } else {
            assert(r[i] == c[i] && r[j] == c[j]);
        }
    }
    assert forall|k: u16| down_set(r).contains(k) <==> down_set(c).insert(h.key).contains(k) by {
        if down_set(r).contains(k) {
            let i = choose|i: int| 0 <= i < r.len() && r[i].key == k;
            if i < c.len() {
                assert(r[i] == c[i]);
            }
        }
        if down_set(c).contains(k) {
            let i = choose|i: int| 0 <= i < c.len() && c[i].key == k;
            assert(r[i] == c[i]);
        }
        if k == h.key {
            assert(r[c.len() as int] == h);
        }
    }
    assert(down_set(r) =~= down_set(c).insert(h.key));
}

proof fn lemma_held_update(c: Seq<HeldKey>, m: int, h: HeldKey)
    requires
        distinct_keys(c),
        0 <= m < c.len(),
        c[m].key == h.key,
    ensures
        distinct_keys(c.update(m, h)),
        down_set(c.update(m, h)) == down_set(c),
        down_set(c).contains(h.key),
{
    let r = c.update(m, h);
    assert(r[m].key == c[m].key);
    assert forall|i: int, j: int| 0 <= i < j < r.len() implies r[i].key != r[j].key by {
        assert(r[i].key == c[i].key && r[j].key == c[j].key);
    }
    assert forall|k: u16| down_set(r).contains(k) <==> down_set(c).contains(k) by {
        if down_set(r).contains(k) {
            let i = choose|i: int| 0 <= i < r.len() && r[i].key == k;
            assert(r[i].key == c[i].key);
        }
        if down_set(c).contains(k) {
            let i = choose|i: int| 0 <= i < c.len() && c[i].key == k;
            assert(r[i].key == c[i].key);
        }
    }
    assert(down_set(r) =~= down_set(c));
}

/// Key actions that are valid from one set of pressed keys chain with those valid from the
/// keys they leave pressed: a run of scheduler calls, each of which only releases keys it
/// holds and only presses keys it does not hold, as a whole releases only keys pressed
/// before and leaves pressed exactly the keys of its last call's state.
pub proof fn lemma_replay_concat(s0: Set<u16>, a: Seq<KeyAction>, b: Seq<KeyAction>)
    ensures
        replay(s0, a + b) == match replay(s0, a) {
            None => None,
            Some(m) => replay(m, b),
        },
    decreases b.len(),
{
    if b.len() == 0 {
        assert(a + b =~= a);
    } else {
        let last = b.last();
        lemma_replay_concat(s0, a, b.drop_last());
        assert((a + b).drop_last() =~= a + b.drop_last());
        assert((a + b).last() == last);
    }
}

/// Over a whole session, a key goes up only while it is down: if each call's actions replay
/// from the keys held before it to the keys held after it (as every scheduler call states),
/// all the actions of the session, in order, replay from the keys held at its start to those
/// held at its end; and every prefix of them replays too, so no prefix holds a key-up for a
/// key that is not down at that point. A session that starts with no key down and ends with
/// none (a stop, or a played-out track) leaves no key down.
pub proof fn lemma_session_key_ups_follow_downs(calls: Seq<Seq<KeyAction>>, held: Seq<Set<u16>>)
    requires
        held.len() == calls.len() + 1,
        forall|i: int| 0 <= i < calls.len() ==> replay(#[trigger] held[i], calls[i]) == Some(held[i + 1]),
    ensures
        replay(held[0], calls.flatten()) == Some(held.last()),
        forall|n: int| 0 <= n <= calls.flatten().len() ==> replay(held[0], #[trigger] calls.flatten().take(n)) is Some,
    decreases calls.len(),
{
    if calls.len() == 0 {
        assert(calls.flatten() =~= Seq::<KeyAction>::empty());
    } else {
        let rest = calls.drop_last();
        let hrest = held.drop_last();
        assert forall|i: int| 0 <= i < rest.len() implies replay(#[trigger] hrest[i], rest[i]) == Some(hrest[i + 1]) by {
            assert(hrest[i] == held[i] && rest[i] == calls[i] && hrest[i + 1] == held[i + 1]);
        }
        lemma_session_key_ups_follow_downs(rest, hrest);
        rest.lemma_flatten_push(calls.last());
        assert(rest.push(calls.last()) =~= calls);
        lemma_replay_concat(held[0], rest.flatten(), calls.last());
        let k = calls.len() - 1;
        assert(replay(held[k], calls[k]) == Some(held[k + 1]));
    }
    assert forall|n: int| 0 <= n <= calls.flatten().len() implies replay(held[0], #[trigger] calls.flatten().take(n)) is Some by {
        let f = calls.flatten();
        lemma_replay_concat(held[0], f.take(n), f.skip(n));
        assert(f.take(n) + f.skip(n) =~= f);
    }
}

/// The playback scheduler: walks a track and turns its notes into timed key actions.
///
/// The caller drives it: it calls `tick` on each wake with the wall-clock time, hands the
/// returned actions to the key injector, and passes pause, resume, seek, speed and stop
/// requests to the methods of the same names.
#[derive(Debug)]
pub struct Scheduler {
    /// The events to play, ordered by start time.
    pub track: Vec<NoteEvent>,
    /// Index of the next event to fire.
    pub cursor: usize,
    /// The anchor pair and speed that turn wall-clock time into track time.
    pub clock: Clock,
    /// The keys pressed and not yet released.
    pub held: Vec<HeldKey>,
    /// Whether emission is suspended.
    pub paused: bool,
    /// Track time at which emission was suspended.
    pub paused_at: u64,
    /// Transposition in semitones.
    pub offset: i32,
    /// The instrument whose key map is used.
    pub mode: Mode,
}

impl Scheduler {
    pub open spec fn wf(&self) -> bool {
        &&& self.cursor <= self.track@.len()
        &&& self.clock.wf()
        &&& distinct_keys(self.held@)
        &&& self.paused ==> self.held@.len() == 0
    }

    /// The keys this scheduler holds pressed.
    pub open spec fn pressed(&self) -> Set<u16> {
        down_set(self.held@)
    }

    /// Track time of the event at `pos`, or 0 where there is none.
    pub open spec fn start_of(track: Seq<NoteEvent>, pos: int) -> int {
        if 0 <= pos < track.len() { track[pos].start_ms as int } else { 0 }
    }

    fn start_at(&self, pos: usize) -> (r: u64)
        ensures
            r == Self::start_of(self.track@, pos as int),
    {
        if pos < self.track.len() { self.track[pos].start_ms } else { 0 }
    }

    /// Releases every held key.
    fn release_all(&mut self, out: &mut Vec<KeyAction>, Ghost(s0): Ghost<Set<u16>>)
        requires
            old(self).wf(),
            replay(s0, old(out)@) == Some(old(self).pressed()),
        ensures
            final(self).wf(),
            replay(s0, final(out)@) == Some(final(self).pressed()),
            downs(final(out)@) == downs(old(out)@),
            final(self).held@.len() == 0,
            final(self).pressed() == Set::<u16>::empty(),
            final(self).track == old(self).track,
            final(self).cursor == old(self).cursor,
            final(self).clock == old(self).clock,
            final(self).paused == old(self).paused,
            final(self).paused_at == old(self).paused_at,
            final(self).offset == old(self).offset,
            final(self).mode == old(self).mode,
    {
        self.release_due(u64::MAX, out, Ghost(s0));
        proof {
            if self.held@.len() > 0 {
                assert(self.held@[0].release_ms > u64::MAX);
            }
            assert(self.pressed() =~= Set::<u16>::empty());
        }
    }

    /// Releases every held key due at or before track time `t`.
    fn release_due(&mut self, t: u64, out: &mut Vec<KeyAction>, Ghost(s0): Ghost<Set<u16>>)
        requires
            old(self).wf(),
            replay(s0, old(out)@) == Some(old(self).pressed()),
        ensures
            final(self).wf(),
            replay(s0, final(out)@) == Some(final(self).pressed()),
            downs(final(out)@) == downs(old(out)@),
            forall|i: int| 0 <= i < final(self).held@.len() ==> final(self).held@[i].release_ms > t,
            forall|i: int| 0 <= i < old(self).held@.len() && old(self).held@[i].release_ms > t
                ==> final(self).held@.contains(old(self).held@[i]),
            forall|j: int| 0 <= j < final(self).held@.len() ==> old(self).held@.contains(#[trigger] final(self).held@[j]),
            final(self).track == old(self).track,
            final(self).cursor == old(self).cursor,
            final(self).clock == old(self).clock,
            final(self).paused == old(self).paused,
            final(self).paused_at == old(self).paused_at,
            final(self).offset == old(self).offset,
            final(self).mode == old(self).mode,
    {
        let n = self.held.len();
        let mut kept: Vec<HeldKey> = Vec::new();
        let mut i: usize = 0;
        assert(kept@ + self.held@.subrange(0, n as int) =~= self.held@);
        while i < n
            invariant
                i <= n,
                n == self.held@.len(),
                self.wf(),
                self.held@ == old(self).held@,
                self.track == old(self).track,
                self.cursor == old(self).cursor,
                self.clock == old(self).clock,
                self.paused == old(self).paused,
                self.paused_at == old(self).paused_at,
                self.offset == old(self).offset,
                self.mode == old(self).mode,
                distinct_keys(kept@ + self.held@.subrange(i as int, n as int)),
                replay(s0, out@) == Some(down_set(kept@ + self.held@.subrange(i as int, n as int))),
                downs(out@) == downs(old(out)@),
                forall|j: int| 0 <= j < kept@.len() ==> kept@[j].release_ms > t,
                kept@.len() <= i,
                forall|j: int| 0 <= j < i && self.held@[j].release_ms > t ==> kept@.contains(self.held@[j]),
                forall|j: int| 0 <= j < kept@.len() ==> self.held@.contains(#[trigger] kept@[j]),
            decreases n - i,
        {
            let h = self.held[i];
            let ghost c = kept@ + self.held@.subrange(i as int, n as int);
            let ghost c2 = kept@ + self.held@.subrange(i as int + 1, n as int);
            assert(c[kept@.len() as int] == h);
            if h.release_ms <= t {
                proof {
                    assert(c.remove(kept@.len() as int) =~= c2);
                    lemma_held_remove(c, kept@.len() as int);
                    lemma_replay_push(s0, out@, KeyAction::Up(h.key));
                }
                out.push(KeyAction::Up(h.key));
            } else {
                let ghost k0 = kept@;
                kept.push(h);
                assert(kept@ + self.held@.subrange(i as int + 1, n as int) =~= c);
                assert forall|j: int| 0 <= j <= i && self.held@[j].release_ms > t implies kept@.contains(self.held@[j]) by {
                    if j < i {
                        let m = choose|m: int| 0 <= m < k0.len() && k0[m] == self.held@[j];
                        assert(kept@[m] == k0[m]);
                    } else {
                        assert(kept@[k0.len() as int] == h);
                    }
                }
                assert forall|j: int| 0 <= j < kept@.len() implies self.held@.contains(#[trigger] kept@[j]) by {
                    if j < k0.len() {
                        assert(kept@[j] == k0[j]);
                    } else {
                        assert(self.held@[i as int] == h);
                    }
                }
            }
            i = i + 1;
        }
        assert(kept@ + self.held@.subrange(n as int, n as int) =~= kept@);
        self.held = kept;
    }

    /// Presses `key` until track time `release_ms`; a key already held is released and
    /// pressed again, and held until the new time.
    fn press(&mut self, key: u16, release_ms: u64, out: &mut Vec<KeyAction>, Ghost(s0): Ghost<Set<u16>>)
        requires
            old(self).wf(),
            !old(self).paused,
            replay(s0, old(out)@) == Some(old(self).pressed()),
        ensures
            final(self).wf(),
            replay(s0, final(out)@) == Some(final(self).pressed()),
            downs(final(out)@) == downs(old(out)@).push(key),
            forall|i: int| 0 <= i < old(self).held@.len() && old(self).held@[i].key != key
                ==> final(self).held@.contains(old(self).held@[i]),
            final(self).held@.contains(HeldKey { key, release_ms }),
            forall|j: int| 0 <= j < final(self).held@.len() ==> #[trigger] final(self).held@[j] == (HeldKey { key, release_ms })
                || (old(self).held@.contains(final(self).held@[j]) && final(self).held@[j].key != key),
            final(self).track == old(self).track,
            final(self).cursor == old(self).cursor,
            final(self).clock == old(self).clock,
            final(self).paused == old(self).paused,
            final(self).paused_at == old(self).paused_at,
            final(self).offset == old(self).offset,
            final(self).mode == old(self).mode,
    {
        let n = self.held.len();
        let h = HeldKey { key, release_ms };
        let mut i: usize = 0;
        while i < n
            invariant
                i <= n,
                n == self.held@.len(),
                forall|j: int| 0 <= j < i ==> self.held@[j].key != key,
                h.key == key,
                h.release_ms == release_ms,
                replay(s0, out@) == Some(self.pressed()),
                self.wf(),
                self.held@ == old(self).held@,
                self.track == old(self).track,
                self.cursor == old(self).cursor,
                self.clock == old(self).clock,
                self.paused == old(self).paused,
                self.paused_at == old(self).paused_at,
                self.offset == old(self).offset,
                self.mode == old(self).mode,
                out@ == old(out)@,
            decreases n - i,
        {
            let cur = self.held[i];
            if cur.key == key {
                proof {
                    assert(self.held@[i as int] == cur);
                    lemma_held_update(self.held@, i as int, h);
                    lemma_replay_push(s0, out@, KeyAction::Up(key));
                    let p = self.pressed();
                    let o1 = out@.push(KeyAction::Up(key));
                    lemma_replay_push(s0, o1, KeyAction::Down(key));
                    assert(p.contains(key));
                    assert(replay(s0, o1) == Some(p.remove(key)));
                    assert(!p.remove(key).contains(key));
                    assert(replay(s0, o1.push(KeyAction::Down(key))) == Some(p.remove(key).insert(key)));
                    assert(p.remove(key).insert(key) =~= p);
                }
                out.push(KeyAction::Up(key));
                out.push(KeyAction::Down(key));
                let ghost before = self.held@;
                self.held.set(i, h);
                assert forall|j: int| 0 <= j < before.len() && before[j].key != key implies self.held@.contains(before[j]) by {
                    assert(self.held@[j] == before[j]);
                }
                assert(self.held@[i as int] == h);
                assert forall|j: int| 0 <= j < self.held@.len() implies #[trigger] self.held@[j] == (HeldKey { key, release_ms })
                    || (before.contains(self.held@[j]) && self.held@[j].key != key) by {
                    if j != i {
                        assert(self.held@[j] == before[j]);
                    }
                }
                return;
            }
            i = i + 1;
        }
        proof {
            assert(!self.pressed().contains(key));
            lemma_held_push(self.held@, h);
            lemma_replay_push(s0, out@, KeyAction::Down(key));
        }
        out.push(KeyAction::Down(key));
        let ghost before = self.held@;
        self.held.push(h);
        assert forall|j: int| 0 <= j < before.len() implies self.held@.contains(before[j]) by {
            assert(self.held@[j] == before[j]);
        }
        assert(self.held@[before.len() as int] == h);
        assert forall|j: int| 0 <= j < self.held@.len() implies #[trigger] self.held@[j] == (HeldKey { key, release_ms })
            || (before.contains(self.held@[j]) && self.held@[j].key != key) by {
            if j < before.len() {
                assert(self.held@[j] == before[j]);
            }
        }
    }

    /// Starts a session on `track` at `position` (clamped into the track), with wall-clock
    /// time `now` pinned to that event's start, at `speed_milli` thousandths of normal speed.
    pub fn new(track: Vec<NoteEvent>, position: usize, now: u64, speed_milli: u64, offset: i32, mode: Mode) -> (r: Scheduler)
        ensures
            r.wf(),
            r.track@ == track@,
            r.cursor == clamp_position(position as int, track@.len() as int),
            r.clock.anchor_wall == now,
            r.clock.anchor_sched == Self::start_of(track@, r.cursor as int),
            r.clock.speed_milli == effective_speed(speed_milli as int),
            r.held@.len() == 0,
            r.pressed() == Set::<u16>::empty(),
            !r.paused,
            r.offset == offset,
            r.mode == mode,
    {
        let cursor = clamp_to_track(position, track.len());
        let start = if cursor < track.len() { track[cursor].start_ms } else { 0 };
        let r = Scheduler {
            track,
            cursor,
            clock: Clock::pinned(now, start, speed_milli),
            held: Vec::new(),
            paused: false,
            paused_at: start,
            offset,
            mode,
        };
        assert(r.pressed() =~= Set::<u16>::empty());
        r
    }

    /// Emits what is due at wall-clock time `now`: fires, in track order, every event whose
    /// start has come, pressing the key of each playable one and holding it until the note's
    /// end (start plus duration), and releases every held key whose note has ended. Nothing
    /// happens while paused.
    pub fn tick(&mut self, now: u64) -> (r: Vec<KeyAction>)
        requires
            old(self).wf(),
        ensures
            final(self).wf(),
            replay(old(self).pressed(), r@) == Some(final(self).pressed()),
            final(self).track == old(self).track,
            final(self).clock == old(self).clock,
            final(self).paused == old(self).paused,
            final(self).paused_at == old(self).paused_at,
            final(self).offset == old(self).offset,
            final(self).mode == old(self).mode,
            old(self).paused ==> r@.len() == 0 && final(self).cursor == old(self).cursor
                && final(self).held@ == old(self).held@,
            !old(self).paused ==> ({
                let t = old(self).clock.sched_at(now as int);
                let tr = old(self).track@;
                &&& old(self).cursor <= final(self).cursor <= tr.len()
                &&& downs(r@) == fired_keys(tr.subrange(old(self).cursor as int, final(self).cursor as int),
                    old(self).offset as int, old(self).mode)
                &&& forall|j: int| old(self).cursor <= j < final(self).cursor ==> tr[j].start_ms <= t
                &&& final(self).cursor == tr.len() || tr[final(self).cursor as int].start_ms > t
                &&& forall|i: int| 0 <= i < final(self).held@.len() ==> final(self).held@[i].release_ms > t
                &&& forall|i: int| 0 <= i < old(self).held@.len() && old(self).held@[i].release_ms > t
                    && !fired_keys(tr.subrange(old(self).cursor as int, final(self).cursor as int),
                        old(self).offset as int, old(self).mode).contains(old(self).held@[i].key)
                    ==> final(self).pressed().contains(old(self).held@[i].key)
                &&& forall|k: u16, rel: u64|
                    last_release(tr.subrange(old(self).cursor as int, final(self).cursor as int), old(self).offset as int,
                        old(self).mode, k) == Some(rel) && rel > t
                    ==> final(self).held@.contains(HeldKey { key: k, release_ms: rel })
                &&& forall|j: int| 0 <= j < final(self).held@.len() ==> ({
                    let h = #[trigger] final(self).held@[j];
                    let lr = last_release(tr.subrange(old(self).cursor as int, final(self).cursor as int),
                        old(self).offset as int, old(self).mode, h.key);
                    lr == Some(h.release_ms) || (lr is None && old(self).held@.contains(h))
                })
            }),
    {
        let mut out: Vec<KeyAction> = Vec::new();
        if self.paused {
            return out;
        }
        let t = self.clock.sched_time(now);
        let ghost s0 = self.pressed();
        let ghost c0 = self.cursor as int;
        let ghost h0 = self.held@;
        assert(fired_keys(self.track@.subrange(c0, c0), self.offset as int, self.mode) =~= Seq::<u16>::empty());
        self.release_due(t, &mut out, Ghost(s0));
        assert(self.track@.subrange(c0, c0) =~= Seq::<NoteEvent>::empty());
        let n = self.track.len();
        while self.cursor < n && self.track[self.cursor].start_ms <= t
            invariant
                self.wf(),
                n == self.track@.len(),
                c0 <= self.cursor <= n,
                !self.paused,
                self.track == old(self).track,
                self.clock == old(self).clock,
                self.paused == old(self).paused,
                self.paused_at == old(self).paused_at,
                self.offset == old(self).offset,
                self.mode == old(self).mode,
                c0 == old(self).cursor,
                t == old(self).clock.sched_at(now as int),
                replay(s0, out@) == Some(self.pressed()),
                downs(out@) == fired_keys(self.track@.subrange(c0, self.cursor as int), self.offset as int, self.mode),
                forall|j: int| c0 <= j < self.cursor ==> self.track@[j].start_ms <= t,
                forall|i: int| 0 <= i < h0.len() && h0[i].release_ms > t
                    && !fired_keys(self.track@.subrange(c0, self.cursor as int), self.offset as int, self.mode).contains(h0[i].key)
                    ==> self.held@.contains(h0[i]),
                forall|k: u16, rel: u64|
                    last_release(self.track@.subrange(c0, self.cursor as int), self.offset as int, self.mode, k) == Some(rel)
                    ==> self.held@.contains(HeldKey { key: k, release_ms: rel }),
                forall|j: int| 0 <= j < self.held@.len() ==> ({
                    let h = #[trigger] self.held@[j];
                    let lr = last_release(self.track@.subrange(c0, self.cursor as int), self.offset as int, self.mode, h.key);
                    lr == Some(h.release_ms) || (lr is None && h0.contains(h))
                }),
            decreases n - self.cursor,
        {
            let e = self.track[self.cursor];
            proof {
                let before = self.track@.subrange(c0, self.cursor as int);
                assert(self.track@.subrange(c0, self.cursor as int + 1) =~= before.push(e));
                lemma_fired_push(before, e, self.offset as int, self.mode);
            }
            let pitch: i64 = e.pitch as i64 + self.offset as i64;
            match lookup(pitch, self.mode) {
                Some(k) => {
                    proof {
                        let before = self.track@.subrange(c0, self.cursor as int);
                        let fk = fired_keys(before, self.offset as int, self.mode);
                        assert(fired_keys(before.push(e), self.offset as int, self.mode) == fk.push(k));
                        assert forall|i: int| 0 <= i < h0.len() && h0[i].release_ms > t && !fk.push(k).contains(h0[i].key)
                            implies h0[i].key != k && !fk.contains(h0[i].key) by {
                            if fk.contains(h0[i].key) {
                                let w = choose|w: int| 0 <= w < fk.len() && fk[w] == h0[i].key;
                                assert(fk.push(k)[w] == fk[w]);
                            }
                            if h0[i].key == k {
                                assert(fk.push(k)[fk.len() as int] == k);
                            }
                        }
                    }
                    let end: u64 = if e.start_ms > u64::MAX - e.duration_ms {
                        u64::MAX
                    } else {
                        e.start_ms + e.duration_ms
                    };
                    let ghost hb = self.held@;
                    self.press(k, end, &mut out, Ghost(s0));
                    proof {
                        let before = self.track@.subrange(c0, self.cursor as int);
                        assert(end == note_release(e));
                        assert forall|k2: u16, rel: u64|
                            last_release(before.push(e), self.offset as int, self.mode, k2) == Some(rel)
                            implies self.held@.contains(HeldKey { key: k2, release_ms: rel }) by {
                            lemma_last_release_push(before, e, self.offset as int, self.mode, k2);
                            if k2 != k {
                                assert(hb.contains(HeldKey { key: k2, release_ms: rel }));
                                let m = choose|m: int| 0 <= m < hb.len() && hb[m] == HeldKey { key: k2, release_ms: rel };
                                assert(hb[m].key != k);
                            }
                        }
                        assert forall|j: int| 0 <= j < self.held@.len() implies ({
                            let h = #[trigger] self.held@[j];
                            let lr = last_release(before.push(e), self.offset as int, self.mode, h.key);
                            lr == Some(h.release_ms) || (lr is None && h0.contains(h))
                        }) by {
                            let h = self.held@[j];
                            lemma_last_release_push(before, e, self.offset as int, self.mode, h.key);
                            if h != (HeldKey { key: k, release_ms: end }) {
                                let m = choose|m: int| 0 <= m < hb.len() && hb[m] == h;
                                assert(hb[m] == h);
                            }
                        }
                    }
                },
                None => {
                    proof {
                        let before = self.track@.subrange(c0, self.cursor as int);
                        assert forall|k2: u16|
                            last_release(before.push(e), self.offset as int, self.mode, k2)
                                == last_release(before, self.offset as int, self.mode, k2) by {
                            lemma_last_release_push(before, e, self.offset as int, self.mode, k2);
                        }
                    }
                },
            }
            proof {
                assert(self.track@.subrange(c0, self.cursor as int + 1)
                    =~= self.track@.subrange(c0, self.cursor as int).push(e));
            }
            self.cursor = self.cursor + 1;
        }
        let ghost h1 = self.held@;
        let ghost fired1 = self.track@.subrange(c0, self.cursor as int);
        assert(forall|k: u16, rel: u64| last_release(fired1, self.offset as int, self.mode, k) == Some(rel)
            ==> h1.contains(HeldKey { key: k, release_ms: rel }));
        self.release_due(t, &mut out, Ghost(s0));
        proof {
            let fired = self.track@.subrange(c0, self.cursor as int);
            assert forall|k: u16, rel: u64|
                last_release(fired, self.offset as int, self.mode, k) == Some(rel) && rel > t
                implies self.held@.contains(HeldKey { key: k, release_ms: rel }) by {
                assert(fired == fired1);
                assert(h1.contains(HeldKey { key: k, release_ms: rel }));
                let m = choose|m: int| 0 <= m < h1.len() && h1[m] == HeldKey { key: k, release_ms: rel };
                assert(h1[m].release_ms > t);
            }
            assert forall|j: int| 0 <= j < self.held@.len() implies ({
                let h = #[trigger] self.held@[j];
                let lr = last_release(fired, self.offset as int, self.mode, h.key);
                lr == Some(h.release_ms) || (lr is None && h0.contains(h))
            }) by {
                let h = self.held@[j];
                assert(h1.contains(h));
                let m = choose|m: int| 0 <= m < h1.len() && h1[m] == h;
                assert(h1[m] == h);
            }
            let fk = fired_keys(self.track@.subrange(c0, self.cursor as int), self.offset as int, self.mode);
            assert forall|i: int| 0 <= i < h0.len() && h0[i].release_ms > t && !fk.contains(h0[i].key)
                implies self.pressed().contains(h0[i].key) by {
                let m = choose|m: int| 0 <= m < h1.len() && h1[m] == h0[i];
                let q = choose|q: int| 0 <= q < self.held@.len() && self.held@[q] == h1[m];
                assert(self.held@[q].key == h0[i].key);
            }
        }
        out
    }

    /// Suspends emission at wall-clock time `now`: track time stops there, and every held
    /// key is released so that none stays stuck.
    pub fn pause(&mut self, now: u64) -> (r: Vec<KeyAction>)
        requires
            old(self).wf(),
        ensures
            final(self).wf(),
            replay(old(self).pressed(), r@) == Some(final(self).pressed()),
            downs(r@).len() == 0,
            final(self).paused,
            final(self).track == old(self).track,
            final(self).cursor == old(self).cursor,
            final(self).clock == old(self).clock,
            final(self).offset == old(self).offset,
            final(self).mode == old(self).mode,
            old(self).paused ==> r@.len() == 0 && *final(self) == *old(self),
            !old(self).paused ==> final(self).paused_at == old(self).clock.sched_at(now as int)
                && final(self).pressed() == Set::<u16>::empty(),
    {
        let mut out: Vec<KeyAction> = Vec::new();
        if self.paused {
            return out;
        }
        self.paused_at = self.clock.sched_time(now);
        self.release_all(&mut out, Ghost(self.pressed()));
        self.paused = true;
        out
    }

    /// Resumes emission at wall-clock time `now`, from the track time at which it was
    /// paused, however long the pause lasted.
    pub fn resume(&mut self, now: u64)
        requires
            old(self).wf(),
        ensures
            final(self).wf(),
            !final(self).paused,
            final(self).track == old(self).track,
            final(self).cursor == old(self).cursor,
            final(self).held@ == old(self).held@,
            final(self).offset == old(self).offset,
            final(self).mode == old(self).mode,
            !old(self).paused ==> *final(self) == *old(self),
            old(self).paused ==> final(self).clock == (Clock {
                anchor_wall: now,
                anchor_sched: old(self).paused_at,
                speed_milli: old(self).clock.speed_milli,
            }),
            old(self).paused ==> final(self).clock.sched_at(now as int) == old(self).paused_at,
    {
        if self.paused {
            self.clock = Clock::pinned(now, self.paused_at, self.clock.speed_milli);
            self.paused = false;
        }
    }

    /// Ends the session: every held key is released.
    pub fn stop(&mut self) -> (r: Vec<KeyAction>)
        requires
            old(self).wf(),
        ensures
            final(self).wf(),
            replay(old(self).pressed(), r@) == Some(final(self).pressed()),
            downs(r@).len() == 0,
            final(self).pressed() == Set::<u16>::empty(),
            final(self).held@.len() == 0,
            final(self).track == old(self).track,
            final(self).cursor == old(self).cursor,
            final(self).clock == old(self).clock,
            final(self).paused == old(self).paused,
            final(self).paused_at == old(self).paused_at,
            final(self).offset == old(self).offset,
            final(self).mode == old(self).mode,
    {
        let mut out: Vec<KeyAction> = Vec::new();
        self.release_all(&mut out, Ghost(self.pressed()));
        out
    }

    /// Jumps to position `p` (clamped into the track) at wall-clock time `now`: held keys
    /// are released and the anchors are pinned so that the event at the new position is due
    /// at once.
    pub fn seek(&mut self, p: usize, now: u64) -> (r: Vec<KeyAction>)
        requires
            old(self).wf(),
        ensures
            final(self).wf(),
            replay(old(self).pressed(), r@) == Some(final(self).pressed()),
            downs(r@).len() == 0,
            final(self).pressed() == Set::<u16>::empty(),
            final(self).held@.len() == 0,
            final(self).cursor == clamp_position(p as int, old(self).track@.len() as int),
            final(self).clock == (Clock {
                anchor_wall: now,
                anchor_sched: Self::start_of(old(self).track@, final(self).cursor as int) as u64,
                speed_milli: old(self).clock.speed_milli,
            }),
            final(self).clock.sched_at(now as int) == Self::start_of(old(self).track@, final(self).cursor as int),
            final(self).paused ==> final(self).paused_at == Self::start_of(old(self).track@, final(self).cursor as int),
            final(self).track == old(self).track,
            final(self).paused == old(self).paused,
            final(self).offset == old(self).offset,
            final(self).mode == old(self).mode,
    {
        let mut out: Vec<KeyAction> = Vec::new();
        self.release_all(&mut out, Ghost(self.pressed()));
        self.cursor = clamp_to_track(p, self.track.len());
        let start = self.start_at(self.cursor);
        self.clock = Clock::pinned(now, start, self.clock.speed_milli);
        if self.paused {
            self.paused_at = start;
        }
        out
    }

    /// Changes the speed at wall-clock time `now`; track time at `now` is kept, so only
    /// events after `now` move. Pending key releases are kept in track time, so they move
    /// with the new speed as well.
    pub fn set_speed(&mut self, speed_milli: u64, now: u64)
        requires
            old(self).wf(),
        ensures
            final(self).wf(),
            final(self).clock.speed_milli == effective_speed(speed_milli as int),
            final(self).clock.anchor_wall == now,
            final(self).clock.sched_at(now as int) == old(self).clock.sched_at(now as int),
            final(self).track == old(self).track,
            final(self).cursor == old(self).cursor,
            final(self).held@ == old(self).held@,
            final(self).paused == old(self).paused,
            final(self).paused_at == old(self).paused_at,
            final(self).offset == old(self).offset,
            final(self).mode == old(self).mode,
    {
        self.clock.set_speed(now, speed_milli);
    }

    /// Changes the transposition applied to the events not yet fired.
    pub fn set_offset(&mut self, offset: i32)
        requires
            old(self).wf(),
        ensures
            final(self).wf(),
            final(self).offset == offset,
            final(self).track == old(self).track,
            final(self).cursor == old(self).cursor,
            final(self).clock == old(self).clock,
            final(self).held@ == old(self).held@,
            final(self).paused == old(self).paused,
            final(self).paused_at == old(self).paused_at,
            final(self).mode == old(self).mode,
    {
        self.offset = offset;
    }

    /// Whether the track has been played out: every event fired and every key released.
    pub fn is_finished(&self) -> (r: bool)
        requires
            self.wf(),
        ensures
            r == (self.cursor == self.track@.len() && self.held@.len() == 0),
    {
        self.cursor == self.track.len() && self.held.len() == 0
    }

    /// One wake of the scheduler at wall-clock time `now`: reads the transport's requests,
    /// applies them (stop, pause, resume, speed, offset, seek, in that order; a seek made while
    /// paused moves the play head at once, and playback resumes from there), emits what is
    /// due, and writes the play head back. Returns the key actions to inject and whether the
    /// session goes on; a session that ends (stopped, or played out) holds no key. A stop
    /// keeps the play head where it is; only opening a new track puts it back to 0.
    pub fn sync(&mut self, ts: &mut TransportState, now: u64) -> (r: (Vec<KeyAction>, bool))
        requires
            old(self).wf(),
        ensures
            final(self).wf(),
            replay(old(self).pressed(), r.0@) == Some(final(self).pressed()),
            !r.1 ==> final(self).pressed() == Set::<u16>::empty() && !final(ts).active && !final(ts).running,
            !old(ts).active ==> !r.1 && downs(r.0@).len() == 0 && final(ts).position == old(ts).position
                && final(self).cursor == old(self).cursor,
            old(ts).active && old(ts).paused ==> r.1 && final(self).paused && downs(r.0@).len() == 0
                && final(self).pressed() == Set::<u16>::empty()
                && final(self).cursor == if old(ts).seek_requested {
                    clamp_position(old(ts).position as int, old(self).track@.len() as int)
                } else {
                    old(self).cursor as int
                },
            old(ts).active && old(ts).paused && old(ts).seek_requested ==>
                final(self).paused_at == Self::start_of(old(self).track@, final(self).cursor as int),
            old(ts).active && old(ts).paused && !old(ts).seek_requested ==> final(self).paused_at == if old(self).paused {
                old(self).paused_at as int
            } else {
                old(self).clock.sched_at(now as int)
            },
            old(ts).active && !old(ts).paused ==> !final(self).paused
                && final(self).offset == old(ts).offset
                && final(self).clock.speed_milli == effective_speed(old(ts).speed_milli as int),
            old(ts).active ==> final(ts).position == final(self).cursor,
            old(ts).active && !old(ts).paused ==> ({
                let len = old(self).track@.len();
                let seek = old(ts).seek_requested;
                let c = if seek { clamp_position(old(ts).position as int, len as int) } else { old(self).cursor as int };
                let t = final(self).clock.sched_at(now as int);
                let tr = old(self).track@;
                let fired = tr.subrange(c, final(self).cursor as int);
                let base = if seek { Seq::<HeldKey>::empty() } else { old(self).held@ };
                &&& c <= final(self).cursor <= len
                &&& downs(r.0@) == fired_keys(fired, old(ts).offset as int, old(self).mode)
                &&& forall|j: int| c <= j < final(self).cursor ==> tr[j].start_ms <= t
                &&& final(self).cursor == len || tr[final(self).cursor as int].start_ms > t
                &&& forall|i: int| 0 <= i < final(self).held@.len() ==> final(self).held@[i].release_ms > t
                &&& forall|k: u16, rel: u64| last_release(fired, old(ts).offset as int, old(self).mode, k) == Some(rel)
                    && rel > t ==> final(self).held@.contains(HeldKey { key: k, release_ms: rel })
                &&& forall|j: int| 0 <= j < final(self).held@.len() ==> ({
                    let h = #[trigger] final(self).held@[j];
                    let lr = last_release(fired, old(ts).offset as int, old(self).mode, h.key);
                    lr == Some(h.release_ms) || (lr is None && base.contains(h))
                })
                &&& r.1 == !(final(self).cursor == len && final(self).held@.len() == 0)
                &&& seek ==> final(self).clock.anchor_wall == now
                    && final(self).clock.anchor_sched == Self::start_of(tr, c)
                &&& !seek && old(self).paused ==> final(self).clock.anchor_wall == now
                    && final(self).clock.anchor_sched == old(self).paused_at
                &&& !seek && !old(self).paused ==> final(self).clock.sched_at(now as int)
                    == old(self).clock.sched_at(now as int)
            }),
            !final(ts).seek_requested,
            final(ts).paused == old(ts).paused,
            final(ts).speed_milli == old(ts).speed_milli,
            final(ts).offset == old(ts).offset,
            final(self).track == old(self).track,
            final(self).mode == old(self).mode,
    {
        let ghost s0 = self.pressed();
        if !ts.active {
            let acts = self.stop();
            ts.running = false;
            ts.seek_requested = false;
            return (acts, false);
        }
        if ts.paused {
            let mut acts = self.pause(now);
            if ts.seek_requested {
                ts.seek_requested = false;
                let ghost a1 = acts@;
                let mut more = self.seek(ts.position, now);
                proof {
                    lemma_replay_concat(s0, a1, more@);
                    lemma_downs_concat(a1, more@);
                }
                acts.append(&mut more);
            }
            ts.position = self.cursor;
            return (acts, true);
        }
        self.resume(now);
        if ts.speed_milli != self.clock.speed_milli {
            self.set_speed(ts.speed_milli, now);
        } else {
            assert(effective_speed(ts.speed_milli as int) == ts.speed_milli);
        }
        self.set_offset(ts.offset);
        let mut acts: Vec<KeyAction> = Vec::new();
        if ts.seek_requested {
            ts.seek_requested = false;
            acts = self.seek(ts.position, now);
        }
        let ghost a1 = acts@;
        let mut more = self.tick(now);
        proof {
            lemma_replay_concat(s0, a1, more@);
            lemma_downs_concat(a1, more@);
            if !old(ts).seek_requested {
                assert(a1 =~= Seq::<KeyAction>::empty());
                assert(downs(a1) =~= Seq::<u16>::empty());
            }
            assert(downs(a1) + downs(more@) =~= downs(more@));
        }
        acts.append(&mut more);
        ts.position = self.cursor;
        if self.is_finished() {
            ts.active = false;
            ts.running = false;
            assert(self.pressed() =~= Set::<u16>::empty());
            return (acts, false);
        }
        (acts, true)
    }

    /// The next event's position in the track.
    pub fn position(&self) -> (r: usize)
        ensures
            r == self.cursor,
    {
        self.cursor
    }
}

} // verus!
