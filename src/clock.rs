use vstd::prelude::*;

verus! {

/// Speeds are given in thousandths: this value is normal speed (1.0x).
pub const SPEED_SCALE: u64 = 1000;

/// The smallest effective speed (0.001x); lower requests are raised to it so that the
/// anchor formula never divides by zero.
pub const MIN_SPEED: u64 = 1;

/// The anchor pair that links wall-clock time to scheduled (track) time, and the speed.
#[derive(Debug, Clone, Copy, PartialEq, Eq, Structural)]
pub struct Clock {
    /// Wall-clock milliseconds at the anchor.
    pub anchor_wall: u64,
    /// Scheduled milliseconds (track time) at the anchor.
    pub anchor_sched: u64,
    /// Speed in thousandths.
    pub speed_milli: u64,
}

/// Scheduled milliseconds that pass in `elapsed` wall-clock milliseconds at `speed` (thousandths).
pub open spec fn sched_offset(elapsed: int, speed: int) -> int {
    elapsed * speed / (SPEED_SCALE as int)
}

/// Wall-clock milliseconds that `d` scheduled milliseconds take at `speed` (thousandths).
pub open spec fn wall_offset(d: int, speed: int) -> int {
    d * (SPEED_SCALE as int) / speed
}

/// `x`, or the largest `u64` where `x` is beyond it.
pub open spec fn cap(x: int) -> int {
    if x > u64::MAX { u64::MAX as int } else { x }
}

/// `s` raised to the smallest effective speed.
pub open spec fn effective_speed(s: int) -> int {
    if s < MIN_SPEED { MIN_SPEED as int } else { s }
}

impl Clock {
    pub open spec fn wf(self) -> bool {
        self.speed_milli >= MIN_SPEED
    }

    /// Scheduled time at wall-clock time `w`; before the anchor, time stands at the anchor.
    pub open spec fn sched_at(self, w: int) -> int {
        if w <= self.anchor_wall {
            self.anchor_sched as int
        } else {
            cap(self.anchor_sched + sched_offset(w - self.anchor_wall, self.speed_milli as int))
        }
    }

    /// Wall-clock time at which scheduled time `t` comes due.
    pub open spec fn fire_wall(self, t: int) -> int {
        if t <= self.anchor_sched {
            self.anchor_wall as int
        } else {
            cap(self.anchor_wall + wall_offset(t - self.anchor_sched, self.speed_milli as int))
        }
    }

    /// A clock pinned so that wall-clock time `wall` is scheduled time `sched`.
    pub fn pinned(wall: u64, sched: u64, speed_milli: u64) -> (r: Clock)
        ensures
            r.anchor_wall == wall,
            r.anchor_sched == sched,
            r.speed_milli == effective_speed(speed_milli as int),
            r.wf(),
            r.sched_at(wall as int) == sched,
    {
        let s = if speed_milli < MIN_SPEED { MIN_SPEED } else { speed_milli };
        Clock { anchor_wall: wall, anchor_sched: sched, speed_milli: s }
    }

    /// Scheduled time at wall-clock time `w`.
    pub fn sched_time(&self, w: u64) -> (r: u64)
        requires
            self.wf(),
        ensures
            r as int == self.sched_at(w as int),
    {
        if w <= self.anchor_wall {
            return self.anchor_sched;
        }
        let elapsed: u128 = (w - self.anchor_wall) as u128;
        let speed: u128 = self.speed_milli as u128;
        proof {
            assert(elapsed * speed <= 0xFFFF_FFFF_FFFF_FFFFu128 * 0xFFFF_FFFF_FFFF_FFFFu128)
                by (nonlinear_arith)
                requires elapsed <= 0xFFFF_FFFF_FFFF_FFFFu128, speed <= 0xFFFF_FFFF_FFFF_FFFFu128;
        }
        let x: u128 = self.anchor_sched as u128 + elapsed * speed / (SPEED_SCALE as u128);
        if x > u64::MAX as u128 { u64::MAX } else { x as u64 }
    }

    /// Wall-clock time at which scheduled time `t` comes due.
    pub fn fire_time(&self, t: u64) -> (r: u64)
        requires
            self.wf(),
        ensures
            r as int == self.fire_wall(t as int),
    {
        if t <= self.anchor_sched {
            return self.anchor_wall;
        }
        let d: u128 = (t - self.anchor_sched) as u128;
        let speed: u128 = self.speed_milli as u128;
        let q: u128 = d * (SPEED_SCALE as u128) / speed;
        proof {
            vstd::arithmetic::div_mod::lemma_div_is_ordered_by_denominator(
                (d * 1000) as int, 1, speed as int);
        }
        let x: u128 = self.anchor_wall as u128 + q;
        if x > u64::MAX as u128 { u64::MAX } else { x as u64 }
    }

    /// Re-anchors at wall-clock time `w`, keeping the scheduled time there.
    pub fn rebase(&mut self, w: u64)
        requires
            old(self).wf(),
        ensures
            final(self).wf(),
            final(self).anchor_wall == w,
            final(self).anchor_sched == old(self).sched_at(w as int),
            final(self).speed_milli == old(self).speed_milli,
    {
        let t = self.sched_time(w);
        self.anchor_wall = w;
        self.anchor_sched = t;
    }

    /// Changes the speed at wall-clock time `w`: the scheduled time at `w` stays where it was,
    /// and only what comes after it runs at the new speed.
    pub fn set_speed(&mut self, w: u64, speed_milli: u64)
        requires
            old(self).wf(),
        ensures
            final(self).wf(),
            final(self).anchor_wall == w,
            final(self).anchor_sched == old(self).sched_at(w as int),
            final(self).speed_milli == effective_speed(speed_milli as int),
            final(self).sched_at(w as int) == old(self).sched_at(w as int),
    {
        self.rebase(w);
        self.speed_milli = if speed_milli < MIN_SPEED { MIN_SPEED } else { speed_milli };
    }
}

/// A pause at wall-clock time `paused` followed by a resume at `resumed`, however late,
/// continues from the track time reached at the pause: `d` milliseconds after the resume the
/// track stands where it would stand `d` milliseconds after the pause had there been none.
pub proof fn lemma_pause_resume_no_drift(c: Clock, paused: u64, resumed: u64, d: u64)
    requires
        c.wf(),
        paused <= resumed,
    ensures
        ({
            let frozen = c.sched_at(paused as int);
            let after = Clock { anchor_wall: resumed, anchor_sched: frozen as u64, speed_milli: c.speed_milli };
            let unpaused = Clock { anchor_wall: paused, anchor_sched: frozen as u64, speed_milli: c.speed_milli };
            &&& after.sched_at(resumed as int) == frozen
            &&& after.sched_at(resumed + d) == unpaused.sched_at(paused + d)
        }),
{
    assert(0 <= c.sched_at(paused as int) <= u64::MAX);
}

proof fn lemma_half_speed_delay(d: int, s: int)
    requires
        d >= 0,
        s >= 1,
    ensures
        2 * wall_offset(d, 2 * s) <= wall_offset(d, s) <= 2 * wall_offset(d, 2 * s) + 1,
{
    let x = d * 1000;
    assert(d * 1000 >= 0) by (nonlinear_arith)
        requires d >= 0;
    let q1 = x / s;
    let r1 = x % s;
    let q2 = x / (2 * s);
    let r2 = x % (2 * s);
    vstd::arithmetic::div_mod::lemma_fundamental_div_mod(x, s);
    vstd::arithmetic::div_mod::lemma_fundamental_div_mod(x, 2 * s);
    vstd::arithmetic::div_mod::lemma_mod_bound(x, s);
    vstd::arithmetic::div_mod::lemma_mod_bound(x, 2 * s);
    assert(2 * q2 <= q1 <= 2 * q2 + 1) by (nonlinear_arith)
        requires
            x == s * q1 + r1,
            x == (2 * s) * q2 + r2,
            0 <= r1 < s,
            0 <= r2 < 2 * s,
            s >= 1;
}

/// Doubling the speed halves the wall-clock interval between the fire times of two events
/// `d1` and `d2` scheduled milliseconds after the anchor, to within one millisecond of
/// rounding.
pub proof fn lemma_double_speed_halves_interval(d1: int, d2: int, s: int)
    requires
        0 <= d1 <= d2,
        s >= 1,
    ensures
        ({
            let slow = wall_offset(d2, s) - wall_offset(d1, s);
            let fast = wall_offset(d2, 2 * s) - wall_offset(d1, 2 * s);
            &&& 2 * fast - 1 <= slow
            &&& slow <= 2 * fast + 1
        }),
{
    lemma_half_speed_delay(d1, s);
    lemma_half_speed_delay(d2, s);
}

/// An event `d` track milliseconds after the anchor comes due (track time reaches it) at
/// `wall_offset(d, s)` wall-clock milliseconds after the anchor or one millisecond later:
/// never before, and at the latest one millisecond after.
pub proof fn lemma_due_at_wall_offset(d: int, s: int)
    requires
        d >= 0,
        s >= 1,
    ensures
        sched_offset(wall_offset(d, s) + 1, s) >= d,
        forall|e: int| 0 <= e < wall_offset(d, s) ==> #[trigger] sched_offset(e, s) < d,
{
    let f = wall_offset(d, s);
    let x = d * 1000;
    vstd::arithmetic::div_mod::lemma_fundamental_div_mod(x, s);
    vstd::arithmetic::div_mod::lemma_mod_bound(x, s);
    assert(d * 1000 >= 0) by (nonlinear_arith)
        requires d >= 0;
    assert((f + 1) * s >= x) by (nonlinear_arith)
        requires x == s * f + x % s, 0 <= x % s < s;
    vstd::arithmetic::div_mod::lemma_div_is_ordered(x, (f + 1) * s, 1000);
    vstd::arithmetic::div_mod::lemma_div_by_multiple(d, 1000);
    assert forall|e: int| 0 <= e < f implies #[trigger] sched_offset(e, s) < d by {
        assert(e * s < x) by (nonlinear_arith)
            requires x == s * f + x % s, 0 <= x % s, 0 <= e < f, s >= 1;
        assert(e * s >= 0) by (nonlinear_arith)
            requires e >= 0, s >= 1;
        vstd::arithmetic::div_mod::lemma_div_is_ordered(e * s, x - 1, 1000);
        assert((x - 1) / 1000 < d) by {
            vstd::arithmetic::div_mod::lemma_fundamental_div_mod(x - 1, 1000);
            vstd::arithmetic::div_mod::lemma_mod_bound(x - 1, 1000);
        }
    }
}

/// On a clock whose times stay below the `u64` cap, an event at track time `t` after the
/// anchor comes due at the wake `fire_wall(t)` or one millisecond later, and not before.
/// With `lemma_double_speed_halves_interval`, the wall-clock gap between two events' due
/// wakes at double speed is half the gap at single speed, to within two milliseconds.
pub proof fn lemma_clock_due_at_fire_wall(c: Clock, t: int)
    requires
        c.wf(),
        c.anchor_sched < t <= u64::MAX,
        c.anchor_wall + wall_offset(t - c.anchor_sched, c.speed_milli as int) + 1 <= u64::MAX,
    ensures
        c.fire_wall(t) == c.anchor_wall + wall_offset(t - c.anchor_sched, c.speed_milli as int),
        c.sched_at(c.fire_wall(t) + 1) >= t,
        forall|w: int| c.anchor_wall < w < c.fire_wall(t) ==> #[trigger] c.sched_at(w) < t,
{
    let d = t - c.anchor_sched;
    let s = c.speed_milli as int;
    lemma_due_at_wall_offset(d, s);
    assert forall|w: int| c.anchor_wall < w < c.fire_wall(t) implies #[trigger] c.sched_at(w) < t by {
        assert(sched_offset(w - c.anchor_wall, s) < d);
    }
}

} // verus!
