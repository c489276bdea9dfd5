//! Time model of a timeline.
//!
//! An instant is a signed count of nanoseconds from an origin chosen by the
//! embedding application (`i128`, wide enough for any platform's clock);
//! a duration is an unsigned count of nanoseconds (`u128`, wide enough for
//! any `std::time::Duration`). Subtracting one instant from another
//! saturates at zero, as `std::time::Instant` does.
use vstd::prelude::*;

use crate::keyframes::Repeat;

verus! {

/// Nanoseconds in one millisecond.
pub const NANOS_PER_MILLI: u128 = 1_000_000;

/// Whole milliseconds in a non-negative number of nanoseconds
/// (what `Duration::as_millis` gives).
pub open spec fn millis(nanos: int) -> int {
    nanos / 1_000_000
}

/// Time elapsed from `earlier` to `later`, or zero when `earlier` is later.
pub open spec fn elapsed(later: int, earlier: int) -> int {
    if later > earlier {
        later - earlier
    } else {
        0
    }
}

/// Returns the time elapsed from `earlier` to `later`, saturating at zero.
pub fn instant_elapsed(later: i128, earlier: i128) -> (d: u128)
    ensures
        d == elapsed(later as int, earlier as int),
{
    if later <= earlier {
        0
    } else if earlier >= 0 || later < 0 {
        (later - earlier) as u128
    } else {
        // later >= 0 > earlier: the difference may exceed i128::MAX
        let low: u128 = (-(earlier + 1)) as u128;
        (later as u128) + low + 1
    }
}

/// How many nanoseconds can be added to `t` before it is no valid instant.
pub fn room_above(t: i128) -> (r: u128)
    ensures
        r == i128::MAX - t,
{
    if t >= 0 {
        (i128::MAX - t) as u128
    } else {
        (i128::MAX as u128) + ((-(t + 1)) as u128) + 1
    }
}

/// Returns the instant `d` nanoseconds after `t`.
pub fn instant_add(t: i128, d: u128) -> (r: i128)
    requires
        t + d <= i128::MAX,
    ensures
        r == t + d,
{
    if d <= i128::MAX as u128 {
        t + (d as i128)
    } else {
        let rest: u128 = d - (i128::MAX as u128) - 1;
        ((t + i128::MAX) + (rest as i128)) + 1
    }
}

/// Is `t - d` a valid instant?
pub fn instant_sub_ok(t: i128, d: u128) -> (ok: bool)
    ensures
        ok == (i128::MIN <= t - d),
{
    if d <= i128::MAX as u128 {
        // t - d >= MIN  <=>  t >= MIN + d, a valid instant here
        t >= i128::MIN + (d as i128)
    } else {
        // MIN + d >= 0 here
        let over: u128 = d - (i128::MAX as u128) - 1;
        t >= 0 && (t as u128) >= over
    }
}

/// Returns the instant `d` nanoseconds before `t`.
pub fn instant_sub(t: i128, d: u128) -> (r: i128)
    requires
        i128::MIN <= t - d,
    ensures
        r == t - d,
{
    if d <= i128::MAX as u128 {
        t - (d as i128)
    } else {
        let first: u128 = i128::MAX as u128;
        let rest: u128 = d - first;
        (t - (first as i128)) - ((rest - 1) as i128) - 1
    }
}

/// A type to help guarantee that a paused animation has the correct data
/// to be resumed and/or continue animating.
#[derive(Debug, Clone, Copy, PartialEq, Eq, Structural)]
pub enum Pause {
    /// Currently paused, with the relative instant into the animation it was paused at.
    Paused(i128),
    /// Has never been paused.
    NoPause,
    /// The animation was paused, but no longer. The duration is the offset
    /// that the pause added to the animation.
    Resumed(u128),
}

impl Pause {
    /// Is an animation with this pause state playing?
    pub fn is_playing(&self) -> (playing: bool)
        ensures
            playing == !(*self is Paused),
    {
        !matches!(self, Pause::Paused(_))
    }
}

/// The metadata of an animation held by a timeline.
#[derive(Debug, Clone, Copy, PartialEq, Eq, Structural)]
pub struct Meta {
    /// Does the animation repeat? The decides that.
    pub repeat: Repeat,
    /// The instant the animation started at.
    pub start: i128,
    /// The instant the animation ends (its first loop, for a looping one).
    pub end: i128,
    /// How long one run of the animation lasts.
    pub length: u128,
    /// Is the animation paused? This decides that.
    pub pause: Pause,
}

/// A looping animation shorter than a millisecond cannot be mapped back onto
/// its first loop (the loop count would divide by zero).
pub open spec fn loop_ok(meta: Meta) -> bool {
    meta.repeat == Repeat::Never || meta.length >= 1_000_000
}

/// The instant into the first loop of an animation that corresponds to `now`.
/// A chain that does not repeat is unaffected; a looping chain is moved back
/// by whole loops (whole milliseconds of loop length), at most `u64::MAX`
/// milliseconds.
pub open spec fn spec_relative_time(now: int, meta: Meta) -> int {
    if meta.repeat == Repeat::Never {
        now
    } else {
        let len_ms = millis(meta.length as int);
        let repeat_num = millis(elapsed(now, meta.start as int)) / len_ms;
        let reduce_ms = repeat_num * len_ms;
        let clamped = if reduce_ms > u64::MAX { u64::MAX as int } else { reduce_ms };
        now - clamped * 1_000_000
    }
}

/// The instant an animation's pause state refers to when the timeline is at
/// `now`: a paused animation stays at its paused instant, a resumed one is
/// shifted back by the time it spent paused.
pub open spec fn pause_base(pause: Pause, now: int) -> int {
    match pause {
        Pause::Paused(t) => t as int,
        Pause::NoPause => now,
        Pause::Resumed(delay) => now - delay,
    }
}

/// Where, inside its first loop, an animation is when the timeline is at `now`.
pub open spec fn relative_now(meta: Meta, now: int) -> int {
    spec_relative_time(pause_base(meta.pause, now), meta)
}

/// The pause state only shifts `now` by an amount that stays a valid instant.
pub open spec fn pause_base_ok(pause: Pause, now: int) -> bool {
    i128::MIN <= pause_base(pause, now) <= i128::MAX
}

/// The metadata after pausing at `now`: the pause records where the
/// animation had got to (a resumed animation is shifted back by its delay,
/// any other by nothing).
pub open spec fn spec_pause(meta: Meta, now: int) -> Meta {
    let base = if meta.pause is Resumed { pause_base(meta.pause, now) } else { now };
    Meta { pause: Pause::Paused(spec_relative_time(base, meta) as i128), ..meta }
}

/// The metadata after resuming at `now`: a paused animation records how long
/// it was held; any other is unchanged.
pub open spec fn spec_resume(meta: Meta, now: int) -> Meta {
    match meta.pause {
        Pause::Paused(start) => Meta {
            pause: Pause::Resumed(elapsed(now, start as int) as u128),
            ..meta
        },
        _ => meta,
    }
}

proof fn lemma_reduce_bounds(diff: int, len_ms: int)
    requires
        diff >= 0,
        len_ms > 0,
    ensures
        0 <= (millis(diff) / len_ms) * len_ms <= millis(diff),
        ((millis(diff) / len_ms) * len_ms) * 1_000_000 <= diff,
        millis(diff) - (millis(diff) / len_ms) * len_ms < len_ms,
{
    let m = millis(diff);
    assert(0 <= m) by (nonlinear_arith)
        requires
            diff >= 0,
            m == diff / 1_000_000,
    ;
    assert(m * 1_000_000 <= diff) by (nonlinear_arith)
        requires
            diff >= 0,
            m == diff / 1_000_000,
    ;
    let k = m / len_ms;
    assert(0 <= k * len_ms <= m && m - k * len_ms < len_ms) by (nonlinear_arith)
        requires
            m >= 0,
            len_ms > 0,
            k == m / len_ms,
    ;
    assert((k * len_ms) * 1_000_000 <= m * 1_000_000) by (nonlinear_arith)
        requires
            0 <= k * len_ms <= m,
    ;
}


/// A looping animation always maps `now` into its first loop: the relative
/// instant lies between the start and the start plus the loop length
/// (counted in whole milliseconds), and never after `now`.
/// (Past `u64::MAX` milliseconds of looping the loop count is clamped and
/// this no longer holds.)
pub proof fn lemma_relative_time_in_first_loop(now: int, meta: Meta)
    requires
        meta.repeat == Repeat::Forever,
        loop_ok(meta),
        now >= meta.start,
        millis(now - meta.start) <= u64::MAX,
    ensures
        meta.start <= spec_relative_time(now, meta) <= now,
        spec_relative_time(now, meta) < meta.start + millis(meta.length as int) * 1_000_000,
        millis(meta.length as int) * 1_000_000 <= meta.length,
{
    let diff = now - meta.start;
    let len_ms = millis(meta.length as int);
    assert(len_ms >= 1 && len_ms * 1_000_000 <= meta.length) by (nonlinear_arith)
        requires
            meta.length >= 1_000_000,
            len_ms == meta.length / 1_000_000,
    ;
    lemma_reduce_bounds(diff, len_ms);
    let m = millis(diff);
    let k = m / len_ms;
    assert(diff < (m + 1) * 1_000_000) by (nonlinear_arith)
        requires
            diff >= 0,
            m == diff / 1_000_000,
    ;
    assert(m * 1_000_000 <= diff) by (nonlinear_arith)
        requires
            diff >= 0,
            m == diff / 1_000_000,
    ;
    assert((m - k * len_ms) * 1_000_000 >= 0 && (m - k * len_ms + 1) * 1_000_000 <= len_ms
        * 1_000_000) by (nonlinear_arith)
        requires
            0 <= m - k * len_ms < len_ms,
    ;
    assert(diff - (k * len_ms) * 1_000_000 >= (m - k * len_ms) * 1_000_000) by (nonlinear_arith)
        requires
            m * 1_000_000 <= diff,
    ;
    assert(diff - (k * len_ms) * 1_000_000 < (m - k * len_ms + 1) * 1_000_000) by (nonlinear_arith)
        requires
            diff < (m + 1) * 1_000_000,
    ;
}

/// Mapping an instant into the first loop twice is the same as doing it once.
/// (Past `u64::MAX` milliseconds of looping the loop count is clamped and
/// this no longer holds.)
pub proof fn lemma_relative_time_idempotent(now: int, meta: Meta)
    requires
        loop_ok(meta),
        millis(elapsed(now, meta.start as int)) <= u64::MAX,
    ensures
        spec_relative_time(spec_relative_time(now, meta), meta) == spec_relative_time(now, meta),
{
    if meta.repeat == Repeat::Forever && now > meta.start {
        lemma_relative_time_in_first_loop(now, meta);
        let y = spec_relative_time(now, meta);
        let len_ms = millis(meta.length as int);
        let d = y - meta.start;
        assert(0 <= millis(d) < len_ms) by (nonlinear_arith)
            requires
                0 <= d < len_ms * 1_000_000,
        ;
        assert(millis(d) / len_ms == 0) by (nonlinear_arith)
            requires
                0 <= millis(d) < len_ms,
        ;
        assert(millis(elapsed(y, meta.start as int)) == millis(d));
    } else if meta.repeat == Repeat::Forever {
        let len_ms = millis(meta.length as int);
        assert(len_ms >= 1) by (nonlinear_arith)
            requires
                meta.length >= 1_000_000,
                len_ms == meta.length / 1_000_000,
        ;
        assert(millis(elapsed(now, meta.start as int)) == 0);
        assert(0int / len_ms == 0);
        assert(spec_relative_time(now, meta) == now);
    }
}

/// A looping animation is periodic: a whole number of loops later (a loop
/// lasting its length in whole milliseconds), the relative instant is the
/// same. (Past `u64::MAX` milliseconds of looping the loop count is clamped
/// and this no longer holds.)
pub proof fn lemma_relative_time_periodic(now: int, meta: Meta, loops: nat)
    requires
        meta.repeat == Repeat::Forever,
        loop_ok(meta),
        now >= meta.start,
        millis(now + loops * millis(meta.length as int) * 1_000_000 - meta.start) <= u64::MAX,
    ensures
        spec_relative_time(now + loops * millis(meta.length as int) * 1_000_000, meta)
            == spec_relative_time(now, meta),
{
    let len_ms = millis(meta.length as int);
    assert(len_ms >= 1) by (nonlinear_arith)
        requires
            meta.length >= 1_000_000,
            len_ms == meta.length / 1_000_000,
    ;
    let d = now - meta.start;
    let kl = loops * len_ms;
    assert(kl >= 0) by (nonlinear_arith)
        requires
            loops >= 0,
            len_ms >= 1,
            kl == loops * len_ms,
    ;
    let later = now + kl * 1_000_000;
    assert(loops * len_ms * 1_000_000 == kl * 1_000_000) by (nonlinear_arith)
        requires
            kl == loops * len_ms,
    ;
    let m = millis(d);
    assert(millis(d + kl * 1_000_000) == m + kl) by (nonlinear_arith)
        requires
            d >= 0,
            kl >= 0,
            m == d / 1_000_000,
    ;
    assert(elapsed(later, meta.start as int) == d + kl * 1_000_000);
    assert(elapsed(now, meta.start as int) == d);
    let q = m / len_ms;
    assert((m + kl) / len_ms == q + loops) by (nonlinear_arith)
        requires
            len_ms >= 1,
            m >= 0,
            kl == loops * len_ms,
            q == m / len_ms,
    ;
    assert((q + loops) * len_ms == q * len_ms + kl) by (nonlinear_arith)
        requires
            kl == loops * len_ms,
    ;
    lemma_reduce_bounds(d, len_ms);
    lemma_reduce_bounds(d + kl * 1_000_000, len_ms);
    assert((q * len_ms + kl) * 1_000_000 == q * len_ms * 1_000_000 + kl * 1_000_000) by (nonlinear_arith);
}

/// A paused animation is frozen: whenever the timeline is read, it is where
/// it was at the moment it was paused, and it no longer plays.
pub proof fn lemma_pause_freezes(meta: Meta, paused_at: int, later: int)
    requires
        !(meta.pause is Paused),
        loop_ok(meta),
        pause_base_ok(meta.pause, paused_at),
        millis(elapsed(pause_base(meta.pause, paused_at), meta.start as int)) <= u64::MAX,
    ensures
        relative_now(spec_pause(meta, paused_at), later) == relative_now(meta, paused_at),
        spec_pause(meta, paused_at).pause is Paused,
{
    let base = pause_base(meta.pause, paused_at);
    lemma_relative_time_range(base, meta);
    lemma_relative_time_idempotent(base, meta);
}

/// Resuming continues a paused animation from the instant it was paused at:
/// from then on it advances with the clock, shifted by the time it was held.
pub proof fn lemma_resume_continues(meta: Meta, paused_at: int, resumed_at: int, later: int)
    requires
        !(meta.pause is Paused),
        loop_ok(meta),
        pause_base_ok(meta.pause, paused_at),
        resumed_at >= relative_now(meta, paused_at),
        resumed_at <= i128::MAX,
    ensures
        ({
            let resumed = spec_resume(spec_pause(meta, paused_at), resumed_at);
            &&& !(resumed.pause is Paused)
            &&& relative_now(resumed, later) == spec_relative_time(
                relative_now(meta, paused_at) + (later - resumed_at),
                meta,
            )
        }),
{
    let base = pause_base(meta.pause, paused_at);
    lemma_relative_time_range(base, meta);
    let p = spec_relative_time(base, meta);
    let paused = spec_pause(meta, paused_at);
    assert(paused.pause == Pause::Paused(p as i128));
    let resumed = spec_resume(paused, resumed_at);
    assert(resumed.pause == Pause::Resumed((resumed_at - p) as u128));
    assert(pause_base(resumed.pause, later) == p + (later - resumed_at));
}

/// The relative instant of a valid instant is a valid instant, no later than it.
pub proof fn lemma_relative_time_range(now: int, meta: Meta)
    requires
        loop_ok(meta),
        i128::MIN <= now <= i128::MAX,
    ensures
        i128::MIN <= spec_relative_time(now, meta) <= now,
        now > meta.start ==> spec_relative_time(now, meta) >= meta.start,
{
    if meta.repeat == Repeat::Forever && now > meta.start {
        let len_ms = millis(meta.length as int);
        assert(len_ms >= 1) by (nonlinear_arith)
            requires
                meta.length >= 1_000_000,
                len_ms == meta.length / 1_000_000,
        ;
        lemma_reduce_bounds(now - meta.start, len_ms);
        let reduce = (millis(now - meta.start) / len_ms) * len_ms;
        let clamped = if reduce > u64::MAX { u64::MAX as int } else { reduce };
        assert(clamped * 1_000_000 <= reduce * 1_000_000) by (nonlinear_arith)
            requires
                0 <= clamped <= reduce,
        ;
        assert(clamped >= 0);
        assert(reduce * 1_000_000 <= now - meta.start);
        assert(spec_relative_time(now, meta) == now - clamped * 1_000_000);
        assert(spec_relative_time(now, meta) >= meta.start);
    } else if meta.repeat == Repeat::Forever {
        let len_ms = millis(meta.length as int);
        assert(len_ms >= 1) by (nonlinear_arith)
            requires
                meta.length >= 1_000_000,
                len_ms == meta.length / 1_000_000,
        ;
        assert(millis(elapsed(now, meta.start as int)) == 0);
        assert(0int / len_ms == 0);
        assert(spec_relative_time(now, meta) == now);
    }
}

/// Used for animations that loop: given the current instant, returns the
/// relative instant in the animation that corresponds with its first loop.
pub fn relative_time(now: i128, meta: &Meta) -> (t: i128)
    requires
        loop_ok(*meta),
    ensures
        t == spec_relative_time(now as int, *meta),
{
    if meta.repeat == Repeat::Never {
        now
    } else {
        let diff = instant_elapsed(now, meta.start);
        let len_ms = meta.length / NANOS_PER_MILLI;
        proof {
            lemma_reduce_bounds(diff as int, len_ms as int);
        }
        let repeat_num = (diff / NANOS_PER_MILLI) / len_ms;
        let reduce_by = repeat_num * len_ms;
        let clamped: u128 = if reduce_by > u64::MAX as u128 { u64::MAX as u128 } else { reduce_by };
        assert(clamped * 1_000_000 <= diff);
        let back: u128 = clamped * NANOS_PER_MILLI;
        now - (back as i128)
    }
}

impl Meta {
    /// Creates new metadata for an animation.
    pub fn new(repeat: Repeat, start: i128, end: i128, length: u128, pause: Pause) -> (meta: Meta)
        ensures
            meta == (Meta { repeat, start, end, length, pause }),
    {
        Meta { repeat, start, end, length, pause }
    }

    /// Sets the animation to be paused at the instant it has reached at `now`.
    /// Pausing an already paused animation moves it to where it would be at
    /// `now` had it not been paused.
    pub fn pause(&mut self, now: i128)
        requires
            loop_ok(*old(self)),
            old(self).pause is Resumed ==> pause_base_ok(old(self).pause, now as int),
        ensures
            *final(self) == spec_pause(*old(self), now as int),
    {
        if let Pause::Resumed(delay) = self.pause {
            let t = relative_time(instant_sub(now, delay), self);
            self.pause = Pause::Paused(t);
        } else {
            let t = relative_time(now, self);
            self.pause = Pause::Paused(t);
        }
    }

    /// Sets a paused animation to be resumed at `now`; it continues from the
    /// instant it was paused at. An animation that is not paused is unchanged.
    pub fn resume(&mut self, now: i128)
        ensures
            *final(self) == spec_resume(*old(self), now as int),
    {
        if let Pause::Paused(start) = self.pause {
            self.pause = Pause::Resumed(instant_elapsed(now, start));
        }
    }
}

} // verus!
