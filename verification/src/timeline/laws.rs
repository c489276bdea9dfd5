//! Laws of the timeline: what a start does to every animation, how the
//! keyframes of a started chain are laid out in time, and what reading a
//! finished, paused or cleared animation gives.
use vstd::prelude::*;
use vstd::std_specs::cmp::PartialEqSpec;

use crate::keyframes::Repeat;
use crate::frame::{frame_ease, frame_value, spec_to_eager, SubFrame};
use crate::time::{
    elapsed, lemma_relative_time_periodic, lemma_relative_time_range, loop_ok, millis, pause_base,
    relative_now, Pause,
};
use crate::timeline::{
    apply_op, apply_ops, build_track, chain_ok, column_of, discard, get_now, get_ok, index_from,
    index_of_key, install_chains, keys_unique, lemma_discard, lemma_column_settles,
    lemma_index_of_key, lemma_pending_index_from, lemma_row_time_monotonic, lemma_store, lookup,
    pause_track, pending_for, pending_index_from, pending_key, pending_keys_unique, resolve_rows,
    resume_track, row_time, reading_from, spec_reads, track_ok, spec_start, timeline_wf, Interpolation,
    PendingView, TimelineView, TrackView,
};

verus! {

/// Two tracks agree on everything but their pause state: same keyframes,
/// same repeat, start, end and length.
pub open spec fn same_but_pause<V>(a: TrackView<V>, b: TrackView<V>) -> bool {
    &&& a.columns == b.columns
    &&& a.meta.repeat == b.meta.repeat
    &&& a.meta.start == b.meta.start
    &&& a.meta.end == b.meta.end
    &&& a.meta.length == b.meta.length
}

/// Two lists of tracks hold the same ids in the same places.
spec fn same_keys<V>(s1: Seq<(u64, TrackView<V>)>, s2: Seq<(u64, TrackView<V>)>) -> bool {
    s1.len() == s2.len() && forall|k: int| 0 <= k < s1.len() ==> #[trigger] s1[k].0 == s2[k].0
}

proof fn lemma_index_from_same_keys<V>(
    s1: Seq<(u64, TrackView<V>)>,
    s2: Seq<(u64, TrackView<V>)>,
    id: u64,
    i: int,
)
    requires
        same_keys(s1, s2),
    ensures
        index_from(s1, id, i) == index_from(s2, id, i),
    decreases s1.len() - i,
{
    if 0 <= i < s1.len() {
        assert(s1[i].0 == s2[i].0);
        lemma_index_from_same_keys(s1, s2, id, i + 1);
    }
}

/// Pausing or resuming touches nothing but the pause state.
proof fn lemma_pause_resume_same<V>(t: TrackView<V>, now: int)
    ensures
        same_but_pause(pause_track(t, now), t),
        same_but_pause(resume_track(t, now), t),
{
}

/// One pause or resume request keeps the ids and every track but its
/// pause state.
proof fn lemma_apply_op_keeps<V, S>(
    tracks: Seq<(u64, TrackView<V>)>,
    p: PendingView<V, S>,
    now: int,
    id: u64,
)
    requires
        keys_unique(tracks),
    ensures
        keys_unique(apply_op(tracks, p, now)),
        lookup(apply_op(tracks, p, now), id) is Some <==> lookup(tracks, id) is Some,
        lookup(tracks, id) matches Some(a) ==> (lookup(apply_op(tracks, p, now), id) matches Some(b)
            && same_but_pause(b, a)),
{
    match p {
        PendingView::Pause(id2) => {
            match lookup(tracks, id2) {
                Some(t) => {
                    lemma_store(tracks, id2, pause_track(t, now), id);
                    lemma_pause_resume_same(t, now);
                },
                None => {},
            }
        },
        PendingView::Resume(id2) => {
            match lookup(tracks, id2) {
                Some(t) => {
                    lemma_store(tracks, id2, resume_track(t, now), id);
                    lemma_pause_resume_same(t, now);
                },
                None => {},
            }
        },
        PendingView::PauseAll => {
            let m = apply_op(tracks, p, now);
            assert(same_keys(tracks, m));
            lemma_index_from_same_keys(tracks, m, id, 0);
            lemma_index_of_key(tracks, id);
            match index_of_key(tracks, id) {
                Some(i) => {
                    lemma_pause_resume_same(tracks[i].1, now);
                },
                None => {},
            }
        },
        PendingView::ResumeAll => {
            let m = apply_op(tracks, p, now);
            assert(same_keys(tracks, m));
            lemma_index_from_same_keys(tracks, m, id, 0);
            lemma_index_of_key(tracks, id);
            match index_of_key(tracks, id) {
                Some(i) => {
                    lemma_pause_resume_same(tracks[i].1, now);
                },
                None => {},
            }
        },
        PendingView::Chain(_, _, _, _) => {},
    }
}

/// Pause and resume requests keep the ids and every track but its pause
/// state.
proof fn lemma_apply_ops_keeps<V, S>(
    tracks: Seq<(u64, TrackView<V>)>,
    ps: Seq<PendingView<V, S>>,
    now: int,
    i: int,
    id: u64,
)
    requires
        keys_unique(tracks),
        0 <= i <= ps.len(),
    ensures
        keys_unique(apply_ops(tracks, ps, now, i)),
        lookup(apply_ops(tracks, ps, now, i), id) is Some <==> lookup(tracks, id) is Some,
        lookup(tracks, id) matches Some(a) ==> (lookup(apply_ops(tracks, ps, now, i), id) matches Some(
            b,
        ) && same_but_pause(b, a)),
    decreases i,
{
    if i > 0 {
        lemma_apply_ops_keeps(tracks, ps, now, i - 1, id);
        lemma_apply_op_keeps(apply_ops(tracks, ps, now, i - 1), ps[i - 1], now, id);
    }
}

/// The track pending request `k` becomes when it is a chain started at `now`.
pub open spec fn chain_track<V, S>(
    ps: Seq<PendingView<V, S>>,
    now: i128,
    current: Seq<Seq<Option<V>>>,
    speed: Seq<Seq<u128>>,
    k: int,
) -> TrackView<V> {
    match ps[k] {
        PendingView::Chain(_, repeat, rows, paused) => build_track(
            rows,
            repeat,
            paused,
            now,
            current[k],
            speed[k],
        ),
        _ => arbitrary(),
    }
}

/// The index of the chain pending for `id` among the first `i` requests.
spec fn installed_at<V, S>(ps: Seq<PendingView<V, S>>, id: u64, i: int) -> Option<int> {
    match pending_index_from(ps, id, 0) {
        Some(k) => if k < i && ps[k] is Chain {
            Some(k)
        } else {
            None
        },
        None => None,
    }
}

proof fn lemma_install_chains<V, S>(
    tracks: Seq<(u64, TrackView<V>)>,
    ps: Seq<PendingView<V, S>>,
    now: i128,
    current: Seq<Seq<Option<V>>>,
    speed: Seq<Seq<u128>>,
    i: int,
    id: u64,
)
    requires
        keys_unique(tracks),
        pending_keys_unique(ps),
        0 <= i <= ps.len(),
    ensures
        keys_unique(install_chains(tracks, ps, now, current, speed, i)),
        match installed_at(ps, id, i) {
            Some(k) => lookup(install_chains(tracks, ps, now, current, speed, i), id) == Some(
                chain_track(ps, now, current, speed, k),
            ),
            None => lookup(install_chains(tracks, ps, now, current, speed, i), id) == lookup(
                tracks,
                id,
            ),
        },
    decreases i,
{
    lemma_pending_index_from(ps, id, 0);
    if i > 0 {
        lemma_install_chains(tracks, ps, now, current, speed, i - 1, id);
        let t = install_chains(tracks, ps, now, current, speed, i - 1);
        match ps[i - 1] {
            PendingView::Chain(id2, repeat, rows, paused) => {
                let bt = build_track(rows, repeat, paused, now, current[i - 1], speed[i - 1]);
                lemma_store(t, id2, bt, id);
                if id2 == id {
                    match pending_index_from(ps, id, 0) {
                        Some(k) => {
                            if k < i - 1 {
                                assert(pending_key(ps[k]) == Some(id));
                                assert(pending_key(ps[i - 1]) == Some(id));
                                assert(false);
                            }
                        },
                        None => {},
                    }
                    assert(installed_at(ps, id, i) == Some(i - 1));
                    assert(lookup(install_chains(tracks, ps, now, current, speed, i), id) == Some(bt));
                    assert(chain_track(ps, now, current, speed, i - 1) == bt);
                } else {
                    assert(installed_at(ps, id, i) == installed_at(ps, id, i - 1));
                    assert(lookup(install_chains(tracks, ps, now, current, speed, i), id) == lookup(t, id));
                }
            },
            _ => {
                assert(installed_at(ps, id, i) == installed_at(ps, id, i - 1));
            },
        }
    }
}

/// Starting the pending requests at `now` installs every pending chain:
/// the animation of its id becomes the chain started at `now` (see
/// [`build_track`]), whose keyframes, repeat, start, end and length no
/// later pause or resume request of the same start changes. Any other
/// animation keeps its keyframes and timing (only its pause state may
/// change), and no animation appears or disappears. Afterwards nothing is
/// pending and the timeline is at `now`.
pub proof fn lemma_start_installs_chains<V, S>(
    t: TimelineView<V, S>,
    now: i128,
    current: Seq<Seq<Option<V>>>,
    speed: Seq<Seq<u128>>,
    id: u64,
)
    requires
        timeline_wf(t),
    ensures
        spec_start(t, now, current, speed).pendings.len() == 0,
        spec_start(t, now, current, speed).now == Some(now),
        keys_unique(spec_start(t, now, current, speed).tracks),
        ({
            let k = pending_index_from(t.pendings, id, 0).unwrap();
            let started = lookup(spec_start(t, now, current, speed).tracks, id);
            pending_index_from(t.pendings, id, 0) is Some && t.pendings[k] is Chain ==> (started
                is Some && same_but_pause(started.unwrap(), chain_track(t.pendings, now, current, speed, k))
                && started.unwrap().meta.start == now)
        }),
        !(pending_for(t.pendings, id) matches Some(p) && p is Chain) ==> ((lookup(
            spec_start(t, now, current, speed).tracks,
            id,
        ) is Some <==> lookup(t.tracks, id) is Some) && (lookup(t.tracks, id) matches Some(a)
            ==> (lookup(spec_start(t, now, current, speed).tracks, id) matches Some(b)
            && same_but_pause(b, a)))),
{
    let n = t.pendings.len() as int;
    lemma_install_chains(t.tracks, t.pendings, now, current, speed, n, id);
    let installed = install_chains(t.tracks, t.pendings, now, current, speed, n);
    lemma_apply_ops_keeps(installed, t.pendings, now as int, n, id);
    lemma_pending_index_from(t.pendings, id, 0);
}

/// Every step of a chain moves time forward: a chain started at `now`
/// lasts from `now` to its end, and the keyframes of each of its columns
/// are in time order, none before the start nor after the end.
pub proof fn lemma_build_track_timing<V, S>(
    rows: Seq<Seq<Option<crate::frame::Frame<V, S>>>>,
    repeat: Repeat,
    paused: bool,
    now: i128,
    current: Seq<Option<V>>,
    speed: Seq<u128>,
)
    requires
        chain_ok(rows, now, current, speed),
    ensures
        ({
            let bt = build_track(rows, repeat, paused, now, current, speed);
            &&& track_ok(bt)
            &&& bt.meta.start == now
            &&& bt.meta.repeat == repeat
            &&& bt.columns.len() == rows[0].len()
        }),
{
    let re = resolve_rows(rows, current);
    let n = rows.len() as int;
    lemma_row_time_monotonic(now as int, re, speed, 0, n);
    let bt = build_track(rows, repeat, paused, now, current, speed);
    assert forall|j: int| 0 <= j < bt.columns.len() implies {
        let c = #[trigger] bt.columns[j];
        &&& forall|a: int, b: int| 0 <= a <= b < c.len() ==> c[a].at <= c[b].at
        &&& forall|a: int| 0 <= a < c.len() ==> now <= #[trigger] c[a].at <= bt.meta.end
    } by {
        lemma_column_of_timing(now, re, speed, j, n);
    }
}

proof fn lemma_column_of_timing<V, S>(
    now: i128,
    rows: Seq<Seq<Option<crate::frame::Frame<V, S>>>>,
    speed: Seq<u128>,
    j: int,
    r: int,
)
    requires
        0 <= r,
        row_time(now as int, rows, speed, r) <= i128::MAX,
    ensures
        ({
            let c = column_of(now as int, rows, speed, j, r);
            &&& forall|a: int, b: int| 0 <= a <= b < c.len() ==> c[a].at <= c[b].at
            &&& forall|a: int|
                0 <= a < c.len() ==> now <= #[trigger] c[a].at <= row_time(now as int, rows, speed, r)
        }),
    decreases r,
{
    if r > 0 {
        lemma_row_time_monotonic(now as int, rows, speed, r - 1, r);
        lemma_column_of_timing(now, rows, speed, j, r - 1);
        lemma_row_time_monotonic(now as int, rows, speed, 0, r - 1);
    }
}

/// A finished animation settles: once the timeline is at or past the end
/// of an animation that neither loops nor was ever paused, reading any of
/// its modifiers gives the value of that modifier's last keyframe, and
/// nothing else.
pub proof fn lemma_get_settles<V: PartialEq, S>(
    t: TimelineView<V, S>,
    id: u64,
    index: int,
    clock: i128,
    r: Option<Interpolation<V>>,
)
    requires
        timeline_wf(t),
        lookup(t.tracks, id) matches Some(tr) && tr.meta.repeat == Repeat::Never
            && tr.meta.pause == Pause::NoPause && 0 <= index < tr.columns.len()
            && tr.columns[index].len() > 0 && get_now(t, clock) >= tr.meta.end,
    ensures
        lookup(t.tracks, id) matches Some(tr) && (spec_reads(t, id, index, clock, r) <==> r == Some(
            Interpolation::Settled(tr.columns[index][tr.columns[index].len() - 1].value),
        )),
{
    lemma_index_of_key(t.tracks, id);
    let k = index_of_key(t.tracks, id).unwrap();
    let tr = t.tracks[k].1;
    assert(track_ok(tr));
    let col = tr.columns[index];
    let now = get_now(t, clock) as int;
    assert(relative_now(tr.meta, now) == now);
    assert forall|j: int| 1 <= j < col.len() implies now >= col[j].at by {
        assert(tr.columns[index][j].at <= tr.meta.end);
    }
    lemma_column_settles(col, now, r);
}

/// A paused animation is frozen: it reads the same whatever instant the
/// timeline is at.
pub proof fn lemma_paused_reads_frozen<V: PartialEq, S>(
    t: TimelineView<V, S>,
    id: u64,
    index: int,
    at1: i128,
    at2: i128,
    r: Option<Interpolation<V>>,
)
    requires
        lookup(t.tracks, id) matches Some(tr) && tr.meta.pause is Paused,
    ensures
        spec_reads(TimelineView { now: Some(at1), ..t }, id, index, 0, r) == spec_reads(
            TimelineView { now: Some(at2), ..t },
            id,
            index,
            0,
            r,
        ),
{
    let tr = lookup(t.tracks, id).unwrap();
    assert(pause_base(tr.meta.pause, at1 as int) == pause_base(tr.meta.pause, at2 as int));
}

/// A looping animation repeats: read a whole number of loops later (a loop
/// lasting the animation's length in whole milliseconds), a playing looping
/// animation reads the same. (Past `u64::MAX` milliseconds of looping the
/// loop count is clamped and this no longer holds.)
pub proof fn lemma_loop_repeats<V: PartialEq, S>(
    t: TimelineView<V, S>,
    id: u64,
    index: int,
    at: i128,
    loops: nat,
    r: Option<Interpolation<V>>,
)
    requires
        lookup(t.tracks, id) matches Some(tr) && tr.meta.repeat == Repeat::Forever && loop_ok(tr.meta)
            && tr.meta.pause == Pause::NoPause && at >= tr.meta.start && millis(
            at + loops * millis(tr.meta.length as int) * 1_000_000 - tr.meta.start,
        ) <= u64::MAX && at + loops * millis(tr.meta.length as int) * 1_000_000 <= i128::MAX,
    ensures
        ({
            let tr = lookup(t.tracks, id).unwrap();
            let later = (at + loops * millis(tr.meta.length as int) * 1_000_000) as i128;
            spec_reads(TimelineView { now: Some(at), ..t }, id, index, 0, r) == spec_reads(
                TimelineView { now: Some(later), ..t },
                id,
                index,
                0,
                r,
            )
        }),
{
    let tr = lookup(t.tracks, id).unwrap();
    lemma_relative_time_periodic(at as int, tr.meta, loops);
}

/// A cleared animation reads nothing, and clearing one animation leaves
/// every other as it was.
pub proof fn lemma_cleared_reads_nothing<V: PartialEq, S>(
    t: TimelineView<V, S>,
    id: u64,
    other: u64,
    index: int,
    clock: i128,
    r: Option<Interpolation<V>>,
)
    requires
        timeline_wf(t),
    ensures
        spec_reads(TimelineView { tracks: discard(t.tracks, id), ..t }, id, index, clock, r)
            <==> r is None,
        other != id ==> (spec_reads(
            TimelineView { tracks: discard(t.tracks, id), ..t },
            other,
            index,
            clock,
            r,
        ) == spec_reads(t, other, index, clock, r)),
{
    lemma_discard(t.tracks, id, other);
}

proof fn lemma_walk_between<V: PartialEq>(
    col: Seq<SubFrame<V>>,
    rel: int,
    i: int,
    acc: SubFrame<V>,
    r: Interpolation<V>,
)
    requires
        0 <= i,
        i128::MIN <= rel <= i128::MAX,
        reading_from(col, rel, i, acc, r),
    ensures
        r matches Interpolation::Between { previous, next, elapsed_millis, duration_millis, .. }
            ==> elapsed_millis <= duration_millis && (V::obeys_eq_spec() ==> !previous.eq_spec(
            &next,
        )),
    decreases col.len() - i,
{
    if i < col.len() {
        if reading_from(col, rel, i + 1, col[i], r) && (rel >= col[i].at || !V::obeys_eq_spec()
            || acc.value.eq_spec(&col[i].value)) {
            lemma_walk_between(col, rel, i + 1, col[i], r);
        } else {
            let e = elapsed(rel, acc.at as int);
            let d = elapsed(col[i].at as int, acc.at as int);
            assert(e <= d);
            assert(millis(e) <= millis(d)) by (nonlinear_arith)
                requires
                    0 <= e <= d,
            ;
            assert(0 <= millis(e));
            assert(d <= u128::MAX);
            assert(millis(d) <= d);
        }
    }
}

/// A reading between two keyframes is never past the step it is in: the
/// time elapsed into the step is at most the step's length (the fraction
/// an ease is applied to is at most one); and where `V`'s `==` follows
/// `eq_spec`, the two keyframes hold different values (equal ones are
/// passed over).
pub proof fn lemma_reading_within_step<V: PartialEq, S>(
    t: TimelineView<V, S>,
    id: u64,
    index: int,
    clock: i128,
    r: Option<Interpolation<V>>,
)
    requires
        get_ok(t, id, index, clock),
        spec_reads(t, id, index, clock, r),
    ensures
        r matches Some(Interpolation::Between { previous, next, elapsed_millis, duration_millis, .. })
            ==> elapsed_millis <= duration_millis && (V::obeys_eq_spec() ==> !previous.eq_spec(
            &next,
        )),
{
    match lookup(t.tracks, id) {
        Some(tr) => {
            if 0 <= index < tr.columns.len() && tr.columns[index].len() > 0 {
                let now = get_now(t, clock) as int;
                let base = pause_base(tr.meta.pause, now);
                lemma_relative_time_range(base, tr.meta);
                lemma_walk_between(
                    tr.columns[index],
                    relative_now(tr.meta, now),
                    1,
                    tr.columns[index][0],
                    r.unwrap(),
                );
            }
        },
        None => {},
    }
}

/// A start with nothing pending only moves the timeline to `now`.
pub proof fn lemma_start_without_requests<V, S>(
    t: TimelineView<V, S>,
    now: i128,
    current: Seq<Seq<Option<V>>>,
    speed: Seq<Seq<u128>>,
)
    requires
        t.pendings.len() == 0,
    ensures
        spec_start(t, now, current, speed) == (TimelineView { now: Some(now), ..t }),
{
    assert(spec_start(t, now, current, speed).pendings =~= t.pendings);
}


proof fn lemma_apply_ops_chains_only<V, S>(
    tracks: Seq<(u64, TrackView<V>)>,
    ps: Seq<PendingView<V, S>>,
    now: int,
    i: int,
)
    requires
        0 <= i <= ps.len(),
        forall|q: int| 0 <= q < ps.len() ==> #[trigger] ps[q] is Chain,
    ensures
        apply_ops(tracks, ps, now, i) == tracks,
    decreases i,
{
    if i > 0 {
        lemma_apply_ops_chains_only(tracks, ps, now, i - 1);
        assert(ps[i - 1] is Chain);
    }
}

/// A start with only chains pending installs each of them exactly as
/// [`build_track`] lays it out, pause state included: every chain set with
/// `set_chain` plays from `now`, every chain set with `set_chain_paused`
/// is paused at `now`.
pub proof fn lemma_start_chains_only<V, S>(
    t: TimelineView<V, S>,
    now: i128,
    current: Seq<Seq<Option<V>>>,
    speed: Seq<Seq<u128>>,
    id: u64,
)
    requires
        timeline_wf(t),
        forall|q: int| 0 <= q < t.pendings.len() ==> #[trigger] t.pendings[q] is Chain,
        pending_index_from(t.pendings, id, 0) is Some,
    ensures
        ({
            let k = pending_index_from(t.pendings, id, 0).unwrap();
            let tr = chain_track(t.pendings, now, current, speed, k);
            &&& lookup(spec_start(t, now, current, speed).tracks, id) == Some(tr)
            &&& tr.meta.start == now
            &&& tr.meta.pause == (if t.pendings[k]->Chain_3 {
                Pause::Paused(now)
            } else {
                Pause::NoPause
            })
        }),
{
    let n = t.pendings.len() as int;
    lemma_pending_index_from(t.pendings, id, 0);
    lemma_install_chains(t.tracks, t.pendings, now, current, speed, n, id);
    let installed = install_chains(t.tracks, t.pendings, now, current, speed, n);
    lemma_apply_ops_chains_only(installed, t.pendings, now as int, n);
}


/// Once the timeline has been given an instant, readings no longer depend
/// on the clock; a timeline with no started animation reads nothing.
pub proof fn lemma_reads_ignore_clock<V: PartialEq, S>(
    t: TimelineView<V, S>,
    id: u64,
    index: int,
    clock1: i128,
    clock2: i128,
    r: Option<Interpolation<V>>,
)
    ensures
        t.now is Some ==> (spec_reads(t, id, index, clock1, r) == spec_reads(t, id, index, clock2, r)),
        t.tracks.len() == 0 ==> (spec_reads(t, id, index, clock1, r) <==> r is None),
{
}


proof fn lemma_column_of_first<V, S>(
    now: i128,
    rows: Seq<Seq<Option<crate::frame::Frame<V, S>>>>,
    speed: Seq<u128>,
    j: int,
    r: int,
)
    requires
        1 <= r <= rows.len(),
        0 <= j < rows[0].len(),
        rows[0][j] is Some,
    ensures
        column_of(now as int, rows, speed, j, r).len() > 0,
        column_of(now as int, rows, speed, j, r)[0] == (SubFrame {
            value: frame_value(rows[0][j].unwrap()),
            ease: frame_ease(rows[0][j].unwrap()),
            at: now,
        }),
    decreases r,
{
    if r > 1 {
        lemma_column_of_first(now, rows, speed, j, r - 1);
    } else {
        assert(row_time(now as int, rows, speed, 0) == now as int);
        assert(column_of(now as int, rows, speed, j, 0).len() == 0);
    }
}

/// A chain starts from its first keyframe: each modifier with a frame in
/// the first row begins at `now` with that frame's value, where a lazy
/// frame takes the modifier's current value (`current[j]`, as the start
/// read it from the timeline) or, without one, its default.
pub proof fn lemma_first_keyframe<V, S>(
    rows: Seq<Seq<Option<crate::frame::Frame<V, S>>>>,
    repeat: Repeat,
    paused: bool,
    now: i128,
    current: Seq<Option<V>>,
    speed: Seq<u128>,
    j: int,
)
    requires
        chain_ok(rows, now, current, speed),
        0 <= j < rows[0].len(),
        rows[0][j] is Some,
    ensures
        ({
            let bt = build_track(rows, repeat, paused, now, current, speed);
            let f = rows[0][j].unwrap();
            &&& bt.columns[j].len() > 0
            &&& bt.columns[j][0] == (SubFrame {
                value: match f {
                    crate::frame::Frame::Lazy(_, default, _) => match current[j] {
                        Some(v) => v,
                        None => default,
                    },
                    crate::frame::Frame::Eager(_, v, _) => v,
                },
                ease: frame_ease(f),
                at: now,
            })
        }),
{
    let re = resolve_rows(rows, current);
    assert(re[0][j] == Some(spec_to_eager(rows[0][j].unwrap(), current[j])));
    lemma_column_of_first(now, re, speed, j, rows.len() as int);
}

/// A chain started paused waits on its first keyframe: until it is
/// resumed, it is read at its start instant, whatever the time.
pub proof fn lemma_started_paused_waits<V, S>(
    rows: Seq<Seq<Option<crate::frame::Frame<V, S>>>>,
    repeat: Repeat,
    now: i128,
    current: Seq<Option<V>>,
    speed: Seq<u128>,
    later: int,
)
    ensures
        relative_now(build_track(rows, repeat, true, now, current, speed).meta, later) == now,
{
    let m = build_track(rows, repeat, true, now, current, speed).meta;
    assert(pause_base(m.pause, later) == now as int);
    assert(elapsed(now as int, m.start as int) == 0);
    assert(millis(0) == 0);
    if m.repeat == Repeat::Forever {
        let len_ms = millis(m.length as int);
        let q = 0int / len_ms;
        if len_ms != 0 {
            assert(0int / len_ms == 0) by (nonlinear_arith)
                requires
                    len_ms >= 0,
                    len_ms != 0,
            ;
        } else {
            assert(q * len_ms == 0) by (nonlinear_arith)
                requires
                    len_ms == 0,
            ;
        }
    }
}


/// A pause or resume request for one id changes that id's animation only:
/// every other animation is left exactly as it was.
pub proof fn lemma_request_touches_only_its_id<V, S>(
    tracks: Seq<(u64, TrackView<V>)>,
    p: PendingView<V, S>,
    now: int,
    other: u64,
)
    requires
        keys_unique(tracks),
        p is Pause || p is Resume,
        pending_key(p) != Some(other),
    ensures
        lookup(apply_op(tracks, p, now), other) == lookup(tracks, other),
{
    match p {
        PendingView::Pause(id) => {
            match lookup(tracks, id) {
                Some(t) => lemma_store(tracks, id, pause_track(t, now), other),
                None => {},
            }
        },
        PendingView::Resume(id) => {
            match lookup(tracks, id) {
                Some(t) => lemma_store(tracks, id, resume_track(t, now), other),
                None => {},
            }
        },
        _ => {},
    }
}

proof fn lemma_apply_ops_unnamed<V, S>(
    tracks: Seq<(u64, TrackView<V>)>,
    ps: Seq<PendingView<V, S>>,
    now: int,
    i: int,
    other: u64,
)
    requires
        keys_unique(tracks),
        0 <= i <= ps.len(),
        forall|q: int|
            0 <= q < ps.len() ==> pending_key(#[trigger] ps[q]) != Some(other) && !(ps[q] is PauseAll)
                && !(ps[q] is ResumeAll),
    ensures
        lookup(apply_ops(tracks, ps, now, i), other) == lookup(tracks, other),
    decreases i,
{
    if i > 0 {
        lemma_apply_ops_unnamed(tracks, ps, now, i - 1, other);
        lemma_apply_ops_keeps(tracks, ps, now, i - 1, other);
        let before = apply_ops(tracks, ps, now, i - 1);
        let p = ps[i - 1];
        assert(pending_key(p) != Some(other));
        if p is Pause || p is Resume {
            lemma_request_touches_only_its_id(before, p, now, other);
        }
    }
}

/// A start leaves alone every animation that no pending request names:
/// when nothing pending is for `other` (no chain, pause or resume of that
/// id) and no request is for every animation, the animation of `other` is
/// exactly what it was, pause state included. In particular resuming one
/// animation never resumes another.
pub proof fn lemma_start_leaves_unnamed<V, S>(
    t: TimelineView<V, S>,
    now: i128,
    current: Seq<Seq<Option<V>>>,
    speed: Seq<Seq<u128>>,
    other: u64,
)
    requires
        timeline_wf(t),
        forall|q: int|
            0 <= q < t.pendings.len() ==> pending_key(#[trigger] t.pendings[q]) != Some(other)
                && !(t.pendings[q] is PauseAll) && !(t.pendings[q] is ResumeAll),
    ensures
        lookup(spec_start(t, now, current, speed).tracks, other) == lookup(t.tracks, other),
{
    let n = t.pendings.len() as int;
    lemma_pending_index_from(t.pendings, other, 0);
    lemma_install_chains(t.tracks, t.pendings, now, current, speed, n, other);
    let installed = install_chains(t.tracks, t.pendings, now, current, speed, n);
    lemma_apply_ops_unnamed(installed, t.pendings, now as int, n, other);
}

} // verus!
