//! The timeline: it holds every animation chain, keyed by an animation id,
//! starts pending chains in sync and says, for any modifier of any
//! animation, between which two keyframes it currently is.
use vstd::prelude::*;
use vstd::std_specs::cmp::PartialEqSpec;

use crate::ease::Ease;
use crate::frame::{
    frame_ease, frame_value, spec_step_duration, spec_to_eager, Frame, StepDuration, SubFrame,
};
use crate::keyframes::Repeat;
use crate::time::{
    elapsed, instant_add, instant_elapsed, instant_sub, instant_sub_ok, loop_ok, millis,
    pause_base_ok, relative_now, relative_time, room_above, spec_pause, spec_resume, Meta, Pause,
    NANOS_PER_MILLI,
};

pub mod laws;

verus! {

/// The rows of a chain (one per keyframe), each a sequence of modifiers.
pub open spec fn rows_view<T>(rows: Vec<Vec<T>>) -> Seq<Seq<T>> {
    rows@.map_values(|r: Vec<T>| r@)
}

/// An animation chain: for each keyframe, one optional frame per modifier
/// of the animated widget (column `i` is always the same modifier).
#[derive(Debug, Clone)]
pub struct Chain<V, S> {
    /// The id of the animation this chain belongs to.
    pub id: u64,
    /// Should we loop this animation? This field decides that.
    pub repeat: Repeat,
    /// The keyframes, row by row.
    pub links: Vec<Vec<Option<Frame<V, S>>>>,
}

impl<V, S> Chain<V, S> {
    /// The keyframes of the chain, row by row.
    pub open spec fn links(&self) -> Seq<Seq<Option<Frame<V, S>>>> {
        rows_view(self.links)
    }

    /// Create a new chain.
    pub fn new(id: u64, repeat: Repeat, links: Vec<Vec<Option<Frame<V, S>>>>) -> (c: Self)
        ensures
            c.id == id,
            c.repeat == repeat,
            c.links == links,
    {
        Chain { id, repeat, links }
    }
}

/// A request waiting for the next start of the timeline.
#[derive(Debug, Clone)]
pub enum Pending<V, S> {
    /// Start this chain (id, repeat, keyframe rows, start paused?).
    Chain(u64, Repeat, Vec<Vec<Option<Frame<V, S>>>>, bool),
    /// Pause the animation with this id.
    Pause(u64),
    /// Resume the animation with this id.
    Resume(u64),
    /// Pause every animation.
    PauseAll,
    /// Resume every animation.
    ResumeAll,
}

/// The mathematical view of a [`Pending`] request.
pub enum PendingView<V, S> {
    Chain(u64, Repeat, Seq<Seq<Option<Frame<V, S>>>>, bool),
    Pause(u64),
    Resume(u64),
    PauseAll,
    ResumeAll,
}

/// A pending request as its mathematical view.
pub open spec fn pending_view<V, S>(p: Pending<V, S>) -> PendingView<V, S> {
    match p {
        Pending::Chain(id, r, rows, paused) => PendingView::Chain(id, r, rows_view(rows), paused),
        Pending::Pause(id) => PendingView::Pause(id),
        Pending::Resume(id) => PendingView::Resume(id),
        Pending::PauseAll => PendingView::PauseAll,
        Pending::ResumeAll => PendingView::ResumeAll,
    }
}

/// The id a pending request is keyed by; the "all" requests have none of
/// their own (each one is kept).
pub open spec fn pending_key<V, S>(p: PendingView<V, S>) -> Option<u64> {
    match p {
        PendingView::Chain(id, _, _, _) => Some(id),
        PendingView::Pause(id) => Some(id),
        PendingView::Resume(id) => Some(id),
        PendingView::PauseAll => None,
        PendingView::ResumeAll => None,
    }
}

/// A started animation: its metadata and, per modifier, its keyframes
/// placed in time.
#[derive(Debug, Clone)]
pub struct Track<V> {
    /// When the animation started, ends, how long it is, whether it loops
    /// or is paused.
    pub meta: Meta,
    /// Per modifier, the keyframes in time order.
    pub columns: Vec<Vec<SubFrame<V>>>,
}

/// The mathematical view of a [`Track`].
pub struct TrackView<V> {
    pub meta: Meta,
    pub columns: Seq<Seq<SubFrame<V>>>,
}

/// A track as its mathematical view.
pub open spec fn track_view<V>(t: Track<V>) -> TrackView<V> {
    TrackView { meta: t.meta, columns: rows_view(t.columns) }
}

/// The tracks of a timeline, keyed by id, as their mathematical view.
pub open spec fn tracks_view<V>(s: Seq<(u64, Track<V>)>) -> Seq<(u64, TrackView<V>)> {
    s.map_values(|e: (u64, Track<V>)| (e.0, track_view(e.1)))
}

/// The first index at or after `i` holding key `id`.
pub open spec fn index_from<T>(s: Seq<(u64, T)>, id: u64, i: int) -> Option<int>
    decreases s.len() - i,
{
    if i < 0 || i >= s.len() {
        None
    } else if s[i].0 == id {
        Some(i)
    } else {
        index_from(s, id, i + 1)
    }
}

/// The first index holding key `id`.
pub open spec fn index_of_key<T>(s: Seq<(u64, T)>, id: u64) -> Option<int> {
    index_from(s, id, 0)
}

/// No key occurs twice.
pub open spec fn keys_unique<T>(s: Seq<(u64, T)>) -> bool {
    forall|a: int, b: int| 0 <= a < b < s.len() ==> s[a].0 != s[b].0
}

/// The value stored under `id`.
pub open spec fn lookup<T>(s: Seq<(u64, T)>, id: u64) -> Option<T> {
    match index_of_key(s, id) {
        Some(i) => Some(s[i].1),
        None => None,
    }
}

/// Stores `t` under `id`, replacing what was stored there.
pub open spec fn store<T>(s: Seq<(u64, T)>, id: u64, t: T) -> Seq<(u64, T)> {
    match index_of_key(s, id) {
        Some(i) => s.update(i, (id, t)),
        None => s.push((id, t)),
    }
}

/// Removes what is stored under `id`.
pub open spec fn discard<T>(s: Seq<(u64, T)>, id: u64) -> Seq<(u64, T)> {
    match index_of_key(s, id) {
        Some(i) => s.remove(i),
        None => s,
    }
}

/// The index found from `k` is the first one at or after `k` holding the key.
pub proof fn lemma_index_from<T>(s: Seq<(u64, T)>, id: u64, k: int)
    requires
        0 <= k,
    ensures
        match index_from(s, id, k) {
            Some(i) => k <= i < s.len() && s[i].0 == id && forall|j: int|
                k <= j < i ==> s[j].0 != id,
            None => forall|j: int| k <= j < s.len() ==> s[j].0 != id,
        },
    decreases s.len() - k,
{
    if k < s.len() && s[k].0 != id {
        lemma_index_from(s, id, k + 1);
    }
}

/// With unique keys, the index of a key is the one place it occurs.
pub proof fn lemma_index_of_key<T>(s: Seq<(u64, T)>, id: u64)
    requires
        keys_unique(s),
    ensures
        match index_of_key(s, id) {
            Some(i) => 0 <= i < s.len() && s[i].0 == id && forall|j: int|
                0 <= j < s.len() && j != i ==> s[j].0 != id,
            None => forall|j: int| 0 <= j < s.len() ==> s[j].0 != id,
        },
{
    lemma_index_from(s, id, 0);
}

/// Storing keeps keys unique, stores under one key and leaves the others
/// alone.
pub proof fn lemma_store<T>(s: Seq<(u64, T)>, id: u64, t: T, other: u64)
    requires
        keys_unique(s),
    ensures
        keys_unique(store(s, id, t)),
        lookup(store(s, id, t), id) == Some(t),
        other != id ==> lookup(store(s, id, t), other) == lookup(s, other),
{
    lemma_index_of_key(s, id);
    lemma_index_of_key(s, other);
    let s2 = store(s, id, t);
    let pos: int = match index_of_key(s, id) {
        Some(i) => i,
        None => s.len() as int,
    };
    assert(s2.len() == if pos == s.len() { s.len() + 1 } else { s.len() + 0 });
    assert(forall|j: int| 0 <= j < s2.len() && j != pos ==> s2[j] == s[j]);
    assert(s2[pos] == (id, t));
    assert(keys_unique(s2));
    lemma_index_of_key(s2, id);
    lemma_index_of_key(s2, other);
    if other != id {
        match index_of_key(s, other) {
            Some(k) => {
                assert(s2[k] == s[k]);
            },
            None => {
            },
        }
    }
}

/// Removing keeps keys unique, removes one key and leaves the others alone.
pub proof fn lemma_discard<T>(s: Seq<(u64, T)>, id: u64, other: u64)
    requires
        keys_unique(s),
    ensures
        keys_unique(discard(s, id)),
        lookup(discard(s, id), id) == None::<T>,
        other != id ==> lookup(discard(s, id), other) == lookup(s, other),
{
    lemma_index_of_key(s, id);
    lemma_index_of_key(s, other);
    let s2 = discard(s, id);
    match index_of_key(s, id) {
        Some(i) => {
            assert(forall|j: int| 0 <= j < i ==> s2[j] == s[j]);
            assert(forall|j: int| i <= j < s2.len() ==> s2[j] == s[j + 1]);
        },
        None => {
        },
    }
    assert(keys_unique(s2));
    lemma_index_of_key(s2, id);
    lemma_index_of_key(s2, other);
    if other != id {
        match (index_of_key(s, id), index_of_key(s, other)) {
            (Some(i), Some(k)) => {
                if k < i {
                    assert(s2[k] == s[k]);
                } else {
                    assert(s2[k - 1] == s[k]);
                }
            },
            _ => {
            },
        }
    }
}

/// The mathematical view of a [`Timeline`].
pub struct TimelineView<V, S> {
    /// Started animations, by id.
    pub tracks: Seq<(u64, TrackView<V>)>,
    /// Requests waiting for the next start, in list order: a new request
    /// for an id takes the place of the one it replaces, others go last.
    pub pendings: Seq<PendingView<V, S>>,
    /// The instant the timeline was last told it is.
    pub now: Option<i128>,
}

/// The index of the pending request keyed by `id`, at or after `i`.
pub open spec fn pending_index_from<V, S>(s: Seq<PendingView<V, S>>, id: u64, i: int) -> Option<int>
    decreases s.len() - i,
{
    if i < 0 || i >= s.len() {
        None
    } else if pending_key(s[i]) == Some(id) {
        Some(i)
    } else {
        pending_index_from(s, id, i + 1)
    }
}

/// Adds a request keyed by `id`, replacing any request with the same id.
pub open spec fn store_pending<V, S>(s: Seq<PendingView<V, S>>, id: u64, p: PendingView<V, S>) -> Seq<
    PendingView<V, S>,
> {
    match pending_index_from(s, id, 0) {
        Some(i) => s.update(i, p),
        None => s.push(p),
    }
}

/// No id has two pending requests.
pub open spec fn pending_keys_unique<V, S>(s: Seq<PendingView<V, S>>) -> bool {
    forall|a: int, b: int|
        0 <= a < b < s.len() && pending_key(s[a]) is Some ==> pending_key(s[a]) != pending_key(s[b])
}

/// The request pending for `id`.
pub open spec fn pending_for<V, S>(s: Seq<PendingView<V, S>>, id: u64) -> Option<PendingView<V, S>> {
    match pending_index_from(s, id, 0) {
        Some(i) => Some(s[i]),
        None => None,
    }
}

/// The pending index found from `k` is the first one at or after `k` for the id.
pub proof fn lemma_pending_index_from<V, S>(s: Seq<PendingView<V, S>>, id: u64, k: int)
    requires
        0 <= k,
    ensures
        match pending_index_from(s, id, k) {
            Some(i) => k <= i < s.len() && pending_key(s[i]) == Some(id) && forall|j: int|
                k <= j < i ==> pending_key(s[j]) != Some(id),
            None => forall|j: int| k <= j < s.len() ==> pending_key(s[j]) != Some(id),
        },
    decreases s.len() - k,
{
    if k < s.len() && pending_key(s[k]) != Some(id) {
        lemma_pending_index_from(s, id, k + 1);
    }
}

/// Adding a keyed request keeps ids unique, makes it the request pending
/// for its id and leaves every other id's request alone.
pub proof fn lemma_store_pending<V, S>(
    s: Seq<PendingView<V, S>>,
    id: u64,
    p: PendingView<V, S>,
    other: u64,
)
    requires
        pending_keys_unique(s),
        pending_key(p) == Some(id),
    ensures
        pending_keys_unique(store_pending(s, id, p)),
        pending_for(store_pending(s, id, p), id) == Some(p),
        other != id ==> pending_for(store_pending(s, id, p), other) == pending_for(s, other),
{
    lemma_pending_index_from(s, id, 0);
    lemma_pending_index_from(s, other, 0);
    let s2 = store_pending(s, id, p);
    let pos: int = match pending_index_from(s, id, 0) {
        Some(i) => i,
        None => s.len() as int,
    };
    assert(forall|j: int| 0 <= j < s2.len() && j != pos ==> s2[j] == s[j]);
    assert(s2[pos] == p);
    assert(forall|j: int| 0 <= j < s.len() && j != pos ==> pending_key(s[j]) != Some(id));
    assert(pending_keys_unique(s2));
    lemma_pending_index_from(s2, id, 0);
    lemma_pending_index_from(s2, other, 0);
    match pending_index_from(s2, id, 0) {
        Some(i) => {
            assert(i == pos);
        },
        None => {
        },
    }
    if other != id {
        match pending_index_from(s, other, 0) {
            Some(k) => {
                assert(s2[k] == s[k]);
                match pending_index_from(s2, other, 0) {
                    Some(k2) => {
                        if k2 < k {
                            assert(s2[k2] == s[k2]);
                        }
                        assert(k2 == k);
                    },
                    None => {
                    },
                }
            },
            None => {
                match pending_index_from(s2, other, 0) {
                    Some(k2) => {
                        assert(s2[k2] == s[k2]);
                    },
                    None => {
                    },
                }
            },
        }
    }
}

/// What a modifier of an animation is doing at an instant.
#[derive(Debug, Clone, Copy, PartialEq)]
pub enum Interpolation<V> {
    /// Past its last keyframe (or with a single keyframe): holds this value.
    Settled(V),
    /// Between two keyframes: moving from `previous` to `next`, `elapsed_millis`
    /// into a step of `duration_millis`, eased by `ease`.
    Between { previous: V, next: V, elapsed_millis: u128, duration_millis: u128, ease: Ease },
}

/// Whether `r` is what walking a column of keyframes from index `i` gives
/// at relative instant `rel`, `acc` being the keyframe reached so far.
/// A keyframe the instant has reached is passed. A keyframe not yet
/// reached is passed when it holds the same value as `acc` (by `V`'s
/// `==`), and is otherwise the one being moved towards. When `V`'s `==`
/// follows `eq_spec` this is a function of the column; otherwise each such
/// comparison may go either way.
pub open spec fn reading_from<V: PartialEq>(
    col: Seq<SubFrame<V>>,
    rel: int,
    i: int,
    acc: SubFrame<V>,
    r: Interpolation<V>,
) -> bool
    decreases col.len() - i,
{
    if i < 0 || i >= col.len() {
        r == Interpolation::Settled(acc.value)
    } else if rel >= col[i].at {
        reading_from(col, rel, i + 1, col[i], r)
    } else {
        let same = acc.value.eq_spec(&col[i].value);
        ||| (!V::obeys_eq_spec() || same) && reading_from(col, rel, i + 1, col[i], r)
        ||| (!V::obeys_eq_spec() || !same) && r == step_reading(acc, col[i], rel)
    }
}

/// The reading between keyframe `acc` and the next keyframe `next`, at
/// relative instant `rel`.
pub open spec fn step_reading<V>(acc: SubFrame<V>, next: SubFrame<V>, rel: int) -> Interpolation<V> {
    Interpolation::Between {
        previous: acc.value,
        next: next.value,
        elapsed_millis: millis(elapsed(rel, acc.at as int)) as u128,
        duration_millis: millis(elapsed(next.at as int, acc.at as int)) as u128,
        ease: next.ease,
    }
}

/// Whether `r` is what a column of keyframes gives at relative instant
/// `rel`: nothing for an empty column, else a walk from its first keyframe.
pub open spec fn column_reads<V: PartialEq>(
    col: Seq<SubFrame<V>>,
    rel: int,
    r: Option<Interpolation<V>>,
) -> bool {
    if col.len() == 0 {
        r is None
    } else {
        r matches Some(x) && reading_from(col, rel, 1, col[0], x)
    }
}

/// The instant a timeline reads animations at: the one it was last given,
/// or the clock when it was never given one.
pub open spec fn get_now<V, S>(t: TimelineView<V, S>, clock: i128) -> i128 {
    match t.now {
        Some(n) => n,
        None => clock,
    }
}

/// Whether `r` is what reading modifier `index` of animation `id` gives:
/// nothing for an animation that was never started (or was cleared), for a
/// modifier it does not have or one without keyframes; else what its
/// column gives at the animation's relative instant (see [`relative_now`]).
pub open spec fn spec_reads<V: PartialEq, S>(
    t: TimelineView<V, S>,
    id: u64,
    index: int,
    clock: i128,
    r: Option<Interpolation<V>>,
) -> bool {
    match lookup(t.tracks, id) {
        None => r is None,
        Some(track) => if 0 <= index < track.columns.len() {
            column_reads(track.columns[index], relative_now(track.meta, get_now(t, clock) as int), r)
        } else {
            r is None
        },
    }
}

/// Reading modifier `index` of animation `id` is defined: a looping
/// animation is at least a millisecond long, and a resumed one's delay
/// leaves a valid instant.
pub open spec fn get_ok<V, S>(t: TimelineView<V, S>, id: u64, index: int, clock: i128) -> bool {
    match lookup(t.tracks, id) {
        None => true,
        Some(track) => !(0 <= index < track.columns.len()) || (loop_ok(track.meta)
            && pause_base_ok(track.meta.pause, get_now(t, clock) as int)),
    }
}

/// Does some animation still need redrawing: the timeline has been given
/// an instant, and some playing animation loops or has not yet ended.
pub open spec fn spec_needs_frames<V, S>(t: TimelineView<V, S>) -> bool {
    match t.now {
        None => false,
        Some(now) => exists|i: int|
            0 <= i < t.tracks.len() && {
                let m = #[trigger] t.tracks[i].1.meta;
                &&& !(m.pause is Paused)
                &&& (m.repeat == Repeat::Forever || m.end >= now)
            },
    }
}

/// An animation still wants redrawing at `now`: it is not paused, and it
/// loops or has not ended.
pub open spec fn frames_wanted(m: Meta, now: i128) -> bool {
    !(m.pause is Paused) && (m.repeat == Repeat::Forever || m.end >= now)
}

/// Redrawing is needed exactly when the timeline has an instant and some
/// started animation, wherever it is among the tracks, is playing and
/// loops or has not ended; a paused or finished animation asks for none.
pub proof fn lemma_needs_frames<V, S>(t: TimelineView<V, S>, i: int)
    ensures
        t.now is None ==> !spec_needs_frames(t),
        t.now is Some && 0 <= i < t.tracks.len() && frames_wanted(t.tracks[i].1.meta, t.now.unwrap())
            ==> spec_needs_frames(t),
        spec_needs_frames(t) ==> exists|k: int|
            0 <= k < t.tracks.len() && frames_wanted(#[trigger] t.tracks[k].1.meta, t.now.unwrap()),
        (forall|k: int|
            0 <= k < t.tracks.len() ==> !frames_wanted(#[trigger] t.tracks[k].1.meta, t.now.unwrap()))
            ==> !spec_needs_frames(t),
{
    if t.now is Some && 0 <= i < t.tracks.len() {
        let _ = t.tracks[i].1.meta;
    }
}

/// When `V`'s `==` follows `eq_spec`, a walk gives exactly one reading.
pub proof fn lemma_reading_unique<V: PartialEq>(
    col: Seq<SubFrame<V>>,
    rel: int,
    i: int,
    acc: SubFrame<V>,
    r1: Interpolation<V>,
    r2: Interpolation<V>,
)
    requires
        V::obeys_eq_spec(),
        reading_from(col, rel, i, acc, r1),
        reading_from(col, rel, i, acc, r2),
    ensures
        r1 == r2,
    decreases col.len() - i,
{
    if 0 <= i < col.len() {
        if rel >= col[i].at || acc.value.eq_spec(&col[i].value) {
            lemma_reading_unique(col, rel, i + 1, col[i], r1, r2);
        }
    }
}

/// Past its last keyframe, a modifier holds the last keyframe's value.
pub proof fn lemma_column_settles<V: PartialEq>(
    col: Seq<SubFrame<V>>,
    rel: int,
    r: Option<Interpolation<V>>,
)
    requires
        col.len() > 0,
        forall|j: int| 1 <= j < col.len() ==> rel >= col[j].at,
    ensures
        column_reads(col, rel, r) <==> r == Some(Interpolation::Settled(col[col.len() - 1].value)),
{
    match r {
        Some(x) => lemma_walk_past(col, rel, 1, col[0], x),
        None => {},
    }
}

proof fn lemma_walk_past<V: PartialEq>(
    col: Seq<SubFrame<V>>,
    rel: int,
    i: int,
    acc: SubFrame<V>,
    r: Interpolation<V>,
)
    requires
        1 <= i <= col.len(),
        i == 1 ==> acc == col[0],
        forall|j: int| i <= j < col.len() ==> rel >= col[j].at,
    ensures
        reading_from(col, rel, i, acc, r) <==> r == Interpolation::Settled(
            if i < col.len() {
                col[col.len() - 1].value
            } else {
                acc.value
            },
        ),
    decreases col.len() - i,
{
    if i < col.len() {
        lemma_walk_past(col, rel, i + 1, col[i], r);
    }
}

/// A row of keyframes made eager: each lazy frame takes the current value
/// of its modifier (column), when there is one.
pub open spec fn resolve_row<V, S>(row: Seq<Option<Frame<V, S>>>, current: Seq<Option<V>>) -> Seq<
    Option<Frame<V, S>>,
> {
    Seq::new(
        row.len(),
        |j: int|
            match row[j] {
                Some(f) => Some(spec_to_eager(f, current[j])),
                None => None,
            },
    )
}

/// Every row of a chain made eager.
pub open spec fn resolve_rows<V, S>(
    rows: Seq<Seq<Option<Frame<V, S>>>>,
    current: Seq<Option<V>>,
) -> Seq<Seq<Option<Frame<V, S>>>> {
    Seq::new(rows.len(), |r: int| resolve_row(rows[r], current))
}

/// The first column, at or after `c`, where both rows have a frame.
pub open spec fn first_common_from<F>(a: Seq<Option<F>>, b: Seq<Option<F>>, c: int) -> Option<int>
    decreases a.len() - c,
{
    if c < 0 || c >= a.len() || c >= b.len() {
        None
    } else if a[c] is Some && b[c] is Some {
        Some(c)
    } else {
        first_common_from(a, b, c + 1)
    }
}

/// The step from row `r` to row `r + 1`: its duration is the one of the
/// frame of row `r + 1` in the first column where both rows have a frame;
/// there is no step after the last row, nor between rows that share no column.
pub open spec fn step_of<V, S>(rows: Seq<Seq<Option<Frame<V, S>>>>, r: int) -> Option<
    StepDuration<V, S>,
> {
    if 0 <= r && r + 1 < rows.len() {
        match first_common_from(rows[r], rows[r + 1], 0) {
            Some(c) => Some(spec_step_duration(rows[r + 1][c].unwrap(), rows[r][c].unwrap())),
            None => None,
        }
    } else {
        None
    }
}

/// How long the step after row `r` lasts, in nanoseconds; `speed[r]` is
/// the duration derived for it when it is given by a speed.
pub open spec fn step_nanos<V, S>(
    rows: Seq<Seq<Option<Frame<V, S>>>>,
    speed: Seq<u128>,
    r: int,
) -> int {
    match step_of(rows, r) {
        Some(StepDuration::Fixed(d)) => d as int,
        Some(StepDuration::BySpeed(_, _, _)) => speed[r] as int,
        None => 0,
    }
}

/// The instant row `r` of a chain started at `now` is placed at: the sum
/// of the steps before it. `row_time(.., rows.len())` is when the chain ends.
pub open spec fn row_time<V, S>(
    now: int,
    rows: Seq<Seq<Option<Frame<V, S>>>>,
    speed: Seq<u128>,
    r: int,
) -> int
    decreases r,
{
    if r <= 0 {
        now
    } else {
        row_time(now, rows, speed, r - 1) + step_nanos(rows, speed, r - 1)
    }
}

/// The keyframes of column `j` among the first `r` rows, placed in time.
pub open spec fn column_of<V, S>(
    now: int,
    rows: Seq<Seq<Option<Frame<V, S>>>>,
    speed: Seq<u128>,
    j: int,
    r: int,
) -> Seq<SubFrame<V>>
    decreases r,
{
    if r <= 0 {
        Seq::empty()
    } else {
        let c = column_of(now, rows, speed, j, r - 1);
        if 0 <= j < rows[r - 1].len() && rows[r - 1][j] is Some {
            c.push(
                SubFrame {
                    value: frame_value(rows[r - 1][j].unwrap()),
                    ease: frame_ease(rows[r - 1][j].unwrap()),
                    at: row_time(now, rows, speed, r - 1) as i128,
                },
            )
        } else {
            c
        }
    }
}

/// A chain can be started at `now`: it has a first row, no later row has
/// a frame past the first row's modifiers, there is a current value per
/// modifier, a derived duration per row, and it ends at a valid instant.
pub open spec fn chain_ok<V, S>(
    rows: Seq<Seq<Option<Frame<V, S>>>>,
    now: i128,
    current: Seq<Option<V>>,
    speed: Seq<u128>,
) -> bool {
    &&& rows_fit(rows)
    &&& current.len() == rows[0].len()
    &&& speed.len() == rows.len()
    &&& row_time(now as int, resolve_rows(rows, current), speed, rows.len() as int) <= i128::MAX
}

/// The track a chain becomes when started at `now`: it starts at `now`,
/// ends after all its steps, and each column lists that modifier's frames
/// (made eager) in row order, each at its row's instant. A chain set to
/// start paused is paused on its first frame.
pub open spec fn build_track<V, S>(
    rows: Seq<Seq<Option<Frame<V, S>>>>,
    repeat: Repeat,
    paused: bool,
    now: i128,
    current: Seq<Option<V>>,
    speed: Seq<u128>,
) -> TrackView<V> {
    let re = resolve_rows(rows, current);
    let end = row_time(now as int, re, speed, rows.len() as int);
    TrackView {
        meta: Meta {
            repeat,
            start: now,
            end: end as i128,
            length: (end - now) as u128,
            pause: if paused {
                Pause::Paused(now)
            } else {
                Pause::NoPause
            },
        },
        columns: Seq::new(
            rows[0].len(),
            |j: int| column_of(now as int, re, speed, j, rows.len() as int),
        ),
    }
}

/// Steps never go back in time.
pub proof fn lemma_row_time_monotonic<V, S>(
    now: int,
    rows: Seq<Seq<Option<Frame<V, S>>>>,
    speed: Seq<u128>,
    a: int,
    b: int,
)
    requires
        0 <= a <= b,
    ensures
        row_time(now, rows, speed, a) <= row_time(now, rows, speed, b),
        row_time(now, rows, speed, a) >= now,
    decreases b,
{
    if b > a {
        lemma_row_time_monotonic(now, rows, speed, a, b - 1);
    } else {
        lemma_row_time_at_least_start(now, rows, speed, a);
    }
}

proof fn lemma_row_time_at_least_start<V, S>(
    now: int,
    rows: Seq<Seq<Option<Frame<V, S>>>>,
    speed: Seq<u128>,
    a: int,
)
    ensures
        row_time(now, rows, speed, a) >= now,
    decreases a,
{
    if a > 0 {
        lemma_row_time_at_least_start(now, rows, speed, a - 1);
    }
}

proof fn lemma_first_common_in<F>(a: Seq<Option<F>>, b: Seq<Option<F>>, c: int)
    requires
        0 <= c,
    ensures
        first_common_from(a, b, c) matches Some(i) ==> c <= i < a.len() && i < b.len() && a[i] is Some
            && b[i] is Some,
    decreases a.len() - c,
{
    if c < a.len() && c < b.len() && !(a[c] is Some && b[c] is Some) {
        lemma_first_common_in(a, b, c + 1);
    }
}

/// The track after pausing it at `now`.
pub open spec fn pause_track<V>(t: TrackView<V>, now: int) -> TrackView<V> {
    TrackView { meta: spec_pause(t.meta, now), ..t }
}

/// The track after resuming it at `now`.
pub open spec fn resume_track<V>(t: TrackView<V>, now: int) -> TrackView<V> {
    TrackView { meta: spec_resume(t.meta, now), ..t }
}

/// Pausing a track at `now` is defined.
pub open spec fn pause_ok<V>(t: TrackView<V>, now: int) -> bool {
    loop_ok(t.meta) && (t.meta.pause is Resumed ==> pause_base_ok(t.meta.pause, now))
}

/// Every pending chain among the first `i` requests, started at `now` and
/// stored under its id, in list order.
pub open spec fn install_chains<V, S>(
    tracks: Seq<(u64, TrackView<V>)>,
    ps: Seq<PendingView<V, S>>,
    now: i128,
    current: Seq<Seq<Option<V>>>,
    speed: Seq<Seq<u128>>,
    i: int,
) -> Seq<(u64, TrackView<V>)>
    decreases i,
{
    if i <= 0 {
        tracks
    } else {
        let t = install_chains(tracks, ps, now, current, speed, i - 1);
        match ps[i - 1] {
            PendingView::Chain(id, repeat, rows, paused) => store(
                t,
                id,
                build_track(rows, repeat, paused, now, current[i - 1], speed[i - 1]),
            ),
            _ => t,
        }
    }
}

/// The tracks after a pause or resume request (a chain request does
/// nothing here; chains are installed first).
pub open spec fn apply_op<V, S>(
    tracks: Seq<(u64, TrackView<V>)>,
    p: PendingView<V, S>,
    now: int,
) -> Seq<(u64, TrackView<V>)> {
    match p {
        PendingView::Pause(id) => match lookup(tracks, id) {
            Some(t) => store(tracks, id, pause_track(t, now)),
            None => tracks,
        },
        PendingView::Resume(id) => match lookup(tracks, id) {
            Some(t) => store(tracks, id, resume_track(t, now)),
            None => tracks,
        },
        PendingView::PauseAll => tracks.map_values(
            |e: (u64, TrackView<V>)| (e.0, pause_track(e.1, now)),
        ),
        PendingView::ResumeAll => tracks.map_values(
            |e: (u64, TrackView<V>)| (e.0, resume_track(e.1, now)),
        ),
        PendingView::Chain(_, _, _, _) => tracks,
    }
}

/// A pause or resume request is defined on these tracks.
pub open spec fn op_ok<V, S>(tracks: Seq<(u64, TrackView<V>)>, p: PendingView<V, S>, now: int) -> bool {
    match p {
        PendingView::Pause(id) => match lookup(tracks, id) {
            Some(t) => pause_ok(t, now),
            None => true,
        },
        PendingView::PauseAll => forall|k: int|
            0 <= k < tracks.len() ==> pause_ok(#[trigger] tracks[k].1, now),
        _ => true,
    }
}

/// The first `i` pause and resume requests applied in list order.
pub open spec fn apply_ops<V, S>(
    tracks: Seq<(u64, TrackView<V>)>,
    ps: Seq<PendingView<V, S>>,
    now: int,
    i: int,
) -> Seq<(u64, TrackView<V>)>
    decreases i,
{
    if i <= 0 {
        tracks
    } else {
        apply_op(apply_ops(tracks, ps, now, i - 1), ps[i - 1], now)
    }
}

/// Each of the first `i` pause and resume requests is defined when its turn comes.
pub open spec fn ops_ok<V, S>(
    tracks: Seq<(u64, TrackView<V>)>,
    ps: Seq<PendingView<V, S>>,
    now: int,
    i: int,
) -> bool
    decreases i,
{
    if i <= 0 {
        true
    } else {
        ops_ok(tracks, ps, now, i - 1) && op_ok(apply_ops(tracks, ps, now, i - 1), ps[i - 1], now)
    }
}

/// Starting the pending requests at `now` is defined, given the current
/// value of each modifier of each pending chain (`current[i]` for request
/// `i`) and the durations derived from speeds (`speed[i]`).
pub open spec fn start_ok<V, S>(
    t: TimelineView<V, S>,
    now: i128,
    current: Seq<Seq<Option<V>>>,
    speed: Seq<Seq<u128>>,
) -> bool {
    let n = t.pendings.len() as int;
    &&& current.len() == n
    &&& speed.len() == n
    &&& forall|i: int|
        0 <= i < n ==> (#[trigger] t.pendings[i] matches PendingView::Chain(_, _, rows, _)
            ==> chain_ok(rows, now, current[i], speed[i]))
    &&& ops_ok(install_chains(t.tracks, t.pendings, now, current, speed, n), t.pendings, now as int, n)
}

/// The timeline after starting its pending requests at `now`: every pending
/// chain is started at `now` (replacing the animation of its id), then the
/// pause and resume requests apply in list order (see
/// [`TimelineView::pendings`]); nothing is
/// left pending and the timeline is at `now`.
pub open spec fn spec_start<V, S>(
    t: TimelineView<V, S>,
    now: i128,
    current: Seq<Seq<Option<V>>>,
    speed: Seq<Seq<u128>>,
) -> TimelineView<V, S> {
    let n = t.pendings.len() as int;
    TimelineView {
        tracks: apply_ops(
            install_chains(t.tracks, t.pendings, now, current, speed, n),
            t.pendings,
            now as int,
            n,
        ),
        pendings: Seq::empty(),
        now: Some(now),
    }
}

/// Some keyframe of the chain has a lazy frame in column `j`.
pub open spec fn has_lazy_at<V, S>(rows: Seq<Seq<Option<Frame<V, S>>>>, j: int) -> bool {
    exists|r: int|
        0 <= r < rows.len() && 0 <= j < rows[r].len() && (#[trigger] rows[r][j] matches Some(f)
            && f is Lazy)
}

/// No row holds a frame at or past modifier `width` (a row may be longer,
/// with nothing there).
pub open spec fn frames_within<V, S>(rows: Seq<Seq<Option<Frame<V, S>>>>, width: int) -> bool {
    forall|r: int, j: int|
        0 <= r < rows.len() && width <= j < rows[r].len() ==> #[trigger] rows[r][j] is None
}

/// The chain has a first row, and no later row holds a frame for a
/// modifier the first row does not have.
pub open spec fn rows_fit<V, S>(rows: Seq<Seq<Option<Frame<V, S>>>>) -> bool {
    rows.len() > 0 && frames_within(rows, rows[0].len() as int)
}

/// The current values of the pending chains' modifiers can be read: every
/// pending chain has a first row, and each modifier that has a lazy frame
/// can be read from the timeline.
pub open spec fn resolvable<V, S>(t: TimelineView<V, S>, clock: i128) -> bool {
    forall|i: int|
        0 <= i < t.pendings.len() ==> (#[trigger] t.pendings[i] matches PendingView::Chain(
            id,
            _,
            rows,
            _,
        ) ==> rows.len() > 0 && forall|j: int|
            0 <= j < rows[0].len() && has_lazy_at(rows, j) ==> get_ok(t, id, j, clock))
}

/// `v` is the current value of modifier `j` of the animation `id`, as a
/// lazy frame takes it: what interpolating a reading of that modifier
/// (see [`spec_reads`]) gives (`interp` relates a reading to its value),
/// or none when the reading is none; a modifier without lazy frames needs
/// none.
pub open spec fn current_value_ok<V: PartialEq, S>(
    t: TimelineView<V, S>,
    clock: i128,
    id: u64,
    rows: Seq<Seq<Option<Frame<V, S>>>>,
    j: int,
    v: Option<V>,
    interp: spec_fn(Interpolation<V>, V) -> bool,
) -> bool {
    if has_lazy_at(rows, j) {
        exists|r: Option<Interpolation<V>>|
            #[trigger] spec_reads(t, id, j, clock, r) && value_of_reading(r, v, interp)
    } else {
        v is None
    }
}

/// `v` is the value a lazy frame continues from, given reading `r` of
/// its modifier: none without a reading, else what `interp` makes of it.
pub open spec fn value_of_reading<V>(
    r: Option<Interpolation<V>>,
    v: Option<V>,
    interp: spec_fn(Interpolation<V>, V) -> bool,
) -> bool {
    match r {
        None => v is None,
        Some(reading) => v matches Some(x) && interp(reading, x),
    }
}

/// `current[i]` holds the current values for pending chain `i`.
pub open spec fn current_ok<V: PartialEq, S>(
    t: TimelineView<V, S>,
    clock: i128,
    current: Seq<Seq<Option<V>>>,
    interp: spec_fn(Interpolation<V>, V) -> bool,
) -> bool {
    &&& current.len() == t.pendings.len()
    &&& forall|i: int|
        0 <= i < t.pendings.len() ==> (#[trigger] t.pendings[i] matches PendingView::Chain(
            id,
            _,
            rows,
            _,
        ) ==> current[i].len() == rows[0].len() && forall|j: int|
            0 <= j < rows[0].len() ==> current_value_ok(t, clock, id, rows, j, #[trigger] current[i][j], interp))
}

/// `speed[i]` holds, for pending chain `i` (made eager with `current[i]`),
/// the duration of each step given by a speed (`derive` relates a speed
/// and the two values to the duration), and zero for the other rows.
pub open spec fn speed_ok<V, S>(
    t: TimelineView<V, S>,
    current: Seq<Seq<Option<V>>>,
    speed: Seq<Seq<u128>>,
    derive: spec_fn(S, V, V, u128) -> bool,
) -> bool {
    &&& speed.len() == t.pendings.len()
    &&& forall|i: int|
        0 <= i < t.pendings.len() ==> (#[trigger] t.pendings[i] matches PendingView::Chain(
            _,
            _,
            rows,
            _,
        ) ==> rows_fit(rows) ==> speed[i].len() == rows.len() && forall|r: int|
            0 <= r < rows.len() ==> match step_of(resolve_rows(rows, current[i]), r) {
                Some(StepDuration::BySpeed(s, a, b)) => derive(s, a, b, #[trigger] speed[i][r]),
                _ => speed[i][r] == 0,
            })
}

/// This holds all the data for your animations.
/// tracks: the started animations;
/// pendings: requests that wait for the next start;
/// now: the instant used to calculate animation interpolations.
#[derive(Debug, Clone)]
pub struct Timeline<V, S> {
    tracks: Vec<(u64, Track<V>)>,
    pendings: Vec<Pending<V, S>>,
    now: Option<i128>,
}

impl<V, S> View for Timeline<V, S> {
    type V = TimelineView<V, S>;

    closed spec fn view(&self) -> TimelineView<V, S> {
        TimelineView {
            tracks: tracks_view(self.tracks@),
            pendings: self.pendings@.map_values(|p: Pending<V, S>| pending_view(p)),
            now: self.now,
        }
    }
}

/// A started animation is laid out in time: it lasts from its start to its
/// end, and the keyframes of each modifier are in time order, none before
/// the start nor after the end.
pub open spec fn track_ok<V>(t: TrackView<V>) -> bool {
    &&& t.meta.start <= t.meta.end
    &&& t.meta.length == t.meta.end - t.meta.start
    &&& forall|j: int, a: int, b: int|
        0 <= j < t.columns.len() && 0 <= a <= b < t.columns[j].len() ==> #[trigger] t.columns[j][a].at
            <= #[trigger] t.columns[j][b].at
    &&& forall|j: int, a: int|
        0 <= j < t.columns.len() && 0 <= a < t.columns[j].len() ==> t.meta.start
            <= #[trigger] t.columns[j][a].at <= t.meta.end
}

/// Every started animation is laid out in time.
pub open spec fn tracks_ok<V>(s: Seq<(u64, TrackView<V>)>) -> bool {
    forall|k: int| 0 <= k < s.len() ==> track_ok(#[trigger] s[k].1)
}

/// A timeline's invariant: one track per id, one pending request per id,
/// every started animation laid out in time.
pub open spec fn timeline_wf<V, S>(t: TimelineView<V, S>) -> bool {
    keys_unique(t.tracks) && pending_keys_unique(t.pendings) && tracks_ok(t.tracks)
}

/// Storing a track laid out in time keeps every track laid out in time.
proof fn lemma_store_ok<V>(s: Seq<(u64, TrackView<V>)>, id: u64, t: TrackView<V>)
    requires
        tracks_ok(s),
        track_ok(t),
    ensures
        tracks_ok(store(s, id, t)),
{
    let s2 = store(s, id, t);
    lemma_index_from(s, id, 0);
    assert forall|k: int| 0 <= k < s2.len() implies track_ok(#[trigger] s2[k].1) by {
        match index_of_key(s, id) {
            Some(i) => {
                if k != i {
                    assert(s2[k] == s[k]);
                }
            },
            None => {
                if k < s.len() {
                    assert(s2[k] == s[k]);
                }
            },
        }
    }
}

/// Removing a track keeps every other track laid out in time.
proof fn lemma_discard_ok<V>(s: Seq<(u64, TrackView<V>)>, id: u64)
    requires
        tracks_ok(s),
    ensures
        tracks_ok(discard(s, id)),
{
    let s2 = discard(s, id);
    assert forall|k: int| 0 <= k < s2.len() implies track_ok(#[trigger] s2[k].1) by {
        match index_of_key(s, id) {
            Some(i) => {
                lemma_index_from(s, id, 0);
                if k < i {
                    assert(s2[k] == s[k]);
                } else {
                    assert(s2[k] == s[k + 1]);
                }
            },
            None => {},
        }
    }
}

fn find_track<V>(tracks: &Vec<(u64, Track<V>)>, id: u64) -> (r: Option<usize>)
    ensures
        r matches Some(i) ==> index_of_key(tracks_view(tracks@), id) == Some(i as int) && i
            < tracks@.len(),
        r is None ==> index_of_key(tracks_view(tracks@), id) is None,
{
    let ghost s = tracks_view(tracks@);
    let mut i: usize = 0;
    while i < tracks.len()
        invariant
            0 <= i <= tracks.len(),
            s == tracks_view(tracks@),
            index_from(s, id, 0) == index_from(s, id, i as int),
        decreases tracks.len() - i,
    {
        if tracks[i].0 == id {
            return Some(i);
        }
        i = i + 1;
    }
    None
}

fn find_pending<V, S>(pendings: &Vec<Pending<V, S>>, id: u64) -> (r: Option<usize>)
    ensures
        r matches Some(i) ==> pending_index_from(
            pendings@.map_values(|p: Pending<V, S>| pending_view(p)),
            id,
            0,
        ) == Some(i as int) && i < pendings@.len(),
        r is None ==> pending_index_from(
            pendings@.map_values(|p: Pending<V, S>| pending_view(p)),
            id,
            0,
        ) is None,
{
    let ghost s = pendings@.map_values(|p: Pending<V, S>| pending_view(p));
    let mut i: usize = 0;
    while i < pendings.len()
        invariant
            0 <= i <= pendings.len(),
            s == pendings@.map_values(|p: Pending<V, S>| pending_view(p)),
            pending_index_from(s, id, 0) == pending_index_from(s, id, i as int),
        decreases pendings.len() - i,
    {
        let key = match &pendings[i] {
            Pending::Chain(k, _, _, _) => Some(*k),
            Pending::Pause(k) => Some(*k),
            Pending::Resume(k) => Some(*k),
            _ => None,
        };
        if key == Some(id) {
            return Some(i);
        }
        i = i + 1;
    }
    None
}


fn resolve_chain_rows<V: Copy, S: Copy>(
    rows: &Vec<Vec<Option<Frame<V, S>>>>,
    current: &Vec<Option<V>>,
) -> (re: Vec<Vec<Option<Frame<V, S>>>>)
    requires
        frames_within(rows_view(*rows), current@.len() as int),
    ensures
        rows_view(re) == resolve_rows(rows_view(*rows), current@),
{
    let mut re: Vec<Vec<Option<Frame<V, S>>>> = Vec::new();
    let mut r: usize = 0;
    while r < rows.len()
        invariant
            0 <= r <= rows.len(),
            re@.len() == r,
            frames_within(rows_view(*rows), current@.len() as int),
            forall|q: int|
                0 <= q < r ==> #[trigger] re@[q]@ == resolve_row(rows@[q]@, current@),
        decreases rows.len() - r,
    {
        let row = &rows[r];
        assert(rows_view(*rows)[r as int] == row@);
        let mut out: Vec<Option<Frame<V, S>>> = Vec::new();
        let mut j: usize = 0;
        while j < row.len()
            invariant
                0 <= j <= row.len(),
                forall|k: int| current@.len() <= k < row@.len() ==> #[trigger] row@[k] is None,
                out@.len() == j,
                forall|k: int|
                    0 <= k < j ==> #[trigger] out@[k] == resolve_row(row@, current@)[k],
            decreases row.len() - j,
        {
            match row[j] {
                Some(f) => {
                    let mut g = f;
                    g.to_eager(current[j]);
                    out.push(Some(g));
                },
                None => {
                    out.push(None);
                },
            }
            j = j + 1;
        }
        assert(out@ =~= resolve_row(row@, current@));
        re.push(out);
        r = r + 1;
    }
    assert(rows_view(re) =~= resolve_rows(rows_view(*rows), current@));
    re
}

fn first_common<F: Copy>(a: &Vec<Option<F>>, b: &Vec<Option<F>>) -> (c: Option<usize>)
    ensures
        c matches Some(i) ==> first_common_from(a@, b@, 0) == Some(i as int),
        c is None ==> first_common_from(a@, b@, 0) is None,
{
    let mut c: usize = 0;
    while c < a.len() && c < b.len()
        invariant
            first_common_from(a@, b@, 0) == first_common_from(a@, b@, c as int),
        decreases a.len() - c,
    {
        if a[c].is_some() && b[c].is_some() {
            return Some(c);
        }
        c = c + 1;
    }
    None
}

/// All frames of resolved rows are eager.
pub open spec fn all_eager<V, S>(rows: Seq<Seq<Option<Frame<V, S>>>>) -> bool {
    forall|r: int, j: int|
        0 <= r < rows.len() && 0 <= j < rows[r].len() && #[trigger] rows[r][j] is Some ==> rows[r][j].unwrap() is Eager
}

fn step_nanos_of<V: Copy, S: Copy>(
    rows: &Vec<Vec<Option<Frame<V, S>>>>,
    speed: &Vec<u128>,
    r: usize,
) -> (d: u128)
    requires
        all_eager(rows_view(*rows)),
        speed@.len() == rows@.len(),
        r < rows@.len(),
    ensures
        d == step_nanos(rows_view(*rows), speed@, r as int),
{
    if r >= rows.len() - 1 {
        return 0;
    }
    let a = &rows[r];
    let b = &rows[r + 1];
    assert(rows_view(*rows)[r as int] == a@);
    assert(rows_view(*rows)[r + 1] == b@);
    match first_common(a, b) {
        Some(c) => {
            proof {
                lemma_first_common_in(a@, b@, 0);
            }
            let n = b[c].unwrap();
            let p = a[c].unwrap();
            match n.get_duration(&p) {
                StepDuration::Fixed(d) => d,
                StepDuration::BySpeed(_, _, _) => speed[r],
            }
        },
        None => 0,
    }
}

fn build_track_exec<V: Copy, S: Copy>(
    rows: &Vec<Vec<Option<Frame<V, S>>>>,
    repeat: Repeat,
    paused: bool,
    now: i128,
    current: &Vec<Option<V>>,
    speed: &Vec<u128>,
) -> (t: Option<Track<V>>)
    requires
        rows_fit(rows_view(*rows)),
        current@.len() == rows@[0]@.len(),
        speed@.len() == rows@.len(),
    ensures
        t is Some <==> chain_ok(rows_view(*rows), now, current@, speed@),
        t matches Some(tr) ==> track_view(tr) == build_track(
            rows_view(*rows),
            repeat,
            paused,
            now,
            current@,
            speed@,
        ),
{
    let ghost rv = rows_view(*rows);
    assert(rv[0] == rows@[0]@);
    let re = resolve_chain_rows(rows, current);
    let ghost rev = rows_view(re);
    let n = re.len();
    // instants of the rows
    let mut times: Vec<i128> = Vec::new();
    let mut t: i128 = now;
    let mut r: usize = 0;
    while r < n
        invariant
            0 <= r <= n,
            n == re@.len(),
            n == rows@.len(),
            rev == rows_view(re),
            rev == resolve_rows(rows_view(*rows), current@),
            all_eager(rev),
            speed@.len() == n,
            times@.len() == r,
            t == row_time(now as int, rev, speed@, r as int),
            forall|q: int|
                0 <= q < r ==> #[trigger] times@[q] == row_time(now as int, rev, speed@, q),
        decreases n - r,
    {
        times.push(t);
        let d = step_nanos_of(&re, speed, r);
        proof {
            lemma_row_time_monotonic(now as int, rev, speed@, 0, r as int);
        }
        if d > room_above(t) {
            proof {
                lemma_row_time_monotonic(now as int, rev, speed@, (r + 1) as int, n as int);
            }
            return None;
        }
        t = instant_add(t, d);
        r = r + 1;
    }
    assert(chain_ok(rows_view(*rows), now, current@, speed@));
    let end = t;
    // one column per modifier
    let cols = rows[0].len();
    assert(rv[0].len() == cols);
    let mut columns: Vec<Vec<SubFrame<V>>> = Vec::new();
    let mut j: usize = 0;
    while j < cols
        invariant
            0 <= j <= cols,
            n == re@.len(),
            rev == rows_view(re),
            all_eager(rev),
            times@.len() == n,
            forall|q: int|
                0 <= q < n ==> #[trigger] times@[q] == row_time(now as int, rev, speed@, q),
            columns@.len() == j,
            forall|k: int|
                0 <= k < j ==> #[trigger] columns@[k]@ == column_of(
                    now as int,
                    rev,
                    speed@,
                    k,
                    n as int,
                ),
        decreases cols - j,
    {
        let mut col: Vec<SubFrame<V>> = Vec::new();
        let mut r: usize = 0;
        while r < n
            invariant
                0 <= r <= n,
                n == re@.len(),
                rev == rows_view(re),
                all_eager(rev),
                times@.len() == n,
                forall|q: int|
                    0 <= q < n ==> #[trigger] times@[q] == row_time(now as int, rev, speed@, q),
                col@ == column_of(now as int, rev, speed@, j as int, r as int),
            decreases n - r,
        {
            let row = &re[r];
            assert(rev[r as int] == row@);
            if j < row.len() {
                if let Some(f) = row[j] {
                    col.push(f.to_subframe(times[r]));
                }
            }
            r = r + 1;
        }
        columns.push(col);
        j = j + 1;
    }
    let length = instant_elapsed(end, now);
    proof {
        lemma_row_time_monotonic(now as int, rev, speed@, 0, n as int);
    }
    let pause = if paused {
        Pause::Paused(now)
    } else {
        Pause::NoPause
    };
    let track = Track { meta: Meta { repeat, start: now, end, length, pause }, columns };
    assert(track_view(track).columns =~= build_track(
        rows_view(*rows),
        repeat,
        paused,
        now,
        current@,
        speed@,
    ).columns);
    Some(track)
}

fn rows_fit_first<V, S>(rows: &Vec<Vec<Option<Frame<V, S>>>>) -> (ok: bool)
    requires
        rows@.len() > 0,
    ensures
        ok == rows_fit(rows_view(*rows)),
{
    let ghost rv = rows_view(*rows);
    let width = rows[0].len();
    assert(rv[0] == rows@[0]@);
    let mut r: usize = 0;
    while r < rows.len()
        invariant
            0 <= r <= rows@.len(),
            rv == rows_view(*rows),
            width == rv[0].len(),
            forall|q: int, j: int| 0 <= q < r && width <= j < rv[q].len() ==> #[trigger] rv[q][j] is None,
        decreases rows.len() - r,
    {
        assert(rv[r as int] == rows@[r as int]@);
        let row = &rows[r];
        let mut j: usize = width;
        while j < row.len()
            invariant
                width <= j,
                width == rv[0].len(),
                r < rows@.len(),
                rv == rows_view(*rows),
                rv[r as int] == row@,
                forall|k: int| width <= k < j && k < row@.len() ==> #[trigger] row@[k] is None,
            decreases row.len() - j,
        {
            if row[j].is_some() {
                assert(!(rv[r as int][j as int] is None));
                return false;
            }
            j = j + 1;
        }
        r = r + 1;
    }
    true
}

proof fn lemma_ops_ok_prefix<V, S>(
    tracks: Seq<(u64, TrackView<V>)>,
    ps: Seq<PendingView<V, S>>,
    now: int,
    a: int,
    b: int,
)
    requires
        0 <= a <= b,
        ops_ok(tracks, ps, now, b),
    ensures
        ops_ok(tracks, ps, now, a),
    decreases b,
{
    if a < b {
        lemma_ops_ok_prefix(tracks, ps, now, a, b - 1);
    }
}

fn has_lazy_column<V: Copy, S: Copy>(rows: &Vec<Vec<Option<Frame<V, S>>>>, j: usize) -> (b: bool)
    ensures
        b == has_lazy_at(rows_view(*rows), j as int),
{
    let ghost rv = rows_view(*rows);
    let mut r: usize = 0;
    while r < rows.len()
        invariant
            0 <= r <= rows@.len(),
            rv == rows_view(*rows),
            forall|q: int|
                0 <= q < r ==> !(0 <= j < rv[q].len() && (#[trigger] rv[q][j as int] matches Some(f)
                    && f is Lazy)),
        decreases rows.len() - r,
    {
        assert(rv[r as int] == rows@[r as int]@);
        if j < rows[r].len() {
            if let Some(Frame::Lazy(_, _, _)) = rows[r][j] {
                assert(rv[r as int][j as int] matches Some(f) && f is Lazy);
                return true;
            }
        }
        r = r + 1;
    }
    false
}

fn step_request<V: Copy, S: Copy>(rows: &Vec<Vec<Option<Frame<V, S>>>>, r: usize) -> (d: Option<
    StepDuration<V, S>,
>)
    requires
        all_eager(rows_view(*rows)),
        r < rows@.len(),
    ensures
        d == step_of(rows_view(*rows), r as int),
{
    if r >= rows.len() - 1 {
        return None;
    }
    let a = &rows[r];
    let b = &rows[r + 1];
    assert(rows_view(*rows)[r as int] == a@);
    assert(rows_view(*rows)[r + 1] == b@);
    match first_common(a, b) {
        Some(c) => {
            proof {
                lemma_first_common_in(a@, b@, 0);
            }
            let n = b[c].unwrap();
            let p = a[c].unwrap();
            Some(n.get_duration(&p))
        },
        None => None,
    }
}

fn install_track<V>(tracks: &mut Vec<(u64, Track<V>)>, id: u64, t: Track<V>)
    requires
        keys_unique(tracks_view(old(tracks)@)),
        tracks_ok(tracks_view(old(tracks)@)),
        track_ok(track_view(t)),
    ensures
        keys_unique(tracks_view(final(tracks)@)),
        tracks_ok(tracks_view(final(tracks)@)),
        tracks_view(final(tracks)@) == store(tracks_view(old(tracks)@), id, track_view(t)),
{
    let ghost old_v = tracks_view(tracks@);
    proof {
        lemma_store(old_v, id, track_view(t), id);
        lemma_store_ok(old_v, id, track_view(t));
    }
    match find_track(tracks, id) {
        Some(i) => {
            tracks.set(i, (id, t));
        },
        None => {
            tracks.push((id, t));
        },
    }
    assert(tracks_view(tracks@) =~= store(old_v, id, track_view(t)));
}

impl<V: Copy, S: Copy> Default for Timeline<V, S> {
    fn default() -> (t: Self)
        ensures
            t.wf(),
            t@.tracks == Seq::<(u64, TrackView<V>)>::empty(),
            t@.pendings == Seq::<PendingView<V, S>>::empty(),
            t@.now is None,
    {
        Self::new()
    }
}

impl<V: Copy, S: Copy> Timeline<V, S> {
    /// The timeline's invariant (see [`timeline_wf`]): one track and one
    /// pending request per id, every started animation laid out in time.
    pub open spec fn wf(&self) -> bool {
        timeline_wf(self@)
    }

    /// Creates a new, empty timeline.
    pub fn new() -> (t: Self)
        ensures
            t.wf(),
            t@.tracks == Seq::<(u64, TrackView<V>)>::empty(),
            t@.pendings == Seq::<PendingView<V, S>>::empty(),
            t@.now is None,
    {
        let t = Timeline { tracks: Vec::new(), pendings: Vec::new(), now: None };
        assert(t@.tracks =~= Seq::<(u64, TrackView<V>)>::empty());
        assert(t@.pendings =~= Seq::<PendingView<V, S>>::empty());
        t
    }

    fn add_pending(&mut self, id: u64, p: Pending<V, S>)
        requires
            old(self).wf(),
            pending_key(pending_view(p)) == Some(id),
        ensures
            final(self).wf(),
            final(self)@ == (TimelineView {
                pendings: store_pending(old(self)@.pendings, id, pending_view(p)),
                ..old(self)@
            }),
    {
        let ghost old_s = self@.pendings;
        proof {
            lemma_store_pending(old_s, id, pending_view(p), id);
        }
        match find_pending(&self.pendings, id) {
            Some(i) => {
                self.pendings.set(i, p);
            },
            None => {
                self.pendings.push(p);
            },
        }
        assert(self@.pendings =~= store_pending(old_s, id, pending_view(p)));
    }

    /// If you accidentally manage to `set_chain`, but then decide to undo that.
    pub fn remove_pending(&mut self)
        requires
            old(self).wf(),
        ensures
            final(self).wf(),
            final(self)@ == (TimelineView {
                pendings: Seq::<PendingView<V, S>>::empty(),
                ..old(self)@
            }),
    {
        self.pendings.clear();
        assert(self@.pendings =~= Seq::<PendingView<V, S>>::empty());
    }

    /// Pauses the animation with this id at the next start.
    pub fn pause(&mut self, id: u64)
        requires
            old(self).wf(),
        ensures
            final(self).wf(),
            final(self)@ == (TimelineView {
                pendings: store_pending(old(self)@.pendings, id, PendingView::Pause(id)),
                ..old(self)@
            }),
    {
        self.add_pending(id, Pending::Pause(id));
    }

    /// Resumes the animation with this id at the next start.
    pub fn resume(&mut self, id: u64)
        requires
            old(self).wf(),
        ensures
            final(self).wf(),
            final(self)@ == (TimelineView {
                pendings: store_pending(old(self)@.pendings, id, PendingView::Resume(id)),
                ..old(self)@
            }),
    {
        self.add_pending(id, Pending::Resume(id));
    }

    /// Pauses every animation at the next start.
    pub fn pause_all(&mut self)
        requires
            old(self).wf(),
        ensures
            final(self).wf(),
            final(self)@ == (TimelineView {
                pendings: old(self)@.pendings.push(PendingView::PauseAll),
                ..old(self)@
            }),
    {
        self.pendings.push(Pending::PauseAll);
        assert(self@.pendings =~= old(self)@.pendings.push(PendingView::PauseAll));
    }

    /// Resumes every animation at the next start.
    pub fn resume_all(&mut self)
        requires
            old(self).wf(),
        ensures
            final(self).wf(),
            final(self)@ == (TimelineView {
                pendings: old(self)@.pendings.push(PendingView::ResumeAll),
                ..old(self)@
            }),
    {
        self.pendings.push(Pending::ResumeAll);
        assert(self@.pendings =~= old(self)@.pendings.push(PendingView::ResumeAll));
    }

    /// Adds an animation chain, to be started at the next start. A chain
    /// replaces whatever was pending for its id.
    pub fn set_chain(&mut self, chain: Chain<V, S>)
        requires
            old(self).wf(),
        ensures
            final(self).wf(),
            final(self)@ == (TimelineView {
                pendings: store_pending(
                    old(self)@.pendings,
                    chain.id,
                    PendingView::Chain(chain.id, chain.repeat, chain.links(), false),
                ),
                ..old(self)@
            }),
    {
        let id = chain.id;
        self.add_pending(id, Pending::Chain(id, chain.repeat, chain.links, false));
    }

    /// Like `set_chain`, but the animation starts paused on its first frame.
    pub fn set_chain_paused(&mut self, chain: Chain<V, S>)
        requires
            old(self).wf(),
        ensures
            final(self).wf(),
            final(self)@ == (TimelineView {
                pendings: store_pending(
                    old(self)@.pendings,
                    chain.id,
                    PendingView::Chain(chain.id, chain.repeat, chain.links(), true),
                ),
                ..old(self)@
            }),
    {
        let id = chain.id;
        self.add_pending(id, Pending::Chain(id, chain.repeat, chain.links, true));
    }

    /// Removes a started animation.
    pub fn clear_chain(&mut self, id: u64)
        requires
            old(self).wf(),
        ensures
            final(self).wf(),
            final(self)@ == (TimelineView { tracks: discard(old(self)@.tracks, id), ..old(self)@ }),
    {
        let ghost old_t = self@.tracks;
        proof {
            lemma_discard(old_t, id, id);
            lemma_discard_ok(old_t, id);
        }
        if let Some(i) = find_track(&self.tracks, id) {
            let _ = self.tracks.remove(i);
        }
        assert(self@.tracks =~= discard(old_t, id));
    }

    /// What modifier `index` of animation `id` is doing now. `clock_now`
    /// is read only when the timeline has never been given an instant.
    pub fn get(&self, id: u64, index: usize, clock_now: i128) -> (r: Option<Interpolation<V>>)
        where V: PartialEq
        requires
            self.wf(),
            get_ok(self@, id, index as int, clock_now),
        ensures
            spec_reads(self@, id, index as int, clock_now, r),
    {
        let now = match self.now {
            Some(n) => n,
            None => clock_now,
        };
        let i = match find_track(&self.tracks, id) {
            Some(i) => i,
            None => return None,
        };
        let track = &self.tracks[i].1;
        assert(self@.tracks[i as int].1 == track_view(*track));
        if index >= track.columns.len() {
            return None;
        }
        let col = &track.columns[index];
        let meta = &track.meta;
        let base = match meta.pause {
            Pause::NoPause => now,
            Pause::Resumed(delay) => instant_sub(now, delay),
            Pause::Paused(t) => t,
        };
        let rel = relative_time(base, meta);
        assert(rel == relative_now(*meta, now as int));
        assert(self@.tracks[i as int].1.columns[index as int] == col@);
        if col.len() == 0 {
            return None;
        }
        let ghost c = col@;
        let ghost relv = rel as int;
        assert forall|x: Interpolation<V>| #[trigger] reading_from(c, relv, 1, c[0], x) implies spec_reads(
            self@,
            id,
            index as int,
            clock_now,
            Some(x),
        ) by {
            assert(column_reads(c, relv, Some(x)));
        }
        let mut acc = col[0];
        let mut k: usize = 1;
        while k < col.len()
            invariant
                1 <= k <= col.len(),
                c == col@,
                relv == rel as int,
                forall|x: Interpolation<V>| #[trigger] reading_from(c, relv, 1, c[0], x) ==> spec_reads(
                    self@,
                    id,
                    index as int,
                    clock_now,
                    Some(x),
                ),
                forall|x: Interpolation<V>|
                    #[trigger] reading_from(c, relv, k as int, acc, x) ==> reading_from(
                        c,
                        relv,
                        1,
                        c[0],
                        x,
                    ),
            decreases col.len() - k,
        {
            let m = col[k];
            assert(m == c[k as int]);
            let passed = rel >= m.at;
            let same = if passed {
                true
            } else {
                acc.value == m.value
            };
            if same {
                proof {
                    assert forall|x: Interpolation<V>| #[trigger]
                        reading_from(c, relv, k + 1, m, x) implies reading_from(
                        c,
                        relv,
                        1,
                        c[0],
                        x,
                    ) by {
                        assert(reading_from(c, relv, k as int, acc, x));
                    }
                }
                acc = m;
                k = k + 1;
            } else {
                let elapsed_millis = instant_elapsed(rel, acc.at) / NANOS_PER_MILLI;
                let duration_millis = instant_elapsed(m.at, acc.at) / NANOS_PER_MILLI;
                let res = Interpolation::Between {
                    previous: acc.value,
                    next: m.value,
                    elapsed_millis,
                    duration_millis,
                    ease: m.ease,
                };
                assert(res == step_reading(acc, m, relv));
                assert(reading_from(c, relv, k as int, acc, res));
                return Some(res);
            }
        }
        assert(reading_from(c, relv, k as int, acc, Interpolation::Settled(acc.value)));
        Some(Interpolation::Settled(acc.value))
    }

    /// Do animations still need redrawing?
    pub fn needs_frames(&self) -> (r: bool)
        ensures
            r == spec_needs_frames(self@),
            r ==> self@.now is Some,
            forall|i: int|
                0 <= i < self@.tracks.len() && self@.now is Some && frames_wanted(
                    #[trigger] self@.tracks[i].1.meta,
                    self@.now.unwrap(),
                ) ==> r,
            r ==> exists|i: int|
                0 <= i < self@.tracks.len() && frames_wanted(
                    #[trigger] self@.tracks[i].1.meta,
                    self@.now.unwrap(),
                ),
    {
        let now = match self.now {
            Some(n) => n,
            None => return false,
        };
        let mut i: usize = 0;
        while i < self.tracks.len()
            invariant
                0 <= i <= self.tracks.len(),
                self@.now == Some(now),
                forall|j: int|
                    0 <= j < i ==> {
                        let m = #[trigger] self@.tracks[j].1.meta;
                        !(!(m.pause is Paused) && (m.repeat == Repeat::Forever || m.end >= now))
                    },
            decreases self.tracks.len() - i,
        {
            let m = &self.tracks[i].1.meta;
            assert(self@.tracks[i as int].1.meta == *m);
            if m.pause.is_playing() && (m.repeat == Repeat::Forever || m.end >= now) {
                return true;
            }
            i = i + 1;
        }
        false
    }

    /// Starts the pending requests at `now`, given the current value of each
    /// modifier of each pending chain and the durations derived from speeds
    /// (see [`start_ok`]). Returns whether that was defined; when it was,
    /// the timeline is as [`spec_start`] says.
    fn run_start(
        &mut self,
        now: i128,
        current: &Vec<Vec<Option<V>>>,
        speed: &Vec<Vec<u128>>,
    ) -> (ok: bool)
        requires
            old(self).wf(),
        ensures
            final(self).wf(),
            ok == start_ok(old(self)@, now, rows_view(*current), rows_view(*speed)),
            ok ==> final(self)@ == spec_start(old(self)@, now, rows_view(*current), rows_view(*speed)),
    {
        let ghost old_v = self@;
        assert(old_v == old(self)@);
        let ghost cv = rows_view(*current);
        let ghost sv = rows_view(*speed);
        let n = self.pendings.len();
        if current.len() != n || speed.len() != n {
            return false;
        }
        // every pending chain starts at `now`
        let mut i: usize = 0;
        while i < n
            invariant
                0 <= i <= n,
                old_v == old(self)@,
                n == old_v.pendings.len(),
                cv == rows_view(*current),
                sv == rows_view(*speed),
                current@.len() == n,
                speed@.len() == n,
                self@.pendings == old_v.pendings,
                self@.now == old_v.now,
                self.wf(),
                self@.tracks == install_chains(old_v.tracks, old_v.pendings, now, cv, sv, i as int),
                forall|q: int|
                    0 <= q < i ==> (#[trigger] old_v.pendings[q] matches PendingView::Chain(_, _, rows, _)
                        ==> chain_ok(rows, now, cv[q], sv[q])),
            decreases n - i,
        {
            assert(self@.pendings[i as int] == pending_view(self.pendings@[i as int]));
            if let Pending::Chain(id, repeat, rows, paused) = &self.pendings[i] {
                let ghost rv = rows_view(*rows);
                assert(cv[i as int] == current@[i as int]@);
                assert(sv[i as int] == speed@[i as int]@);
                let cur = &current[i];
                let sp = &speed[i];
                assert(old_v.pendings[i as int] == PendingView::Chain(*id, *repeat, rv, *paused));
                assert(forall|q: int| 0 <= q < rv.len() ==> #[trigger] rv[q] == rows@[q]@);
                if rows.len() == 0 || cur.len() != rows[0].len() || sp.len() != rows.len()
                    || !rows_fit_first(rows) {
                    assert(!chain_ok(rv, now, cv[i as int], sv[i as int]));
                    assert(!start_ok(old_v, now, cv, sv));
                    return false;
                }
                match build_track_exec(rows, *repeat, *paused, now, cur, sp) {
                    Some(t) => {
                        proof {
                            laws::lemma_build_track_timing(
                                rv,
                                *repeat,
                                *paused,
                                now,
                                cv[i as int],
                                sv[i as int],
                            );
                        }
                        let key = *id;
                        install_track(&mut self.tracks, key, t);
                    },
                    None => {
                        return false;
                    },
                }
            }
            i = i + 1;
        }
        let ghost installed = self@.tracks;
        assert(installed == install_chains(old_v.tracks, old_v.pendings, now, cv, sv, n as int));
        // then the pause and resume requests, in list order
        let mut i: usize = 0;
        while i < n
            invariant
                0 <= i <= n,
                old_v == old(self)@,
                cv == rows_view(*current),
                sv == rows_view(*speed),
                installed == install_chains(old_v.tracks, old_v.pendings, now, cv, sv, n as int),
                n == old_v.pendings.len(),
                self@.pendings == old_v.pendings,
                self@.now == old_v.now,
                self.wf(),
                self@.tracks == apply_ops(installed, old_v.pendings, now as int, i as int),
                ops_ok(installed, old_v.pendings, now as int, i as int),
            decreases n - i,
        {
            assert(self@.pendings[i as int] == pending_view(self.pendings@[i as int]));
            let ghost before = self@.tracks;
            proof {
                if ops_ok(installed, old_v.pendings, now as int, n as int) {
                    lemma_ops_ok_prefix(installed, old_v.pendings, now as int, (i + 1) as int, n as int);
                }
            }
            match &self.pendings[i] {
                Pending::Pause(id) => {
                    let key = *id;
                    assert(old_v.pendings[i as int] == PendingView::<V, S>::Pause(key));
                    if !self.pause_track_at(key, now) {
                        assert(!ops_ok(installed, old_v.pendings, now as int, (i + 1) as int));
                        return false;
                    }
                },
                Pending::Resume(id) => {
                    let key = *id;
                    self.resume_track_at(key, now);
                },
                Pending::PauseAll => {
                    assert(old_v.pendings[i as int] == PendingView::<V, S>::PauseAll);
                    if !self.pause_every_track(now) {
                        assert(!ops_ok(installed, old_v.pendings, now as int, (i + 1) as int));
                        return false;
                    }
                },
                Pending::ResumeAll => {
                    self.resume_every_track(now);
                },
                Pending::Chain(_, _, _, _) => {
                },
            }
            i = i + 1;
        }
        self.pendings.clear();
        self.now = Some(now);
        assert(self@.pendings =~= Seq::<PendingView<V, S>>::empty());
        true
    }

    /// Pauses the animation `id` at `now`, when pausing it is defined.
    fn pause_track_at(&mut self, id: u64, now: i128) -> (ok: bool)
        requires
            old(self).wf(),
        ensures
            final(self).wf(),
            final(self)@.pendings == old(self)@.pendings,
            final(self)@.now == old(self)@.now,
            ok == op_ok(old(self)@.tracks, PendingView::<V, S>::Pause(id), now as int),
            ok ==> final(self)@.tracks == apply_op(
                old(self)@.tracks,
                PendingView::<V, S>::Pause(id),
                now as int,
            ),
            ok ==> forall|other: u64|
                other != id ==> #[trigger] lookup(final(self)@.tracks, other) == lookup(
                    old(self)@.tracks,
                    other,
                ),
    {
        let ghost old_t = self@.tracks;
        proof {
            lemma_index_of_key(old_t, id);
            assert forall|other: u64| other != id implies #[trigger] lookup(
                apply_op(old_t, PendingView::<V, S>::Pause(id), now as int),
                other,
            ) == lookup(old_t, other) by {
                laws::lemma_request_touches_only_its_id(
                    old_t,
                    PendingView::<V, S>::Pause(id),
                    now as int,
                    other,
                );
            }
        }
        match find_track(&self.tracks, id) {
            Some(k) => {
                let meta = self.tracks[k].1.meta;
                assert(old_t[k as int].1.meta == meta);
                let ok = meta.repeat == Repeat::Never || meta.length >= NANOS_PER_MILLI;
                if !ok {
                    return false;
                }
                if let Pause::Resumed(delay) = meta.pause {
                    if !instant_sub_ok(now, delay) {
                        return false;
                    }
                }
                let mut m = meta;
                m.pause(now);
                self.set_meta(k, m);
                proof {
                    lemma_store(old_t, id, pause_track(old_t[k as int].1, now as int), id);
                }
                assert(self@.tracks =~= store(old_t, id, pause_track(old_t[k as int].1, now as int)));
                true
            },
            None => true,
        }
    }

    /// Resumes the animation `id` at `now`.
    fn resume_track_at(&mut self, id: u64, now: i128)
        requires
            old(self).wf(),
        ensures
            final(self).wf(),
            final(self)@.pendings == old(self)@.pendings,
            final(self)@.now == old(self)@.now,
            final(self)@.tracks == apply_op(
                old(self)@.tracks,
                PendingView::<V, S>::Resume(id),
                now as int,
            ),
            forall|other: u64|
                other != id ==> #[trigger] lookup(final(self)@.tracks, other) == lookup(
                    old(self)@.tracks,
                    other,
                ),
    {
        let ghost old_t = self@.tracks;
        proof {
            lemma_index_of_key(old_t, id);
            assert forall|other: u64| other != id implies #[trigger] lookup(
                apply_op(old_t, PendingView::<V, S>::Resume(id), now as int),
                other,
            ) == lookup(old_t, other) by {
                laws::lemma_request_touches_only_its_id(
                    old_t,
                    PendingView::<V, S>::Resume(id),
                    now as int,
                    other,
                );
            }
        }
        match find_track(&self.tracks, id) {
            Some(k) => {
                let mut m = self.tracks[k].1.meta;
                assert(old_t[k as int].1.meta == m);
                m.resume(now);
                self.set_meta(k, m);
                proof {
                    lemma_store(old_t, id, resume_track(old_t[k as int].1, now as int), id);
                }
                assert(self@.tracks =~= store(old_t, id, resume_track(old_t[k as int].1, now as int)));
            },
            None => {
            },
        }
    }

    /// Pauses every animation at `now`, when pausing each of them is defined.
    fn pause_every_track(&mut self, now: i128) -> (ok: bool)
        requires
            old(self).wf(),
        ensures
            final(self).wf(),
            final(self)@.pendings == old(self)@.pendings,
            final(self)@.now == old(self)@.now,
            ok == op_ok(old(self)@.tracks, PendingView::<V, S>::PauseAll, now as int),
            ok ==> final(self)@.tracks == apply_op(
                old(self)@.tracks,
                PendingView::<V, S>::PauseAll,
                now as int,
            ),
    {
        let ghost old_t = self@.tracks;
        let n = self.tracks.len();
        let mut k: usize = 0;
        while k < n
            invariant
                0 <= k <= n,
                n == old_t.len(),
                n == self.tracks@.len(),
                self.wf(),
                old_t == self@.tracks,
                self@ == old(self)@,
                forall|q: int| 0 <= q < k ==> pause_ok(#[trigger] old_t[q].1, now as int),
            decreases n - k,
        {
            let meta = self.tracks[k].1.meta;
            assert(old_t[k as int].1.meta == meta);
            if !(meta.repeat == Repeat::Never || meta.length >= NANOS_PER_MILLI) {
                return false;
            }
            if let Pause::Resumed(delay) = meta.pause {
                if !instant_sub_ok(now, delay) {
                    return false;
                }
            }
            k = k + 1;
        }
        let mut k: usize = 0;
        while k < n
            invariant
                0 <= k <= n,
                n == old_t.len(),
                self.wf(),
                self@.pendings == old(self)@.pendings,
                self@.now == old(self)@.now,
                self@.tracks.len() == n,
                forall|q: int| 0 <= q < n ==> pause_ok(#[trigger] old_t[q].1, now as int),
                forall|q: int|
                    0 <= q < k ==> #[trigger] self@.tracks[q] == (
                        old_t[q].0,
                        pause_track(old_t[q].1, now as int),
                    ),
                forall|q: int| k <= q < n ==> #[trigger] self@.tracks[q] == old_t[q],
            decreases n - k,
        {
            let mut m = self.tracks[k].1.meta;
            assert(self@.tracks[k as int].1.meta == m);
            m.pause(now);
            self.set_meta(k, m);
            k = k + 1;
        }
        assert(self@.tracks =~= old_t.map_values(
            |e: (u64, TrackView<V>)| (e.0, pause_track(e.1, now as int)),
        ));
        true
    }

    /// Resumes every animation at `now`.
    fn resume_every_track(&mut self, now: i128)
        requires
            old(self).wf(),
        ensures
            final(self).wf(),
            final(self)@.pendings == old(self)@.pendings,
            final(self)@.now == old(self)@.now,
            final(self)@.tracks == apply_op(
                old(self)@.tracks,
                PendingView::<V, S>::ResumeAll,
                now as int,
            ),
    {
        let ghost old_t = self@.tracks;
        let n = self.tracks.len();
        let mut k: usize = 0;
        while k < n
            invariant
                0 <= k <= n,
                n == old_t.len(),
                self.wf(),
                self@.pendings == old(self)@.pendings,
                self@.now == old(self)@.now,
                self@.tracks.len() == n,
                forall|q: int|
                    0 <= q < k ==> #[trigger] self@.tracks[q] == (
                        old_t[q].0,
                        resume_track(old_t[q].1, now as int),
                    ),
                forall|q: int| k <= q < n ==> #[trigger] self@.tracks[q] == old_t[q],
            decreases n - k,
        {
            let mut m = self.tracks[k].1.meta;
            assert(self@.tracks[k as int].1.meta == m);
            m.resume(now);
            self.set_meta(k, m);
            k = k + 1;
        }
        assert(self@.tracks =~= old_t.map_values(
            |e: (u64, TrackView<V>)| (e.0, resume_track(e.1, now as int)),
        ));
    }

    /// Replaces the metadata of the track at index `k`.
    fn set_meta(&mut self, k: usize, meta: Meta)
        requires
            old(self).wf(),
            k < old(self)@.tracks.len(),
            meta.start == old(self)@.tracks[k as int].1.meta.start,
            meta.end == old(self)@.tracks[k as int].1.meta.end,
            meta.length == old(self)@.tracks[k as int].1.meta.length,
        ensures
            final(self).wf(),
            final(self)@.pendings == old(self)@.pendings,
            final(self)@.now == old(self)@.now,
            final(self)@.tracks == old(self)@.tracks.update(
                k as int,
                (old(self)@.tracks[k as int].0, TrackView { meta, ..old(self)@.tracks[k as int].1 }),
            ),
    {
        let ghost old_t = self@.tracks;
        let mut entry = self.tracks.remove(k);
        entry.1.meta = meta;
        self.tracks.insert(k, entry);
        assert(track_ok(self@.tracks[k as int].1));
        assert(forall|q: int| 0 <= q < old_t.len() && q != k ==> self@.tracks[q] == old_t[q]);
        assert(self@.tracks =~= old_t.update(
            k as int,
            (old_t[k as int].0, TrackView { meta, ..old_t[k as int].1 }),
        ));
    }

    /// Starts all pending requests at `now` (see [`spec_start`]), given
    /// the current value of each modifier of each pending chain and the
    /// durations derived from speeds.
    pub fn start_with(
        &mut self,
        now: i128,
        current: &Vec<Vec<Option<V>>>,
        speed: &Vec<Vec<u128>>,
    )
        requires
            old(self).wf(),
            start_ok(old(self)@, now, rows_view(*current), rows_view(*speed)),
        ensures
            final(self).wf(),
            final(self)@ == spec_start(old(self)@, now, rows_view(*current), rows_view(*speed)),
    {
        let _ = self.run_start(now, current, speed);
    }

    /// Reading modifier `index` of animation `id` is defined (see [`get_ok`]).
    pub fn get_defined(&self, id: u64, index: usize, clock_now: i128) -> (ok: bool)
        requires
            self.wf(),
        ensures
            ok == get_ok(self@, id, index as int, clock_now),
    {
        let now = match self.now {
            Some(n) => n,
            None => clock_now,
        };
        let i = match find_track(&self.tracks, id) {
            Some(i) => i,
            None => return true,
        };
        let track = &self.tracks[i].1;
        assert(self@.tracks[i as int].1 == track_view(*track));
        if index >= track.columns.len() {
            return true;
        }
        let meta = &track.meta;
        if !(meta.repeat == Repeat::Never || meta.length >= NANOS_PER_MILLI) {
            return false;
        }
        match meta.pause {
            Pause::Resumed(delay) => instant_sub_ok(now, delay),
            _ => true,
        }
    }

    /// Starts all pending requests at `now`: each pending chain starts at
    /// `now` (its lazy frames continue from the current value of their
    /// modifier, which `interp` computes from the timeline's reading; the
    /// duration of a step given by a speed is computed by `speed_duration`),
    /// then the pause and resume requests apply in list order (a request
    /// that replaced an earlier one for its id keeps that one's place). `clock_now` is
    /// read only when the timeline has never been given an instant.
    /// Returns false exactly where starting is not defined (see
    /// [`resolvable`] and [`start_ok`]); the timeline is then left in a
    /// well-formed but unspecified state, and the caller should treat it as
    /// a fatal error.
    pub fn start_at<F, G>(
        &mut self,
        now: i128,
        clock_now: i128,
        interp: F,
        speed_duration: G,
    ) -> (started: bool)
        where
            V: PartialEq,
            F: Fn(Interpolation<V>) -> V,
            G: Fn(S, V, V) -> u128,
        requires
            old(self).wf(),
            forall|s: Interpolation<V>| call_requires(interp, (s,)),
            forall|a: S, b: V, c: V| call_requires(speed_duration, (a, b, c)),
        ensures
            final(self).wf(),
            started ==> (resolvable(old(self)@, clock_now) && exists|
                current: Seq<Seq<Option<V>>>,
                speed: Seq<Seq<u128>>,
            |
                {
                    &&& current_ok(
                        old(self)@,
                        clock_now,
                        current,
                        |s: Interpolation<V>, v: V| call_ensures(interp, (s,), v),
                    )
                    &&& speed_ok(
                        old(self)@,
                        current,
                        speed,
                        |a: S, b: V, c: V, d: u128| call_ensures(speed_duration, (a, b, c), d),
                    )
                    &&& start_ok(old(self)@, now, current, speed)
                    &&& final(self)@ == spec_start(old(self)@, now, current, speed)
                }),
            !started ==> (!resolvable(old(self)@, clock_now) || exists|
                current: Seq<Seq<Option<V>>>,
                speed: Seq<Seq<u128>>,
            |
                {
                    &&& current_ok(
                        old(self)@,
                        clock_now,
                        current,
                        |s: Interpolation<V>, v: V| call_ensures(interp, (s,), v),
                    )
                    &&& speed_ok(
                        old(self)@,
                        current,
                        speed,
                        |a: S, b: V, c: V, d: u128| call_ensures(speed_duration, (a, b, c), d),
                    )
                    &&& !start_ok(old(self)@, now, current, speed)
                }),
    {
        let ghost old_v = self@;
        let ghost irel = |s: Interpolation<V>, v: V| call_ensures(interp, (s,), v);
        let ghost drel = |a: S, b: V, c: V, d: u128| call_ensures(speed_duration, (a, b, c), d);
        let n = self.pendings.len();
        let mut current: Vec<Vec<Option<V>>> = Vec::new();
        let mut speed: Vec<Vec<u128>> = Vec::new();
        let mut i: usize = 0;
        while i < n
            invariant
                0 <= i <= n,
                n == old_v.pendings.len(),
                self@ == old_v,
                self.wf(),
                irel == (|s: Interpolation<V>, v: V| call_ensures(interp, (s,), v)),
                drel == (|a: S, b: V, c: V, d: u128| call_ensures(speed_duration, (a, b, c), d)),
                forall|s: Interpolation<V>| call_requires(interp, (s,)),
                forall|a: S, b: V, c: V| call_requires(speed_duration, (a, b, c)),
                current@.len() == i,
                speed@.len() == i,
                forall|q: int|
                    0 <= q < i ==> (#[trigger] old_v.pendings[q] matches PendingView::Chain(
                        id,
                        _,
                        rows,
                        _,
                    ) ==> rows.len() > 0 && forall|j: int|
                        0 <= j < rows[0].len() && has_lazy_at(rows, j) ==> get_ok(old_v, id, j, clock_now)),
                forall|q: int|
                    0 <= q < i ==> (#[trigger] old_v.pendings[q] matches PendingView::Chain(
                        id,
                        _,
                        rows,
                        _,
                    ) ==> current@[q]@.len() == rows[0].len() && forall|j: int|
                        0 <= j < rows[0].len() ==> current_value_ok(
                            old_v,
                            clock_now,
                            id,
                            rows,
                            j,
                            #[trigger] current@[q]@[j],
                            irel,
                        )),
                forall|q: int|
                    0 <= q < i ==> (#[trigger] old_v.pendings[q] matches PendingView::Chain(
                        _,
                        _,
                        rows,
                        _,
                    ) ==> rows_fit(rows) ==> speed@[q]@.len() == rows.len() && forall|r: int|
                        0 <= r < rows.len() ==> match step_of(
                            resolve_rows(rows, current@[q]@),
                            r,
                        ) {
                            Some(StepDuration::BySpeed(s, a, b)) => drel(
                                s,
                                a,
                                b,
                                #[trigger] speed@[q]@[r],
                            ),
                            _ => speed@[q]@[r] == 0,
                        }),
            decreases n - i,
        {
            assert(old_v.pendings[i as int] == pending_view(self.pendings@[i as int]));
            match &self.pendings[i] {
                Pending::Chain(id, _, rows, _) => {
                    let ghost rv = rows_view(*rows);
                    if rows.len() == 0 {
                        assert(!resolvable(old_v, clock_now));
                        return false;
                    }
                    assert(rv[0] == rows@[0]@);
                    assert(old_v.pendings[i as int] matches PendingView::Chain(id2, _, rows2, _) && id2
                        == *id && rows2 == rv);
                    let width = rows[0].len();
                    let mut cur: Vec<Option<V>> = Vec::new();
                    let mut j: usize = 0;
                    while j < width
                        invariant
                            0 <= j <= width,
                            0 <= i < n,
                            n == old_v.pendings.len(),
                            old_v.pendings[i as int] matches PendingView::Chain(id2, _, rows2, _) && id2
                                == *id && rows2 == rv,
                            irel == (|s: Interpolation<V>, v: V| call_ensures(interp, (s,), v)),
                            width == rv[0].len(),
                            rv == rows_view(*rows),
                            rv.len() > 0,
                            self@ == old_v,
                            self.wf(),
                            forall|s: Interpolation<V>| call_requires(interp, (s,)),
                            cur@.len() == j,
                            forall|k: int|
                                0 <= k < j && has_lazy_at(rv, k) ==> get_ok(old_v, *id, k, clock_now),
                            forall|k: int|
                                0 <= k < j ==> current_value_ok(
                                    old_v,
                                    clock_now,
                                    *id,
                                    rv,
                                    k,
                                    #[trigger] cur@[k],
                                    irel,
                                ),
                        decreases width - j,
                    {
                        let ghost before = cur@;
                        if has_lazy_column(rows, j) {
                            if !self.get_defined(*id, j, clock_now) {
                                assert(!(0 <= j < rv[0].len() && has_lazy_at(rv, j as int)
                                    ==> get_ok(old_v, *id, j as int, clock_now)));
                                assert(!resolvable(old_v, clock_now));
                                return false;
                            }
                            match self.get(*id, j, clock_now) {
                                Some(reading) => {
                                    let v = interp(reading);
                                    cur.push(Some(v));
                                    assert(irel(reading, v));
                                    assert(current_value_ok(
                                        old_v,
                                        clock_now,
                                        *id,
                                        rv,
                                        j as int,
                                        cur@[j as int],
                                        irel,
                                    ));
                                },
                                None => {
                                    cur.push(None);
                                },
                            }
                        } else {
                            cur.push(None);
                        }
                        assert(forall|k: int| 0 <= k < j ==> cur@[k] == before[k]);
                        j = j + 1;
                    }
                    // the durations of steps given by speeds
                    let mut sp: Vec<u128> = Vec::new();
                    if rows_fit_first(rows) {
                        assert(cur@.len() == rv[0].len());
                        let re = resolve_chain_rows(rows, &cur);
                        let ghost rev = rows_view(re);
                        let mut r: usize = 0;
                        while r < re.len()
                            invariant
                                0 <= r <= re@.len(),
                                rev == rows_view(re),
                                rev == resolve_rows(rv, cur@),
                                all_eager(rev),
                                drel == (|a: S, b: V, c: V, d: u128| call_ensures(
                                    speed_duration,
                                    (a, b, c),
                                    d,
                                )),
                                forall|a: S, b: V, c: V| call_requires(speed_duration, (a, b, c)),
                                sp@.len() == r,
                                forall|q: int|
                                    0 <= q < r ==> match step_of(rev, q) {
                                        Some(StepDuration::BySpeed(s, a, b)) => drel(
                                            s,
                                            a,
                                            b,
                                            #[trigger] sp@[q],
                                        ),
                                        _ => sp@[q] == 0,
                                    },
                            decreases re.len() - r,
                        {
                            let d = step_request(&re, r);
                            let ghost before = sp@;
                            match d {
                                Some(StepDuration::BySpeed(s, a, b)) => {
                                    let nanos = speed_duration(s, a, b);
                                    sp.push(nanos);
                                    assert(drel(s, a, b, nanos));
                                },
                                _ => {
                                    sp.push(0);
                                },
                            }
                            assert(forall|q: int| 0 <= q < r ==> sp@[q] == before[q]);
                            r = r + 1;
                        }
                    }
                    current.push(cur);
                    speed.push(sp);
                },
                _ => {
                    current.push(Vec::new());
                    speed.push(Vec::new());
                },
            }
            i = i + 1;
        }
        let ghost cv = rows_view(current);
        let ghost sv = rows_view(speed);
        assert(resolvable(old_v, clock_now));
        assert(current_ok(old_v, clock_now, cv, irel));
        assert(speed_ok(old_v, cv, sv, drel));
        self.run_start(now, &current, &speed)
    }

    /// Updates the timeline's time so that animations can continue atomically.
    pub fn now(&mut self, now: i128)
        requires
            old(self).wf(),
        ensures
            final(self).wf(),
            final(self)@ == (TimelineView { now: Some(now), ..old(self)@ }),
    {
        self.now = Some(now);
    }
}

} // verus!
