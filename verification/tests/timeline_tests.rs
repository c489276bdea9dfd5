use cosmic_time::ease::{Ease, Linear, Quadratic};
use cosmic_time::frame::{Frame, MovementType};
use cosmic_time::keyframes::Repeat;
use cosmic_time::timeline::{Chain, Interpolation, Timeline};

const SEC: i128 = 1_000_000_000;
const SEC_U: u128 = 1_000_000_000;

fn lin() -> Ease {
    Ease::Linear(Linear::InOut)
}

fn at(nanos: u128, value: i64) -> Option<Frame<i64, u32>> {
    Some(Frame::eager(MovementType::from_duration(nanos), value, lin()))
}

fn lazy_at(nanos: u128, default: i64) -> Option<Frame<i64, u32>> {
    Some(Frame::lazy(MovementType::from_duration(nanos), default, lin()))
}

/// The value a reading stands for, by linear interpolation.
fn interp(i: Interpolation<i64>) -> i64 {
    match i {
        Interpolation::Settled(v) => v,
        Interpolation::Between { previous, next, elapsed_millis, duration_millis, .. } => {
            if duration_millis == 0 {
                next
            } else {
                previous + (next - previous) * (elapsed_millis as i64) / (duration_millis as i64)
            }
        }
    }
}

/// Units per second: the time, in nanoseconds, to cover the distance.
fn speed_nanos(speed: u32, a: i64, b: i64) -> u128 {
    let dist = (a - b).unsigned_abs() as u128;
    dist * SEC_U / (speed as u128)
}

fn start(t: &mut Timeline<i64, u32>, now: i128) -> bool {
    t.start_at(now, now, interp, speed_nanos)
}

fn width_chain(id: u64) -> Chain<i64, u32> {
    Chain::new(id, Repeat::Never, vec![vec![at(0, 10)], vec![at(10 * SEC_U, 100)]])
}

#[test]
fn started_chain_interpolates_between_keyframes() {
    let mut t: Timeline<i64, u32> = Timeline::new();
    t.set_chain(width_chain(1));
    assert!(start(&mut t, 0));
    t.now(5 * SEC);
    let r = t.get(1, 0, 0);
    assert_eq!(
        r,
        Some(Interpolation::Between {
            previous: 10,
            next: 100,
            elapsed_millis: 5000,
            duration_millis: 10000,
            ease: lin(),
        })
    );
    assert_eq!(interp(r.unwrap()), 55);
}

#[test]
fn finished_chain_settles_on_last_keyframe() {
    let mut t: Timeline<i64, u32> = Timeline::new();
    t.set_chain(width_chain(1));
    assert!(start(&mut t, 0));
    t.now(10 * SEC);
    assert_eq!(t.get(1, 0, 0), Some(Interpolation::Settled(100)));
    t.now(12 * SEC);
    assert_eq!(t.get(1, 0, 0), Some(Interpolation::Settled(100)));
}

#[test]
fn get_of_unknown_animation_or_modifier_is_none() {
    let mut t: Timeline<i64, u32> = Timeline::new();
    assert_eq!(t.get(1, 0, 0), None);
    t.set_chain(width_chain(1));
    // not started yet
    assert_eq!(t.get(1, 0, 0), None);
    assert!(start(&mut t, 0));
    assert_eq!(t.get(1, 1, 0), None);
    assert_eq!(t.get(2, 0, 0), None);
}

#[test]
fn clock_is_read_only_without_a_timeline_instant() {
    let mut t: Timeline<i64, u32> = Timeline::new();
    t.set_chain(width_chain(1));
    assert!(start(&mut t, 0));
    // start sets the timeline's instant: the clock argument is ignored
    assert_eq!(t.get(1, 0, 7 * SEC), t.get(1, 0, 0));
    let mut u: Timeline<i64, u32> = Timeline::default();
    u.set_chain(width_chain(1));
    assert!(start(&mut u, 0));
    u.now(2 * SEC);
    assert_eq!(
        u.get(1, 0, 9 * SEC),
        Some(Interpolation::Between {
            previous: 10,
            next: 100,
            elapsed_millis: 2000,
            duration_millis: 10000,
            ease: lin(),
        })
    );
}

#[test]
fn looping_chain_maps_back_to_first_loop() {
    let mut t: Timeline<i64, u32> = Timeline::new();
    t.set_chain(Chain::new(3, Repeat::Forever, vec![vec![at(0, 0)], vec![at(SEC_U, 100)]]));
    assert!(start(&mut t, 0));
    t.now(2 * SEC + SEC / 2);
    assert_eq!(
        t.get(3, 0, 0),
        Some(Interpolation::Between {
            previous: 0,
            next: 100,
            elapsed_millis: 500,
            duration_millis: 1000,
            ease: lin(),
        })
    );
    assert!(t.needs_frames());
}

#[test]
fn paused_chain_is_frozen_and_resumes_where_it_stopped() {
    let mut t: Timeline<i64, u32> = Timeline::new();
    t.set_chain(width_chain(1));
    assert!(start(&mut t, 0));
    t.pause(1);
    assert!(start(&mut t, 4 * SEC));
    t.now(8 * SEC);
    let frozen = t.get(1, 0, 0);
    assert_eq!(interp(frozen.unwrap()), 46);
    t.now(9 * SEC);
    assert_eq!(t.get(1, 0, 0), frozen);
    assert!(!t.needs_frames());
    t.resume(1);
    assert!(start(&mut t, 9 * SEC));
    t.now(10 * SEC);
    // five seconds paused: one second after resuming it is five seconds in
    assert_eq!(
        t.get(1, 0, 0),
        Some(Interpolation::Between {
            previous: 10,
            next: 100,
            elapsed_millis: 5000,
            duration_millis: 10000,
            ease: lin(),
        })
    );
}

#[test]
fn pause_all_and_resume_all() {
    let mut t: Timeline<i64, u32> = Timeline::new();
    t.set_chain(width_chain(1));
    t.set_chain(width_chain(2));
    assert!(start(&mut t, 0));
    t.pause_all();
    assert!(start(&mut t, SEC));
    t.now(3 * SEC);
    assert_eq!(interp(t.get(1, 0, 0).unwrap()), 19);
    assert_eq!(interp(t.get(2, 0, 0).unwrap()), 19);
    assert!(!t.needs_frames());
    t.resume_all();
    assert!(start(&mut t, 3 * SEC));
    assert!(t.needs_frames());
}

#[test]
fn chain_set_paused_waits_on_its_first_frame() {
    let mut t: Timeline<i64, u32> = Timeline::new();
    t.set_chain_paused(width_chain(1));
    assert!(start(&mut t, 0));
    t.now(5 * SEC);
    assert_eq!(
        t.get(1, 0, 0),
        Some(Interpolation::Between {
            previous: 10,
            next: 100,
            elapsed_millis: 0,
            duration_millis: 10000,
            ease: lin(),
        })
    );
}

#[test]
fn set_chain_replaces_the_pending_chain_of_the_same_id() {
    let mut t: Timeline<i64, u32> = Timeline::new();
    t.set_chain(width_chain(1));
    t.set_chain(Chain::new(1, Repeat::Never, vec![vec![at(0, 7)]]));
    assert!(start(&mut t, 0));
    t.now(5 * SEC);
    assert_eq!(t.get(1, 0, 0), Some(Interpolation::Settled(7)));
}

#[test]
fn chains_started_together_stay_in_sync() {
    let mut t: Timeline<i64, u32> = Timeline::new();
    t.set_chain(width_chain(1));
    t.set_chain(Chain::new(2, Repeat::Never, vec![vec![at(0, 0)], vec![at(10 * SEC_U, 1000)]]));
    assert!(start(&mut t, SEC));
    t.now(6 * SEC);
    let a = t.get(1, 0, 0).unwrap();
    let b = t.get(2, 0, 0).unwrap();
    match (a, b) {
        (
            Interpolation::Between { elapsed_millis: e1, duration_millis: d1, .. },
            Interpolation::Between { elapsed_millis: e2, duration_millis: d2, .. },
        ) => {
            assert_eq!(e1, 5000);
            assert_eq!(e1, e2);
            assert_eq!(d1, d2);
        }
        _ => panic!("both animations should be running"),
    }
}

#[test]
fn clear_chain_removes_the_animation() {
    let mut t: Timeline<i64, u32> = Timeline::new();
    t.set_chain(width_chain(1));
    t.set_chain(width_chain(2));
    assert!(start(&mut t, 0));
    t.clear_chain(1);
    assert_eq!(t.get(1, 0, 0), None);
    assert!(t.get(2, 0, 0).is_some());
}

#[test]
fn remove_pending_forgets_requests() {
    let mut t: Timeline<i64, u32> = Timeline::new();
    t.set_chain(width_chain(1));
    t.remove_pending();
    assert!(start(&mut t, 0));
    assert_eq!(t.get(1, 0, 0), None);
}

#[test]
fn lazy_keyframe_continues_from_current_value() {
    let mut t: Timeline<i64, u32> = Timeline::new();
    t.set_chain(Chain::new(1, Repeat::Never, vec![vec![at(0, 0)], vec![at(10 * SEC_U, 100)]]));
    assert!(start(&mut t, 0));
    t.now(5 * SEC);
    t.set_chain(Chain::new(1, Repeat::Never, vec![vec![lazy_at(0, 0)], vec![at(10 * SEC_U, 0)]]));
    assert!(start(&mut t, 5 * SEC));
    assert_eq!(
        t.get(1, 0, 0),
        Some(Interpolation::Between {
            previous: 50,
            next: 0,
            elapsed_millis: 0,
            duration_millis: 10000,
            ease: lin(),
        })
    );
}

#[test]
fn lazy_keyframe_without_previous_animation_uses_its_default() {
    let mut t: Timeline<i64, u32> = Timeline::new();
    t.set_chain(Chain::new(4, Repeat::Never, vec![vec![lazy_at(0, 33)], vec![at(SEC_U, 0)]]));
    assert!(start(&mut t, 0));
    assert_eq!(
        t.get(4, 0, 0),
        Some(Interpolation::Between {
            previous: 33,
            next: 0,
            elapsed_millis: 0,
            duration_millis: 1000,
            ease: lin(),
        })
    );
}

#[test]
fn speed_keyframe_derives_its_duration() {
    let mut t: Timeline<i64, u32> = Timeline::new();
    let fast = Some(Frame::eager(MovementType::from_speed(10u32), 100i64, lin()));
    t.set_chain(Chain::new(1, Repeat::Never, vec![vec![at(0, 0)], vec![fast]]));
    assert!(start(&mut t, 0));
    t.now(5 * SEC);
    assert_eq!(
        t.get(1, 0, 0),
        Some(Interpolation::Between {
            previous: 0,
            next: 100,
            elapsed_millis: 5000,
            duration_millis: 10000,
            ease: lin(),
        })
    );
}

#[test]
fn equal_keyframes_are_skipped() {
    let mut t: Timeline<i64, u32> = Timeline::new();
    let q = Ease::Quadratic(Quadratic::In);
    let last = Some(Frame::eager(MovementType::from_duration(SEC_U), 20i64, q));
    t.set_chain(Chain::new(1, Repeat::Never, vec![vec![at(0, 10)], vec![at(SEC_U, 10)], vec![last]]));
    assert!(start(&mut t, 0));
    t.now(SEC / 2);
    assert_eq!(
        t.get(1, 0, 0),
        Some(Interpolation::Between {
            previous: 10,
            next: 20,
            elapsed_millis: 0,
            duration_millis: 1000,
            ease: q,
        })
    );
}

#[test]
fn missing_frames_leave_a_modifier_alone() {
    let mut t: Timeline<i64, u32> = Timeline::new();
    // modifier 1 only has frames in rows 0 and 2
    let rows = vec![vec![at(0, 0), at(0, 5)], vec![at(SEC_U, 10), None], vec![at(SEC_U, 20), at(SEC_U, 50)]];
    t.set_chain(Chain::new(1, Repeat::Never, rows));
    assert!(start(&mut t, 0));
    t.now(SEC);
    assert_eq!(
        t.get(1, 1, 0),
        Some(Interpolation::Between {
            previous: 5,
            next: 50,
            elapsed_millis: 1000,
            duration_millis: 2000,
            ease: lin(),
        })
    );
}

#[test]
fn needs_frames_follows_playing_animations() {
    let mut t: Timeline<i64, u32> = Timeline::new();
    assert!(!t.needs_frames());
    t.set_chain(width_chain(1));
    assert!(start(&mut t, 0));
    assert!(t.needs_frames());
    t.now(10 * SEC);
    assert!(t.needs_frames());
    t.now(11 * SEC);
    assert!(!t.needs_frames());
}

#[test]
fn start_refuses_a_chain_without_keyframes() {
    let mut t: Timeline<i64, u32> = Timeline::new();
    t.set_chain(Chain::new(1, Repeat::Never, vec![]));
    assert!(!start(&mut t, 0));
}

#[test]
fn start_refuses_a_chain_ending_past_the_last_instant() {
    let mut t: Timeline<i64, u32> = Timeline::new();
    t.set_chain(Chain::new(1, Repeat::Never, vec![vec![at(0, 0)], vec![at(10 * SEC_U, 1)]]));
    assert!(!start(&mut t, i128::MAX - SEC));
}

#[test]
fn looping_chain_shorter_than_a_millisecond_cannot_be_read() {
    let mut t: Timeline<i64, u32> = Timeline::new();
    t.set_chain(Chain::new(1, Repeat::Forever, vec![vec![at(0, 0)], vec![at(10, 1)]]));
    assert!(start(&mut t, 0));
    assert!(!t.get_defined(1, 0, 0));
    assert!(t.get_defined(1, 1, 0));
    assert!(t.get_defined(2, 0, 0));
}

#[test]
fn start_with_given_values() {
    let mut t: Timeline<i64, u32> = Timeline::new();
    t.set_chain(width_chain(1));
    t.start_with(SEC, &vec![vec![None]], &vec![vec![0, 0]]);
    t.now(6 * SEC);
    assert_eq!(interp(t.get(1, 0, 0).unwrap()), 55);
}

#[test]
fn start_refuses_a_chain_wider_after_its_first_keyframe() {
    let mut t: Timeline<i64, u32> = Timeline::new();
    t.set_chain(Chain::new(1, Repeat::Never, vec![vec![at(0, 0)], vec![at(SEC_U, 1), at(SEC_U, 2)]]));
    assert!(!start(&mut t, 0));
}

#[test]
fn start_refuses_to_pause_a_looping_chain_shorter_than_a_millisecond() {
    let mut t: Timeline<i64, u32> = Timeline::new();
    t.set_chain(Chain::new(1, Repeat::Forever, vec![vec![at(0, 0)], vec![at(10, 1)]]));
    assert!(start(&mut t, 0));
    t.pause(1);
    assert!(!start(&mut t, SEC));
}

#[test]
fn start_refuses_to_continue_a_looping_chain_shorter_than_a_millisecond() {
    let mut t: Timeline<i64, u32> = Timeline::new();
    t.set_chain(Chain::new(1, Repeat::Forever, vec![vec![at(0, 0)], vec![at(10, 1)]]));
    assert!(start(&mut t, 0));
    t.set_chain(Chain::new(1, Repeat::Never, vec![vec![lazy_at(0, 0)], vec![at(SEC_U, 1)]]));
    assert!(!start(&mut t, SEC));
}

#[test]
fn resuming_a_playing_animation_changes_nothing() {
    let mut t: Timeline<i64, u32> = Timeline::new();
    t.set_chain(width_chain(1));
    assert!(start(&mut t, 0));
    t.resume(1);
    t.resume(7);
    assert!(start(&mut t, 2 * SEC));
    t.now(5 * SEC);
    assert_eq!(interp(t.get(1, 0, 0).unwrap()), 55);
}

#[test]
fn looping_chain_reads_the_same_a_whole_loop_later() {
    let mut t: Timeline<i64, u32> = Timeline::new();
    t.set_chain(Chain::new(3, Repeat::Forever, vec![vec![at(0, 0)], vec![at(2 * SEC_U, 100)]]));
    assert!(start(&mut t, SEC));
    t.now(SEC + 700_000_000);
    let first = t.get(3, 0, 0);
    for k in 1..5i128 {
        t.now(SEC + 700_000_000 + k * 2 * SEC);
        assert_eq!(t.get(3, 0, 0), first);
    }
}

#[test]
fn chain_set_paused_and_chain_set_playing_start_together() {
    let mut t: Timeline<i64, u32> = Timeline::new();
    t.set_chain(width_chain(1));
    t.set_chain_paused(width_chain(2));
    assert!(start(&mut t, 3 * SEC));
    t.now(8 * SEC);
    assert_eq!(interp(t.get(1, 0, 0).unwrap()), 55);
    assert_eq!(interp(t.get(2, 0, 0).unwrap()), 10);
}

#[test]
fn later_rows_may_be_longer_with_nothing_in_the_extra_places() {
    let mut t: Timeline<i64, u32> = Timeline::new();
    t.set_chain(Chain::new(1, Repeat::Never, vec![vec![at(0, 0)], vec![at(10 * SEC_U, 100), None, None]]));
    assert!(start(&mut t, 0));
    t.now(5 * SEC);
    assert_eq!(interp(t.get(1, 0, 0).unwrap()), 50);
    assert_eq!(t.get(1, 1, 0), None);
}
