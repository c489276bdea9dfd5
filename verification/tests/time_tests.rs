use cosmic_time::keyframes::Repeat;
use cosmic_time::time::{
    instant_add, instant_elapsed, instant_sub, instant_sub_ok, relative_time, room_above, Meta, Pause,
};

const SEC: i128 = 1_000_000_000;

#[test]
fn elapsed_saturates() {
    assert_eq!(instant_elapsed(5, 3), 2);
    assert_eq!(instant_elapsed(3, 5), 0);
    assert_eq!(instant_elapsed(i128::MAX, i128::MIN), u128::MAX);
    assert_eq!(instant_elapsed(1, -1), 2);
}

#[test]
fn instant_arithmetic() {
    assert_eq!(room_above(i128::MAX), 0);
    assert_eq!(room_above(i128::MIN), u128::MAX);
    assert_eq!(instant_add(i128::MIN, u128::MAX), i128::MAX);
    assert_eq!(instant_add(-5, 10), 5);
    assert!(instant_sub_ok(0, 5));
    assert!(!instant_sub_ok(i128::MIN, 1));
    assert!(instant_sub_ok(i128::MAX, u128::MAX));
    assert!(!instant_sub_ok(i128::MAX - 1, u128::MAX));
    assert_eq!(instant_sub(i128::MAX, u128::MAX), i128::MIN);
    assert_eq!(instant_sub(3, 5), -2);
}

#[test]
fn relative_time_of_looping_and_plain_animations() {
    let looping = Meta::new(Repeat::Forever, 0, SEC, 1_000_000_000, Pause::NoPause);
    assert_eq!(relative_time(2 * SEC + 300_000_000, &looping), 300_000_000);
    assert_eq!(relative_time(-SEC, &looping), -SEC);
    let once = Meta::new(Repeat::Never, 0, SEC, 1_000_000_000, Pause::NoPause);
    assert_eq!(relative_time(5 * SEC, &once), 5 * SEC);
}

#[test]
fn meta_pause_and_resume() {
    let mut m = Meta::new(Repeat::Never, 0, 10 * SEC, 10_000_000_000, Pause::NoPause);
    assert!(m.pause.is_playing());
    m.pause(4 * SEC);
    assert_eq!(m.pause, Pause::Paused(4 * SEC));
    assert!(!m.pause.is_playing());
    m.resume(9 * SEC);
    assert_eq!(m.pause, Pause::Resumed(5_000_000_000));
    m.pause(10 * SEC);
    assert_eq!(m.pause, Pause::Paused(5 * SEC));
    let mut n = Meta::new(Repeat::Never, 0, 10 * SEC, 10_000_000_000, Pause::NoPause);
    n.resume(3 * SEC);
    assert_eq!(n.pause, Pause::NoPause);
}

#[test]
fn relative_time_twice_is_relative_time_once() {
    let looping = Meta::new(Repeat::Forever, SEC, 3 * SEC, 2_000_000_000, Pause::NoPause);
    for now in [0, SEC, 2 * SEC, 7 * SEC + 123, 100 * SEC + 999_999] {
        let once = relative_time(now, &looping);
        assert_eq!(relative_time(once, &looping), once);
        assert!(once <= now);
        if now >= SEC {
            assert!(once >= SEC && once < 3 * SEC);
        }
    }
}
