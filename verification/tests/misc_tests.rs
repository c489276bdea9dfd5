use cosmic_time::ease::{Back, Bounce, Ease, Linear, Quadratic};
use cosmic_time::frame::{Frame, MovementType, StepDuration, SubFrame};
use cosmic_time::keyframes::{Chain, Repeat};
use cosmic_time::static_array_from_iter;

#[test]
fn static_array_fills_from_front_with_defaults() {
    let a: [u64; 4] = static_array_from_iter([1u64, 2].into_iter());
    assert_eq!(a, [1, 2, 0, 0]);
    let b: [u64; 2] = static_array_from_iter(vec![7u64, 8, 9].into_iter());
    assert_eq!(b, [7, 8]);
    let c: [bool; 0] = static_array_from_iter([true].into_iter());
    assert_eq!(c.len(), 0);
}

#[test]
fn static_array_takes_at_most_its_size_from_an_infinite_iterator() {
    let a: [u64; 3] = static_array_from_iter(std::iter::repeat(7u64));
    assert_eq!(a, [7, 7, 7]);
    let b = static_array_from_iter::<u32, 4>((1u32..).map(|x| x * 10));
    assert_eq!(b, [10, 20, 30, 40]);
}

#[test]
fn repeat_defaults_to_never() {
    assert_eq!(Repeat::default(), Repeat::Never);
}

#[test]
fn ease_from_curves() {
    assert_eq!(Ease::from(Linear::InOut), Ease::Linear(Linear::InOut));
    assert_eq!(Ease::from(Quadratic::Bezier(3)), Ease::Quadratic(Quadratic::Bezier(3)));
    assert_eq!(Ease::from(Back::Out), Ease::Back(Back::Out));
    assert_eq!(Ease::from(Bounce::InOut), Ease::Bounce(Bounce::InOut));
}

#[test]
fn frames_become_eager_and_timed() {
    let e = Ease::Linear(Linear::InOut);
    let mut f: Frame<i64, u32> = Frame::lazy(MovementType::from_duration(5), 3, e);
    f.to_eager(Some(9));
    assert_eq!(f, Frame::eager(MovementType::from_duration(5), 9, e));
    assert_eq!(f.get_value(), 9);
    let mut g: Frame<i64, u32> = Frame::lazy(MovementType::from_speed(2), 3, e);
    g.to_eager(None);
    assert_eq!(g.get_value(), 3);
    assert_eq!(g.get_duration(&f), StepDuration::BySpeed(2, 9, 3));
    assert_eq!(f.get_duration(&g), StepDuration::Fixed(5));
    let s = f.to_subframe(42);
    assert_eq!(s.value, 9);
    assert_eq!(s.at, 42);
    // eager frames are left as they are
    let mut h = f;
    h.to_eager(Some(100));
    assert_eq!(h, f);
}

#[test]
fn subframes_compare_by_instant() {
    let e = Ease::Linear(Linear::InOut);
    let a = SubFrame::new(10, 1i64, e);
    let b = SubFrame::new(10, 2i64, e);
    let c = SubFrame::new(20, 1i64, e);
    assert!(a == b);
    assert!(a != c);
    assert!(a < c);
    assert_eq!(a.partial_cmp(&b), Some(std::cmp::Ordering::Equal));
}

#[test]
fn keyframe_chain_builder() {
    let c: Chain<i64> = Chain::new(5).link(1).link(2).loop_forever();
    let tc = c.into_timeline_chain(|k: i64| {
        vec![Some(Frame::<i64, u32>::eager(MovementType::from_duration(0), k * 10, Ease::Linear(Linear::InOut))), None]
    });
    assert_eq!(tc.id, 5);
    assert_eq!(tc.repeat, Repeat::Forever);
    assert_eq!(tc.links.len(), 2);
    assert_eq!(tc.links[1][0], Some(Frame::eager(MovementType::from_duration(0), 20, Ease::Linear(Linear::InOut))));
    assert_eq!(tc.links[0][1], None);
    let d: Chain<i64> = Chain::with_children(6, vec![3]).loop_forever().loop_once();
    let td = d.into_timeline_chain(|_k: i64| Vec::<Option<Frame<i64, u32>>>::new());
    assert_eq!(td.repeat, Repeat::Never);
    assert_eq!(td.links.len(), 1);
}
