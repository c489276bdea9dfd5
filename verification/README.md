# cosmic-time (verified core)

The logic of an animation toolkit for iced, verified with Verus: a timeline
of keyframe chains that starts animations in sync, loops, pauses and
resumes them, continues lazy keyframes from where an animation is, and
says between which two keyframes each animated value currently is; plus
the state machines of the animated buttons and of a stack of cards.

Layout:

- `src/time.rs`: instants and durations in nanoseconds, animation
  metadata, looping and pausing.
- `src/frame.rs`: keyframes (eager or lazy, timed or speed controlled).
- `src/timeline.rs`: the timeline and its model; `src/timeline/laws.rs`
  states what a start does and how started keyframes are laid out.
- `src/keyframes.rs`, `src/ease.rs`: keyframe chains, easing selections.
- `src/widget/`: button, toggler and card stack decisions.
- `app/`: the toolkit side (floating point easing and interpolation,
  speeds, clock instants, iced ids and events).
- `tests/`: executable scenarios.

The timeline keeps its started animations and its pending requests in
vectors of `(id, value)` pairs, with one entry per id as part of its
invariant, rather than in hash maps: a start then processes the pending
requests in one stated order (every chain first, then the pause and resume
requests in list order), which its contract gives exactly, where a hash
map's walking order would be left open.
