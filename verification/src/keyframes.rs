//! Keyframe chains: the keyframes of one animation, in order, before they
//! are handed to a timeline.
use vstd::prelude::*;

use crate::frame::Frame;

verus! {

/// Whether an animation chain plays once or loops forever.
#[derive(Debug, Clone, Copy, PartialEq, Eq, Structural)]
pub enum Repeat {
    /// Play the chain once and stay on its last keyframe.
    Never,
    /// Restart the chain every time it ends.
    Forever,
}

impl Default for Repeat {
    fn default() -> (r: Self)
        ensures
            r == Repeat::Never,
    {
        Repeat::Never
    }
}

/// The keyframes of one animation, of one kind `K` (a button's, a
/// container's, ...), in the order they play.
#[derive(Debug, Clone)]
pub struct Chain<K> {
    id: u64,
    links: Vec<K>,
    repeat: Repeat,
}

impl<K> Chain<K> {
    /// The id of the animation.
    pub closed spec fn id(&self) -> u64 {
        self.id
    }

    /// The keyframes, in order.
    pub closed spec fn links(&self) -> Seq<K> {
        self.links@
    }

    /// Whether the chain loops.
    pub closed spec fn repeat(&self) -> Repeat {
        self.repeat
    }

    /// A chain with no keyframes yet, played once.
    pub fn new(id: u64) -> (c: Self)
        ensures
            c.id() == id,
            c.links() == Seq::<K>::empty(),
            c.repeat() == Repeat::Never,
    {
        Chain { id, links: Vec::new(), repeat: Repeat::Never }
    }

    /// A chain of these keyframes, played once.
    pub fn with_children(id: u64, children: Vec<K>) -> (c: Self)
        ensures
            c.id() == id,
            c.links() == children@,
            c.repeat() == Repeat::Never,
    {
        Chain { id, links: children, repeat: Repeat::Never }
    }

    /// Adds a keyframe at the end of the chain.
    pub fn link(self, keyframe: K) -> (c: Self)
        ensures
            c.id() == self.id(),
            c.links() == self.links().push(keyframe),
            c.repeat() == self.repeat(),
    {
        let mut c = self;
        c.links.push(keyframe);
        c
    }

    /// Makes the chain loop forever.
    pub fn loop_forever(self) -> (c: Self)
        ensures
            c.id() == self.id(),
            c.links() == self.links(),
            c.repeat() == Repeat::Forever,
    {
        let mut c = self;
        c.repeat = Repeat::Forever;
        c
    }

    /// Makes the chain play once.
    pub fn loop_once(self) -> (c: Self)
        ensures
            c.id() == self.id(),
            c.links() == self.links(),
            c.repeat() == Repeat::Never,
    {
        let mut c = self;
        c.repeat = Repeat::Never;
        c
    }

    /// The chain as a timeline takes it: each keyframe becomes a row of
    /// optional frames, one per modifier of the animated widget, as
    /// `to_row` lays it out.
    pub fn into_timeline_chain<V, S, F: Fn(K) -> Vec<Option<Frame<V, S>>>>(
        self,
        to_row: F,
    ) -> (c: crate::timeline::Chain<V, S>)
        requires
            forall|k: K| call_requires(to_row, (k,)),
        ensures
            c.id == self.id(),
            c.repeat == self.repeat(),
            c.links@.len() == self.links().len(),
            forall|r: int|
                0 <= r < self.links().len() ==> call_ensures(
                    to_row,
                    (self.links()[r],),
                    #[trigger] c.links@[r],
                ),
    {
        let ghost links = self.links();
        let Chain { id, links: keys, repeat } = self;
        let mut rows: Vec<Vec<Option<Frame<V, S>>>> = Vec::new();
        let mut keys = keys;
        let n = keys.len();
        while keys.len() > 0
            invariant
                forall|k: K| call_requires(to_row, (k,)),
                n == links.len(),
                rows@.len() <= n,
                keys@ == links.subrange(rows@.len() as int, n as int),
                forall|q: int|
                    0 <= q < rows@.len() ==> call_ensures(to_row, (links[q],), #[trigger] rows@[q]),
            decreases keys.len(),
        {
            let ghost done = rows@.len() as int;
            let k = keys.remove(0);
            assert(k == links[done]);
            let row = to_row(k);
            rows.push(row);
            assert(keys@ =~= links.subrange(rows@.len() as int, n as int));
        }
        assert(rows@.len() == n);
        let c = crate::timeline::Chain::new(id, repeat, rows);
        c
    }
}

} // verus!
