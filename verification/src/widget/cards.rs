//! A stack of cards that can be expanded: which of its parts an input
//! event is offered to, in what order its parts are drawn, and what
//! pressing a card does.
//!
//! The toolkit delivers the event to each part the [`Router`] names, and
//! reports back whether the part captured it, until the router names no
//! more parts.
use vstd::prelude::*;

use crate::widget::Status;

verus! {

/// A part of a stack of cards.
#[derive(Debug, Clone, Copy, PartialEq, Eq, Structural)]
pub enum Target {
    /// The "show less" button.
    ShowLess,
    /// The "clear all" button.
    ClearAll,
    /// The card at this position.
    Card(usize),
}

/// The order a stack of `n` cards offers an event in: nothing when it is
/// empty; otherwise its two buttons first when it is fully expanded, then
/// its cards in order, only the first one when it is fully collapsed.
pub open spec fn route(n: nat, fully_expanded: bool, fully_unexpanded: bool) -> Seq<Target> {
    if n == 0 {
        Seq::empty()
    } else {
        let buttons = if fully_expanded {
            seq![Target::ShowLess, Target::ClearAll]
        } else {
            Seq::empty()
        };
        let cards = if fully_unexpanded {
            seq![Target::Card(0)]
        } else {
            Seq::new(n, |i: int| Target::Card(i as usize))
        };
        buttons + cards
    }
}

/// Offers one event to the parts of a stack of cards, in [`route`] order,
/// until one of them captures it.
pub struct Router {
    order: Vec<Target>,
    pos: usize,
    status: Status,
}

impl Router {
    /// The parts the event is offered to, in order.
    pub closed spec fn order(&self) -> Seq<Target> {
        self.order@
    }

    /// How many parts the event was offered to so far.
    pub closed spec fn offered(&self) -> nat {
        self.pos as nat
    }

    /// Whether a part captured the event.
    pub closed spec fn spec_status(&self) -> Status {
        self.status
    }

    /// The router's invariant: it never offers the event past the end of
    /// its order.
    pub closed spec fn wf(&self) -> bool {
        self.pos <= self.order@.len()
    }

    /// A router for one event on a stack of `n` cards.
    pub fn new(n: usize, fully_expanded: bool, fully_unexpanded: bool) -> (r: Router)
        ensures
            r.wf(),
            r.order() == route(n as nat, fully_expanded, fully_unexpanded),
            r.offered() == 0,
            r.spec_status() == Status::Ignored,
    {
        let mut order: Vec<Target> = Vec::new();
        if n > 0 {
            if fully_expanded {
                order.push(Target::ShowLess);
                order.push(Target::ClearAll);
            }
            let ghost buttons = order@;
            assert(buttons =~= if fully_expanded {
                seq![Target::ShowLess, Target::ClearAll]
            } else {
                Seq::empty()
            });
            if fully_unexpanded {
                order.push(Target::Card(0));
            } else {
                let mut i: usize = 0;
                while i < n
                    invariant
                        0 <= i <= n,
                        order@.len() == buttons.len() + i,
                        forall|k: int| 0 <= k < buttons.len() ==> order@[k] == buttons[k],
                        forall|m: int|
                            buttons.len() <= m < order@.len() ==> #[trigger] order@[m] == Target::Card(
                                (m - buttons.len()) as usize,
                            ),
                    decreases n - i,
                {
                    order.push(Target::Card(i));
                    i = i + 1;
                }
                assert(order@ =~= buttons + Seq::new(n as nat, |i: int| Target::Card(i as usize)));
            }
            assert(order@ =~= route(n as nat, fully_expanded, fully_unexpanded));
        } else {
            assert(order@ =~= route(n as nat, fully_expanded, fully_unexpanded));
        }
        Router { order, pos: 0, status: Status::Ignored }
    }

    /// The next part to offer the event to: none once a part has captured
    /// it or every part has been offered it.
    pub fn next(&self) -> (t: Option<Target>)
        requires
            self.wf(),
        ensures
            t == if self.spec_status() == Status::Ignored && self.offered() < self.order().len() {
                Some(self.order()[self.offered() as int])
            } else {
                None
            },
    {
        if self.status == Status::Ignored && self.pos < self.order.len() {
            Some(self.order[self.pos])
        } else {
            None
        }
    }

    /// Records what the part [`Router::next`] named did with the event.
    pub fn deliver(&mut self, reply: Status)
        requires
            old(self).wf(),
            old(self).spec_status() == Status::Ignored,
            old(self).offered() < old(self).order().len(),
        ensures
            final(self).wf(),
            final(self).order() == old(self).order(),
            final(self).offered() == old(self).offered() + 1,
            final(self).spec_status() == reply,
    {
        let len = self.order.len();
        assert(self.pos < len);
        self.pos = self.pos + 1;
        self.status = reply;
    }

    /// Whether a part captured the event.
    pub fn status(&self) -> (s: Status)
        ensures
            s == self.spec_status(),
    {
        self.status
    }
}

/// A fully collapsed stack offers an event to its first card only, and an
/// empty stack to nothing; a stack that is not fully expanded never offers
/// it to its buttons.
pub proof fn lemma_route_shape(n: nat, fully_expanded: bool, fully_unexpanded: bool)
    ensures
        n == 0 ==> route(n, fully_expanded, fully_unexpanded).len() == 0,
        n > 0 && !fully_expanded && fully_unexpanded ==> route(n, fully_expanded, fully_unexpanded)
            == seq![Target::Card(0)],
        !fully_expanded ==> forall|i: int|
            0 <= i < route(n, fully_expanded, fully_unexpanded).len() ==> #[trigger] route(
                n,
                fully_expanded,
                fully_unexpanded,
            )[i] is Card,
{
    if n > 0 && !fully_expanded {
        assert(route(n, fully_expanded, fully_unexpanded) =~= (if fully_unexpanded {
            seq![Target::Card(0)]
        } else {
            Seq::new(n, |i: int| Target::Card(i as usize))
        }));
    }
}


/// The routing order in full: a fully expanded stack offers the event to
/// "show less" then "clear all" first; then a fully collapsed stack offers
/// it to its first card only, any other stack to every card in order, each
/// once.
pub proof fn lemma_route_order(n: nat, fully_expanded: bool, fully_unexpanded: bool)
    requires
        n > 0,
    ensures
        ({
            let r = route(n, fully_expanded, fully_unexpanded);
            let b: int = if fully_expanded { 2 } else { 0 };
            &&& r.len() == b + if fully_unexpanded { 1 } else { n as int }
            &&& fully_expanded ==> r[0] == Target::ShowLess && r[1] == Target::ClearAll
            &&& fully_unexpanded ==> r[b] == Target::Card(0)
            &&& !fully_unexpanded ==> forall|c: int| 0 <= c < n ==> #[trigger] r[b + c] == Target::Card(
                c as usize,
            )
            &&& forall|k: int| b <= k < r.len() ==> #[trigger] r[k] is Card
        }),
{
}

/// A part of a stack of cards to draw.
#[derive(Debug, Clone, Copy, PartialEq, Eq, Structural)]
pub enum DrawPart {
    /// The "show less" button.
    ShowLess,
    /// The "clear all" button.
    ClearAll,
    /// The background card at this depth behind the first card.
    Background(usize),
    /// The card at this position.
    Card(usize),
}

/// The order a stack of `n` cards is drawn in, later parts over earlier
/// ones: nothing when it is empty; otherwise its two buttons first when it
/// is fully expanded; then, fully collapsed, the background cards (at most
/// two of the `backgrounds` laid out), deepest first, and the first card
/// over them; else every card, the last one first, so that each card is
/// drawn over the ones after it.
pub open spec fn spec_draw_plan(
    n: nat,
    fully_expanded: bool,
    fully_unexpanded: bool,
    backgrounds: nat,
) -> Seq<DrawPart> {
    if n == 0 {
        Seq::empty()
    } else {
        let buttons = if fully_expanded {
            seq![DrawPart::ShowLess, DrawPart::ClearAll]
        } else {
            Seq::empty()
        };
        let m: nat = if backgrounds < 2 { backgrounds } else { 2 };
        let cards = if fully_unexpanded {
            Seq::new(m, |i: int| DrawPart::Background((m - 1 - i) as usize)).push(DrawPart::Card(0))
        } else {
            Seq::new(n, |i: int| DrawPart::Card((n - 1 - i) as usize))
        };
        buttons + cards
    }
}

/// The order the parts of a stack of `n` cards are drawn in (see
/// [`spec_draw_plan`]); `backgrounds` is how many background cards the
/// layout placed behind the first card.
pub fn draw_plan(
    n: usize,
    fully_expanded: bool,
    fully_unexpanded: bool,
    backgrounds: usize,
) -> (p: Vec<DrawPart>)
    ensures
        p@ == spec_draw_plan(n as nat, fully_expanded, fully_unexpanded, backgrounds as nat),
{
    let mut p: Vec<DrawPart> = Vec::new();
    if n == 0 {
        assert(p@ =~= spec_draw_plan(n as nat, fully_expanded, fully_unexpanded, backgrounds as nat));
        return p;
    }
    if fully_expanded {
        p.push(DrawPart::ShowLess);
        p.push(DrawPart::ClearAll);
    }
    let ghost buttons = p@;
    assert(buttons =~= if fully_expanded {
        seq![DrawPart::ShowLess, DrawPart::ClearAll]
    } else {
        Seq::empty()
    });
    if fully_unexpanded {
        let m: usize = if backgrounds < 2 { backgrounds } else { 2 };
        let mut k: usize = 0;
        while k < m
            invariant
                0 <= k <= m,
                m <= 2,
                p@.len() == buttons.len() + k,
                forall|q: int| 0 <= q < buttons.len() ==> p@[q] == buttons[q],
                forall|q: int|
                    buttons.len() <= q < p@.len() ==> #[trigger] p@[q] == DrawPart::Background(
                        (m - 1 - (q - buttons.len())) as usize,
                    ),
            decreases m - k,
        {
            p.push(DrawPart::Background(m - 1 - k));
            k = k + 1;
        }
        p.push(DrawPart::Card(0));
        assert(p@ =~= buttons + Seq::new(m as nat, |i: int| DrawPart::Background((m - 1 - i) as usize)).push(
            DrawPart::Card(0),
        ));
    } else {
        let mut k: usize = 0;
        while k < n
            invariant
                0 <= k <= n,
                p@.len() == buttons.len() + k,
                forall|q: int| 0 <= q < buttons.len() ==> p@[q] == buttons[q],
                forall|q: int|
                    buttons.len() <= q < p@.len() ==> #[trigger] p@[q] == DrawPart::Card(
                        (n - 1 - (q - buttons.len())) as usize,
                    ),
            decreases n - k,
        {
            p.push(DrawPart::Card(n - 1 - k));
            k = k + 1;
        }
        assert(p@ =~= buttons + Seq::new(n as nat, |i: int| DrawPart::Card((n - 1 - i) as usize)));
    }
    p
}

/// A stack can show more (expand) when it has more than one card and a
/// message to expand with.
pub fn can_show_more(n: usize, has_on_show_more: bool) -> (b: bool)
    ensures
        b == (n > 1 && has_on_show_more),
{
    n > 1 && has_on_show_more
}

/// What pressing a card does.
#[derive(Debug, Clone, Copy, PartialEq, Eq, Structural)]
pub enum CardPress {
    /// Expands the stack (the card also shows the "show more" label).
    ShowMore,
    /// Activates the card at this position.
    Activate(usize),
    /// Nothing: the card has no message.
    Nothing,
}

/// What pressing card `i` does: on a collapsed stack that can show more,
/// the first card expands it; every other card activates itself when
/// there is an activation message.
pub open spec fn spec_card_press(
    i: usize,
    expanded: bool,
    can_show_more: bool,
    has_on_activate: bool,
) -> CardPress {
    if i == 0 && !expanded && can_show_more {
        CardPress::ShowMore
    } else if has_on_activate {
        CardPress::Activate(i)
    } else {
        CardPress::Nothing
    }
}

/// What pressing card `i` does (see [`spec_card_press`]).
pub fn card_press(i: usize, expanded: bool, can_show_more: bool, has_on_activate: bool) -> (p: CardPress)
    ensures
        p == spec_card_press(i, expanded, can_show_more, has_on_activate),
        (p == CardPress::ShowMore) <==> (i == 0 && !expanded && can_show_more),
        !(i == 0 && !expanded && can_show_more) ==> p == (if has_on_activate {
            CardPress::Activate(i)
        } else {
            CardPress::Nothing
        }),
{
    if i == 0 && !expanded && can_show_more {
        CardPress::ShowMore
    } else if has_on_activate {
        CardPress::Activate(i)
    } else {
        CardPress::Nothing
    }
}

/// Every card of a stack that is not fully collapsed is drawn exactly once,
/// and a collapsed stack draws its first card last, over its background.
pub proof fn lemma_draw_plan_shape(n: nat, fully_expanded: bool, fully_unexpanded: bool, backgrounds: nat)
    ensures
        n > 0 && !fully_unexpanded ==> forall|c: int|
            0 <= c < n ==> #[trigger] spec_draw_plan(n, fully_expanded, fully_unexpanded, backgrounds).contains(
                DrawPart::Card(c as usize),
            ),
        n > 0 && fully_unexpanded ==> spec_draw_plan(n, fully_expanded, fully_unexpanded, backgrounds).last()
            == DrawPart::Card(0),
{
    let p = spec_draw_plan(n, fully_expanded, fully_unexpanded, backgrounds);
    if n > 0 && !fully_unexpanded {
        let b: int = if fully_expanded { 2 } else { 0 };
        assert forall|c: int| 0 <= c < n implies #[trigger] p.contains(DrawPart::Card(c as usize)) by {
            assert(p[b + (n - 1 - c)] == DrawPart::Card(c as usize));
        }
    }
}


/// How many background cards a fully collapsed stack of `n` cards shows
/// behind its first card: one per further card, at most two.
pub open spec fn spec_background_count(n: nat) -> nat {
    if n <= 1 {
        0
    } else if n == 2 {
        1
    } else {
        2
    }
}

/// How many background cards a fully collapsed stack of `n` cards shows
/// (see [`spec_background_count`]).
pub fn background_count(n: usize) -> (c: usize)
    ensures
        c == spec_background_count(n as nat),
{
    if n <= 1 {
        0
    } else if n == 2 {
        1
    } else {
        2
    }
}

/// The parts of a stack of `n` cards that are laid out, in the order of
/// the layout's children: nothing when it is empty; otherwise its two
/// buttons first when it is fully expanded; then, fully collapsed, the
/// first card and its background cards, nearest first; else every card in
/// order.
pub open spec fn spec_layout_plan(n: nat, fully_expanded: bool, fully_unexpanded: bool) -> Seq<DrawPart> {
    if n == 0 {
        Seq::empty()
    } else {
        let buttons = if fully_expanded {
            seq![DrawPart::ShowLess, DrawPart::ClearAll]
        } else {
            Seq::empty()
        };
        let m = spec_background_count(n);
        let cards = if fully_unexpanded {
            seq![DrawPart::Card(0)] + Seq::new(m, |i: int| DrawPart::Background(i as usize))
        } else {
            Seq::new(n, |i: int| DrawPart::Card(i as usize))
        };
        buttons + cards
    }
}

/// The parts of a stack of `n` cards that are laid out (see
/// [`spec_layout_plan`]).
pub fn layout_plan(n: usize, fully_expanded: bool, fully_unexpanded: bool) -> (p: Vec<DrawPart>)
    ensures
        p@ == spec_layout_plan(n as nat, fully_expanded, fully_unexpanded),
{
    let mut p: Vec<DrawPart> = Vec::new();
    if n == 0 {
        assert(p@ =~= spec_layout_plan(n as nat, fully_expanded, fully_unexpanded));
        return p;
    }
    if fully_expanded {
        p.push(DrawPart::ShowLess);
        p.push(DrawPart::ClearAll);
    }
    let ghost buttons = p@;
    assert(buttons =~= if fully_expanded {
        seq![DrawPart::ShowLess, DrawPart::ClearAll]
    } else {
        Seq::empty()
    });
    if fully_unexpanded {
        p.push(DrawPart::Card(0));
        let m = background_count(n);
        let mut k: usize = 0;
        while k < m
            invariant
                0 <= k <= m,
                m <= 2,
                p@.len() == buttons.len() + 1 + k,
                forall|q: int| 0 <= q < buttons.len() ==> p@[q] == buttons[q],
                p@[buttons.len() as int] == DrawPart::Card(0),
                forall|q: int|
                    buttons.len() + 1 <= q < p@.len() ==> #[trigger] p@[q] == DrawPart::Background(
                        (q - buttons.len() - 1) as usize,
                    ),
            decreases m - k,
        {
            p.push(DrawPart::Background(k));
            k = k + 1;
        }
        assert(p@ =~= buttons + (seq![DrawPart::Card(0)] + Seq::new(
            m as nat,
            |i: int| DrawPart::Background(i as usize),
        )));
    } else {
        let mut k: usize = 0;
        while k < n
            invariant
                0 <= k <= n,
                p@.len() == buttons.len() + k,
                forall|q: int| 0 <= q < buttons.len() ==> p@[q] == buttons[q],
                forall|q: int|
                    buttons.len() <= q < p@.len() ==> #[trigger] p@[q] == DrawPart::Card(
                        (q - buttons.len()) as usize,
                    ),
            decreases n - k,
        {
            p.push(DrawPart::Card(k));
            k = k + 1;
        }
        assert(p@ =~= buttons + Seq::new(n as nat, |i: int| DrawPart::Card(i as usize)));
    }
    p
}

/// Drawing a stack with the backgrounds its layout placed draws exactly
/// the parts laid out, each once: the draw order is a reordering of the
/// layout's children.
pub proof fn lemma_draw_matches_layout(n: nat, fully_expanded: bool, fully_unexpanded: bool)
    ensures
        spec_draw_plan(n, fully_expanded, fully_unexpanded, spec_background_count(n)).to_multiset()
            =~= spec_layout_plan(n, fully_expanded, fully_unexpanded).to_multiset(),
{
    let d = spec_draw_plan(n, fully_expanded, fully_unexpanded, spec_background_count(n));
    let l = spec_layout_plan(n, fully_expanded, fully_unexpanded);
    if n > 0 {
        let buttons = if fully_expanded {
            seq![DrawPart::ShowLess, DrawPart::ClearAll]
        } else {
            Seq::<DrawPart>::empty()
        };
        let m = spec_background_count(n);
        let (dc, lc) = if fully_unexpanded {
            (
                Seq::new(m, |i: int| DrawPart::Background((m - 1 - i) as usize)).push(DrawPart::Card(0)),
                seq![DrawPart::Card(0)] + Seq::new(m, |i: int| DrawPart::Background(i as usize)),
            )
        } else {
            (
                Seq::new(n, |i: int| DrawPart::Card((n - 1 - i) as usize)),
                Seq::new(n, |i: int| DrawPart::Card(i as usize)),
            )
        };
        assert(d == buttons + dc);
        assert(l == buttons + lc);
        assert(dc =~= lc.reverse());
        vstd::seq_lib::lemma_multiset_commutative(buttons, dc);
        vstd::seq_lib::lemma_multiset_commutative(buttons, lc);
        lemma_reverse_multiset(lc);
    }
}

proof fn lemma_reverse_multiset(s: Seq<DrawPart>)
    ensures
        s.reverse().to_multiset() =~= s.to_multiset(),
    decreases s.len(),
{
    broadcast use vstd::seq_lib::group_to_multiset_ensures;
    if s.len() > 0 {
        let t = s.drop_last();
        lemma_reverse_multiset(t);
        assert(s.reverse() =~= seq![s.last()] + t.reverse());
        vstd::seq_lib::lemma_multiset_commutative(seq![s.last()], t.reverse());
        assert(s =~= t.push(s.last()));
    }
}


/// Only the first card of a collapsed stack that can show more expands
/// it; when the stack cannot show more (or is expanded, or for any other
/// card), a press activates the card pressed when there is an activation
/// message, and does nothing otherwise. A card never activates another.
pub proof fn lemma_card_press(i: usize, expanded: bool, can_show_more: bool, has_on_activate: bool)
    ensures
        (spec_card_press(i, expanded, can_show_more, has_on_activate) == CardPress::ShowMore) <==> (i
            == 0 && !expanded && can_show_more),
        !can_show_more && has_on_activate ==> spec_card_press(
            i,
            expanded,
            can_show_more,
            has_on_activate,
        ) == CardPress::Activate(i),
        spec_card_press(i, expanded, can_show_more, has_on_activate) matches CardPress::Activate(k)
            ==> k == i && has_on_activate,
        (spec_card_press(i, expanded, can_show_more, has_on_activate) == CardPress::Nothing) <==> (
        !has_on_activate && !(i == 0 && !expanded && can_show_more)),
{
}


} // verus!
