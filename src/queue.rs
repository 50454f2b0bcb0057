//! The look-ahead queue of upcoming pieces.

use vstd::prelude::*;

use crate::random::Random;

verus! {

/// A look-ahead buffer of upcoming items, refilled from a random source.
pub struct Queue<T, TRandom: Random<T>> {
    random: TRandom,
    size: usize,
    next_items: Vec<T>,
}

impl<T, TRandom: Random<T>> Queue<T, TRandom> {
    /// The buffered items, oldest first.
    pub closed spec fn items(&self) -> Seq<T> {
        self.next_items@
    }

    /// How many items the buffer is kept at.
    pub closed spec fn capacity(&self) -> nat {
        self.size as nat
    }

    pub closed spec fn wf(&self) -> bool {
        &&& self.random.inv()
        &&& self.next_items@.len() <= self.size
    }

    pub fn new(size: usize, random: TRandom) -> (r: Self)
        requires
            random.inv(),
        ensures
            r.wf(),
            r.capacity() == size,
            r.items() == Seq::<T>::empty(),
    {
        Self { random, size, next_items: Vec::new() }
    }

    /// The random source the buffer is refilled from.
    pub closed spec fn source(&self) -> TRandom {
        self.random
    }

    /// Draw `j` takes source state `j` to state `j + 1`.
    pub open spec fn draw_link(states: Seq<TRandom>, items: Seq<T>, j: int) -> bool {
        states[j].draw_step(&states[j + 1], items[j])
    }

    /// `states` are the source states passed through while drawing `items`.
    pub open spec fn draw_chain(states: Seq<TRandom>, items: Seq<T>) -> bool {
        &&& states.len() == items.len() + 1
        &&& forall|j: int| 0 <= j < items.len() ==> #[trigger] Self::draw_link(states, items, j)
    }

    /// Drawing `items` one after another takes the source from `from` to `to`.
    pub open spec fn drawn_by(from: TRandom, to: TRandom, items: Seq<T>) -> bool {
        exists|states: Seq<TRandom>|
            #[trigger] Self::draw_chain(states, items) && states[0] == from && states.last() == to
    }

    proof fn lemma_drawn_by_concat(a: TRandom, b: TRandom, c: TRandom, x: Seq<T>, y: Seq<T>)
        requires
            Self::drawn_by(a, b, x),
            Self::drawn_by(b, c, y),
        ensures
            Self::drawn_by(a, c, x + y),
    {
        let s1 = choose|states: Seq<TRandom>|
            #[trigger] Self::draw_chain(states, x) && states[0] == a && states.last() == b;
        let s2 = choose|states: Seq<TRandom>|
            #[trigger] Self::draw_chain(states, y) && states[0] == b && states.last() == c;
        let s = s1 + s2.drop_first();
        assert forall|j: int| 0 <= j < (x + y).len() implies #[trigger] Self::draw_link(s, x + y, j) by {
            if j < x.len() {
                assert(Self::draw_link(s1, x, j));
                assert(s[j] == s1[j] && s[j + 1] == s1[j + 1] && (x + y)[j] == x[j]);
            } else {
                let k = j - x.len();
                assert(Self::draw_link(s2, y, k));
                assert(s[j] == s2[k] && s[j + 1] == s2[k + 1] && (x + y)[j] == y[k]);
            }
        }
        assert(Self::draw_chain(s, x + y));
    }

    /// Draws until the buffer holds `capacity` items; the buffered items stay
    /// in front, in order, and the new ones are the source's draws.
    fn populate_next_items(&mut self)
        requires
            old(self).wf(),
        ensures
            final(self).wf(),
            final(self).capacity() == old(self).capacity(),
            final(self).items().len() == old(self).capacity(),
            exists|fresh: Seq<T>|
                #[trigger] Self::drawn_by(old(self).source(), final(self).source(), fresh)
                    && final(self).items() == old(self).items() + fresh,
            old(self).items().len() == old(self).capacity() ==> *final(self) == *old(self),
    {
        let ghost start = self.next_items@;
        let ghost size = self.size;
        let ghost mut fresh: Seq<T> = Seq::empty();
        let ghost mut states: Seq<TRandom> = seq![self.random];
        let ghost first = self.random;
        if self.next_items.len() >= self.size {
            assert(Self::draw_chain(states, fresh));
            assert(self.next_items@ =~= start + fresh);
            assert(Self::drawn_by(old(self).source(), self.source(), fresh));
            assert(self.items() == old(self).items() + fresh);
            return;
        }
        while self.next_items.len() < self.size
            invariant
                self.size == size,
                self.random.inv(),
                self.next_items@.len() <= self.size,
                self.next_items@ == start + fresh,
                Self::draw_chain(states, fresh),
                states[0] == first,
                states.last() == self.random,
            decreases self.size - self.next_items@.len(),
        {
            let ghost before = self.random;
            let item = self.random.next();
            self.next_items.push(item);
            proof {
                let next_states = states.push(self.random);
                let next_fresh = fresh.push(item);
                assert forall|j: int| 0 <= j < next_fresh.len() implies #[trigger] Self::draw_link(
                    next_states,
                    next_fresh,
                    j,
                ) by {
                    if j < fresh.len() {
                        assert(Self::draw_link(states, fresh, j));
                        assert(next_states[j] == states[j] && next_states[j + 1] == states[j + 1]);
                    } else {
                        assert(next_states[j] == before && next_states[j + 1] == self.random);
                    }
                }
                states = next_states;
                fresh = next_fresh;
                assert(self.next_items@ =~= start + fresh);
            }
        }
        assert(Self::draw_chain(states, fresh));
        assert(Self::drawn_by(old(self).source(), self.source(), fresh));
        assert(self.items() == old(self).items() + fresh);
    }

    /// Removes and returns the oldest item, keeping the buffer full: with the
    /// source's draws appended, the old buffer is the returned item followed
    /// by the new buffer. A queue of capacity 0 has nothing to hand out.
    pub fn next(&mut self) -> (r: T)
        requires
            old(self).wf(),
            old(self).capacity() > 0,
        ensures
            final(self).wf(),
            final(self).capacity() == old(self).capacity(),
            final(self).items().len() == old(self).capacity(),
            exists|fresh: Seq<T>|
                #[trigger] Self::drawn_by(old(self).source(), final(self).source(), fresh)
                    && old(self).items() + fresh == seq![r] + final(self).items(),
            old(self).items().len() > 0 ==> r == old(self).items()[0],
            old(self).items().len() > 0 ==> final(self).items().subrange(
                0,
                old(self).items().len() - 1,
            ) == old(self).items().drop_first(),
    {
        let ghost start = *self;
        self.populate_next_items();
        let ghost full = *self;
        let item = self.next_items.remove(0);
        let ghost rest = *self;
        self.populate_next_items();
        proof {
            let f1 = choose|fresh: Seq<T>|
                #[trigger] Self::drawn_by(start.random, full.random, fresh) && full.next_items@
                    == start.next_items@ + fresh;
            let f2 = choose|fresh: Seq<T>|
                #[trigger] Self::drawn_by(rest.random, self.random, fresh) && self.next_items@
                    == rest.next_items@ + fresh;
            Self::lemma_drawn_by_concat(start.random, full.random, self.random, f1, f2);
            assert(full.next_items@ =~= seq![item] + rest.next_items@);
            let e = start.next_items@ + (f1 + f2);
            assert(e =~= seq![item] + self.next_items@);
            assert(Self::drawn_by(start.random, self.random, f1 + f2));
            if start.next_items@.len() > 0 {
                assert(e[0] == start.next_items@[0]);
                assert(self.next_items@.subrange(0, start.next_items@.len() - 1)
                    =~= start.next_items@.drop_first()) by {
                    assert forall|i: int| 0 <= i < start.next_items@.len() - 1 implies
                        self.next_items@[i] == start.next_items@.drop_first()[i] by {
                        assert(e[i + 1] == start.next_items@[i + 1]);
                        assert(e[i + 1] == self.next_items@[i]);
                    }
                }
            }
        }
        item
    }

    /// The buffered items as they stand; draws nothing.
    pub fn buffered(&self) -> (r: &Vec<T>)
        ensures
            r@ == self.items(),
    {
        &self.next_items
    }

    /// The buffered items, after filling the buffer with the source's draws;
    /// a full buffer draws nothing.
    pub fn next_items(&mut self) -> (r: &Vec<T>)
        requires
            old(self).wf(),
        ensures
            final(self).wf(),
            final(self).capacity() == old(self).capacity(),
            final(self).items().len() == old(self).capacity(),
            exists|fresh: Seq<T>|
                #[trigger] Self::drawn_by(old(self).source(), final(self).source(), fresh)
                    && final(self).items() == old(self).items() + fresh,
            old(self).items().len() == old(self).capacity() ==> *final(self) == *old(self),
            r@ == final(self).items(),
    {
        self.populate_next_items();
        &self.next_items
    }
}

} // verus!
