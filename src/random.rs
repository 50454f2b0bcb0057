//! Random item sources, including the shuffled bag.

use rand::seq::SliceRandom;
use vstd::multiset::Multiset;
use vstd::prelude::*;

use crate::piece::{all_piece_types, PieceType};

verus! {

broadcast use vstd::seq_lib::group_to_multiset_ensures, vstd::multiset::group_multiset_properties,
    vstd::multiset::group_multiset_axioms;

/// A source of items, drawn one at a time.
pub trait Random<T> {
    /// The state in which the source can draw.
    spec fn inv(&self) -> bool;

    /// Drawing `item` takes the source from `self` to `after`.
    spec fn draw_step(&self, after: &Self, item: T) -> bool;

    fn next(&mut self) -> (r: T)
        requires
            old(self).inv(),
        ensures
            final(self).inv(),
            old(self).draw_step(final(self), r),
    ;
}

/// Relies on rand's `SliceRandom::shuffle`, driven by `thread_rng`: it swaps
/// items in place, so the result is a permutation of the input.
#[verifier::external_body]
fn shuffle<T>(values: &mut Vec<T>)
    ensures
        final(values)@.len() == old(values)@.len(),
        final(values)@.to_multiset() == old(values)@.to_multiset(),
{
    values.shuffle(&mut rand::thread_rng());
}

/// An element-by-element copy.
pub(crate) fn copy_values<T: Copy>(values: &Vec<T>) -> (r: Vec<T>)
    ensures
        r@ == values@,
{
    let mut r: Vec<T> = Vec::new();
    let mut i: usize = 0;
    while i < values.len()
        invariant
            i <= values@.len(),
            r@ == values@.subrange(0, i as int),
        decreases values@.len() - i,
    {
        r.push(values[i]);
        i += 1;
        assert(r@ =~= values@.subrange(0, i as int));
    }
    assert(values@.subrange(0, values@.len() as int) =~= values@);
    r
}

/// Draws every value of a bag once, in random order, before it refills the
/// bag and shuffles again.
pub struct RandomBag<T: Copy> {
    original_values: Vec<T>,
    current_values: Vec<T>,
    /// What has been drawn since the bag was last filled, in order.
    drawn: Ghost<Seq<T>>,
}

impl<T: Copy> RandomBag<T> {
    /// The values of a full bag.
    pub closed spec fn values(&self) -> Seq<T> {
        self.original_values@
    }

    /// The values still in the bag; the last one is drawn next.
    pub closed spec fn remaining(&self) -> Seq<T> {
        self.current_values@
    }

    /// The values drawn since the bag was last filled, in order.
    pub closed spec fn drawn(&self) -> Seq<T> {
        self.drawn@
    }

    /// A bag of `values`, shuffled. An empty bag could never draw, so
    /// `values` must not be empty.
    pub fn new(values: Vec<T>) -> (r: Self)
        requires
            values@.len() > 0,
        ensures
            r.inv(),
            r.values() == values@,
            r.drawn() == Seq::<T>::empty(),
            r.remaining().to_multiset() == values@.to_multiset(),
    {
        let mut current_values = copy_values(&values);
        shuffle(&mut current_values);
        let r = RandomBag { original_values: values, current_values, drawn: Ghost(Seq::empty()) };
        assert(r.drawn@.to_multiset().len() == 0);
        assert(r.drawn@.to_multiset() =~= Multiset::empty());
        assert(r.drawn@.to_multiset().add(r.current_values@.to_multiset())
            =~= r.original_values@.to_multiset());
        r
    }
}

impl<T: Copy> Random<T> for RandomBag<T> {
    /// The bag is never empty, and what was drawn together with what remains
    /// is the full bag.
    closed spec fn inv(&self) -> bool {
        &&& self.original_values@.len() > 0
        &&& self.drawn@.to_multiset().add(self.current_values@.to_multiset())
            == self.original_values@.to_multiset()
    }

    /// The last remaining value comes out; an empty bag is first refilled
    /// with a shuffled copy of the full bag.
    open spec fn draw_step(&self, after: &Self, item: T) -> bool {
        &&& after.values() == self.values()
        &&& self.values().contains(item)
        &&& if self.remaining().len() > 0 {
            &&& item == self.remaining().last()
            &&& after.remaining() == self.remaining().drop_last()
            &&& after.drawn() == self.drawn().push(item)
        } else {
            &&& after.drawn() == seq![item]
            &&& after.remaining().push(item).to_multiset() == self.values().to_multiset()
        }
    }

    fn next(&mut self) -> (r: T) {
        let ghost start = *self;
        if self.current_values.len() == 0 {
            let mut refill = copy_values(&self.original_values);
            shuffle(&mut refill);
            self.current_values = refill;
            self.drawn = Ghost(Seq::empty());
            assert(self.drawn@.to_multiset().len() == 0);
            assert(self.drawn@.to_multiset() =~= Multiset::empty());
            assert(self.drawn@.to_multiset().add(self.current_values@.to_multiset())
                =~= self.original_values@.to_multiset());
        }
        let ghost before = self.current_values@;
        let ghost drawn_before = self.drawn@;
        let value = self.current_values.pop().unwrap();
        proof {
            assert(before =~= self.current_values@.push(value));
            assert(before.to_multiset().count(value) > 0) by {
                assert(before.contains(value)) by {
                    assert(before[before.len() - 1] == value);
                }
            }
            assert(self.original_values@.to_multiset().count(value) > 0) by {
                assert(drawn_before.to_multiset().add(before.to_multiset()).count(value) > 0);
            }
            if start.current_values@.len() == 0 {
                assert(drawn_before.to_multiset() =~= Multiset::empty());
                assert(Multiset::<T>::empty().add(before.to_multiset()) =~= before.to_multiset());
            }
            self.drawn@.to_multiset_ensures();
            self.current_values@.to_multiset_ensures();
            assert(self.drawn@.push(value).to_multiset().add(self.current_values@.to_multiset())
                =~= self.drawn@.to_multiset().add(before.to_multiset()));
            self.drawn = Ghost(self.drawn@.push(value));
            if start.current_values@.len() == 0 {
                assert(self.drawn@ =~= seq![value]);
            }
        }
        value
    }
}

impl<T: Copy> RandomBag<T> {
    /// Once as many values have been drawn since the last refill as the bag
    /// holds, the draws are the bag's values, each as often as in the bag,
    /// and the bag is empty.
    pub proof fn lemma_full_bag_drawn(&self)
        requires
            self.inv(),
            self.drawn().len() == self.values().len(),
        ensures
            self.drawn().to_multiset() == self.values().to_multiset(),
            self.remaining().len() == 0,
    {
        assert(self.original_values@.to_multiset().len() == self.original_values@.len());
        assert(self.drawn@.to_multiset().len() == self.drawn@.len());
        assert(self.current_values@.to_multiset().len() == self.current_values@.len());
        assert(self.current_values@.to_multiset().len() == 0);
        assert(self.current_values@.to_multiset() =~= Multiset::empty());
        assert(self.drawn@.to_multiset().add(Multiset::empty()) =~= self.drawn@.to_multiset());
    }
}

/// A bag of the seven piece types, drawn in full since its last refill, has
/// given each piece type exactly once.
pub proof fn lemma_piece_bag_each_once(bag: RandomBag<PieceType>, t: PieceType)
    requires
        bag.inv(),
        bag.values() == all_piece_types(),
        bag.drawn().len() == 7,
    ensures
        bag.drawn().to_multiset().count(t) == 1,
{
    bag.lemma_full_bag_drawn();
    let s = Seq::<PieceType>::empty();
    assert(all_piece_types() =~= s.push(PieceType::I).push(PieceType::T).push(PieceType::O).push(
        PieceType::J,
    ).push(PieceType::L).push(PieceType::Z).push(PieceType::S));
    assert(s.to_multiset().len() == 0);
    assert(s.to_multiset() =~= Multiset::empty());
}

/// Draw `i` takes bag `i` to bag `i + 1`.
pub open spec fn bag_link(bags: Seq<RandomBag<PieceType>>, draws: Seq<PieceType>, i: int) -> bool {
    bags[i].draw_step(&bags[i + 1], draws[i])
}

proof fn lemma_window_prefix(bags: Seq<RandomBag<PieceType>>, draws: Seq<PieceType>, k: int)
    requires
        1 <= k <= 7,
        bags.len() == 8,
        draws.len() == 7,
        bags[0].values() == all_piece_types(),
        bags[0].remaining().len() == 0 || bags[0].drawn().len() == 0,
        forall|i: int| 0 <= i < 8 ==> (#[trigger] bags[i]).inv(),
        forall|i: int| 0 <= i < 7 ==> #[trigger] bag_link(bags, draws, i),
    ensures
        bags[k].drawn() == draws.subrange(0, k),
        bags[k].values() == all_piece_types(),
    decreases k,
{
    if k == 1 {
        assert(bag_link(bags, draws, 0));
        let b = bags[0];
        assert(b.inv());
        assert(b.original_values@.to_multiset().len() == 7);
        assert(b.drawn@.to_multiset().len() == b.drawn@.len());
        assert(b.current_values@.to_multiset().len() == b.current_values@.len());
        assert(bags[1].drawn() =~= draws.subrange(0, 1));
    } else {
        lemma_window_prefix(bags, draws, k - 1);
        let b = bags[k - 1];
        assert(b.inv());
        assert(b.original_values@.to_multiset().len() == 7);
        assert(b.drawn@.to_multiset().len() == b.drawn@.len());
        assert(b.current_values@.to_multiset().len() == b.current_values@.len());
        assert(b.current_values@.len() > 0);
        assert(bag_link(bags, draws, k - 1));
        assert(bags[k].drawn() =~= draws.subrange(0, k));
    }
}

/// Seven draws from a bag of the seven piece types, starting at a bag
/// boundary (a fresh bag with nothing drawn yet, or a bag drawn empty), give
/// each piece type exactly once.
pub proof fn lemma_piece_bag_window(bags: Seq<RandomBag<PieceType>>, draws: Seq<PieceType>)
    requires
        bags.len() == 8,
        draws.len() == 7,
        bags[0].values() == all_piece_types(),
        bags[0].remaining().len() == 0 || bags[0].drawn().len() == 0,
        forall|i: int| 0 <= i < 8 ==> (#[trigger] bags[i]).inv(),
        forall|i: int| 0 <= i < 7 ==> #[trigger] bag_link(bags, draws, i),
    ensures
        forall|t: PieceType| draws.to_multiset().count(t) == 1,
{
    lemma_window_prefix(bags, draws, 7);
    assert(draws.subrange(0, 7) =~= draws);
    assert forall|t: PieceType| draws.to_multiset().count(t) == 1 by {
        lemma_piece_bag_each_once(bags[7], t);
    }
}

} // verus!
