use rand::seq::SliceRandom;
use vstd::multiset::Multiset;
use vstd::prelude::*;

use crate::commands::CannotExecute;

verus! {

broadcast use vstd::seq_lib::group_to_multiset_ensures;

/// Relies on rand's `SliceRandom::shuffle` (with the thread-local generator):
/// it only swaps elements, so the result is a permutation of the input.
#[verifier::external_body]
fn shuffle(cards: &mut Vec<usize>)
    ensures
        final(cards)@.to_multiset() == old(cards)@.to_multiset(),
{
    cards.shuffle(&mut rand::thread_rng());
}

/// A draw stack and a discard stack of catalog indices. The top of the draw
/// stack is its last element.
#[derive(Debug)]
pub struct CardPile {
    pub draw_pile: Vec<usize>,
    pub discard_pile: Vec<usize>,
}

impl CardPile {
    /// Every card the pile holds, in either stack.
    pub open spec fn contents(&self) -> Multiset<usize> {
        self.draw_pile@.to_multiset().add(self.discard_pile@.to_multiset())
    }

    pub open spec fn size(&self) -> nat {
        self.draw_pile@.len() + self.discard_pile@.len()
    }

    /// A pile holding `cards` in random order, with an empty discard stack.
    pub fn new(cards: Vec<usize>) -> (r: CardPile)
        ensures
            r.draw_pile@.to_multiset() == cards@.to_multiset(),
            r.draw_pile@.len() == cards@.len(),
            r.discard_pile@.len() == 0,
    {
        let mut cards = cards;
        let ghost before = cards@;
        shuffle(&mut cards);
        proof {
            assert(before.to_multiset().len() == before.len());
            assert(cards@.to_multiset().len() == cards@.len());
        }
        CardPile { draw_pile: cards, discard_pile: Vec::new() }
    }

    /// Takes the top card; when the draw stack is empty, the discard stack is
    /// shuffled into it first. Fails only when both stacks are empty.
    pub fn draw_card(&mut self) -> (r: Result<usize, CannotExecute>)
        ensures
            r is Err <==> old(self).size() == 0,
            r is Err ==> r == Err::<usize, CannotExecute>(CannotExecute::DeckExhausted)
                && final(self).draw_pile@ == old(self).draw_pile@
                && final(self).discard_pile@ == old(self).discard_pile@,
            r is Ok ==> final(self).contents().insert(r->Ok_0) == old(self).contents()
                && final(self).size() + 1 == old(self).size(),
            old(self).draw_pile@.len() > 0 ==> r == Ok::<usize, CannotExecute>(
                old(self).draw_pile@.last(),
            ) && final(self).draw_pile@ == old(self).draw_pile@.drop_last()
                && final(self).discard_pile@ == old(self).discard_pile@,
            old(self).draw_pile@.len() == 0 ==> final(self).discard_pile@.len() == 0,
    {
        if self.draw_pile.len() == 0 {
            if self.discard_pile.len() == 0 {
                return Err(CannotExecute::DeckExhausted);
            }
            let ghost discarded = self.discard_pile@;
            shuffle(&mut self.discard_pile);
            proof {
                assert(discarded.to_multiset().len() == discarded.len());
                assert(self.discard_pile@.to_multiset().len() == self.discard_pile@.len());
            }
            self.draw_pile.append(&mut self.discard_pile);
            assert(self.draw_pile@ =~= old(self).draw_pile@ + self.draw_pile@);
        }
        let ghost before = self.draw_pile@;
        let c = self.draw_pile.pop().unwrap();
        proof {
            assert(before =~= self.draw_pile@.push(c));
            assert(self.contents().insert(c) =~= old(self).contents());
            assert(self.draw_pile@.to_multiset().len() == self.draw_pile@.len());
            assert(self.discard_pile@.to_multiset().len() == self.discard_pile@.len());
            assert(old(self).draw_pile@.to_multiset().len() == old(self).draw_pile@.len());
            assert(old(self).discard_pile@.to_multiset().len() == old(self).discard_pile@.len());
        }
        Ok(c)
    }

    /// Draws `count` cards, in draw order. Fails, changing nothing, when the
    /// two stacks together hold fewer than `count` cards.
    pub fn draw_cards(&mut self, count: usize) -> (r: Result<Vec<usize>, CannotExecute>)
        ensures
            r is Err <==> count > old(self).size(),
            r is Err ==> r == Err::<Vec<usize>, CannotExecute>(CannotExecute::DeckExhausted)
                && final(self).draw_pile@ == old(self).draw_pile@
                && final(self).discard_pile@ == old(self).discard_pile@,
            r is Ok ==> r->Ok_0@.len() == count && final(self).contents().add(
                r->Ok_0@.to_multiset(),
            ) == old(self).contents() && final(self).size() + count == old(self).size(),
            r is Ok && count <= old(self).draw_pile@.len() ==> final(self).draw_pile@
                == old(self).draw_pile@.take(old(self).draw_pile@.len() - count)
                && final(self).discard_pile@ == old(self).discard_pile@ && forall|j: int|
                0 <= j < count ==> #[trigger] r->Ok_0@[j] == old(self).draw_pile@[old(
                self,
            ).draw_pile@.len() - 1 - j],
    {
        if count > self.draw_pile.len() && count - self.draw_pile.len() > self.discard_pile.len() {
            return Err(CannotExecute::DeckExhausted);
        }
        let mut cards: Vec<usize> = Vec::new();
        let mut i: usize = 0;
        let ghost n = old(self).draw_pile@.len();
        while i < count
            invariant
                i <= count,
                count <= old(self).size(),
                n == old(self).draw_pile@.len(),
                self.size() + i == old(self).size(),
                cards@.len() == i,
                self.contents().add(cards@.to_multiset()) == old(self).contents(),
                count <= n ==> self.draw_pile@ == old(self).draw_pile@.take(n - i)
                    && self.discard_pile@ == old(self).discard_pile@ && forall|j: int|
                    0 <= j < i ==> #[trigger] cards@[j] == old(self).draw_pile@[n - 1 - j],
            decreases count - i,
        {
            let ghost prev = self.draw_pile@;
            let c = match self.draw_card() {
                Ok(c) => c,
                Err(e) => {
                    return Err(e);
                },
            };
            proof {
                if count <= n {
                    assert(prev.len() == n - i);
                    assert(c == old(self).draw_pile@[n - 1 - i]);
                    assert(self.draw_pile@ =~= old(self).draw_pile@.take(n - i - 1));
                }
            }
            cards.push(c);
            i = i + 1;
            proof {
                assert(self.contents().add(cards@.to_multiset()) =~= old(self).contents());
            }
        }
        Ok(cards)
    }

    /// Puts `card` on the discard stack.
    pub fn discard(&mut self, card: usize)
        ensures
            final(self).draw_pile@ == old(self).draw_pile@,
            final(self).discard_pile@ == old(self).discard_pile@.push(card),
    {
        self.discard_pile.push(card)
    }

    /// Moves all of `cards` onto the discard stack, in order.
    pub fn discard_cards(&mut self, cards: &mut Vec<usize>)
        ensures
            final(self).draw_pile@ == old(self).draw_pile@,
            final(self).discard_pile@ == old(self).discard_pile@ + old(cards)@,
            final(cards)@.len() == 0,
    {
        self.discard_pile.append(cards)
    }
}

} // verus!
