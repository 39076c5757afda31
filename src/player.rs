//! A player: a name and a hand of cards.
use vstd::prelude::*;

use crate::card::Card;
use crate::deck::is_shuffled_deck;
use crate::deck::Deck;
use crate::game::Game;

verus! {

/// A player of the game.
#[derive(Debug)]
pub struct Player {
    name: String,
    hand: Vec<Card>,
}

impl Player {
    /// The player's name.
    pub closed spec fn spec_name(&self) -> Seq<char> {
        self.name@
    }

    /// The player's hand, oldest card first.
    pub closed spec fn spec_hand(&self) -> Seq<Card> {
        self.hand@
    }

    /// The player called `name`, with an empty hand.
    pub fn new(name: String) -> (r: Self)
        ensures
            r.spec_name() == name@,
            r.spec_hand() == Seq::<Card>::empty(),
    {
        Self { name, hand: Vec::new() }
    }

    /// Draws the top card of `deck` into the hand; an empty `deck` fails
    /// with `Err(1)` and nothing changes.
    pub fn draw_fallible(&mut self, deck: &mut Deck) -> (r: Result<(), usize>)
        ensures
            old(deck)@.len() == 0 ==> r == Err::<(), usize>(1) && final(deck)@ == old(deck)@
                && final(self).spec_hand() == old(self).spec_hand(),
            old(deck)@.len() > 0 ==> r is Ok && final(deck)@ == old(deck)@.drop_first()
                && final(self).spec_hand() == old(self).spec_hand().push(old(deck)@[0]),
            final(self).spec_name() == old(self).spec_name(),
    {
        let r = deck.deal(1, self);
        proof {
            if old(deck)@.len() > 0 {
                assert(old(deck)@.subrange(0, 1) =~= seq![old(deck)@[0]]);
                assert(old(deck)@.subrange(1, old(deck)@.len() as int) =~= old(deck)@.drop_first());
            } else {
                assert(old(self).spec_hand() + old(deck)@.subrange(0, 0) =~= old(self).spec_hand());
                assert(old(deck)@.subrange(0, 0) =~= old(deck)@);
            }
        }
        r
    }

    /// Draws the top card of `deck` into the hand. An empty `deck` is first
    /// refilled with a freshly shuffled full deck, so drawing never fails.
    pub fn draw(&mut self, deck: &mut Deck)
        ensures
            old(deck)@.len() > 0 ==> final(deck)@ == old(deck)@.drop_first()
                && final(self).spec_hand() == old(self).spec_hand().push(old(deck)@[0]),
            old(deck)@.len() == 0 ==> final(self).spec_hand().len() == old(self).spec_hand().len() + 1
                && final(self).spec_hand().drop_last() == old(self).spec_hand()
                && is_shuffled_deck(seq![final(self).spec_hand().last()] + final(deck)@),
            final(self).spec_name() == old(self).spec_name(),
    {
        if let Err(overdrawn_by) = self.draw_fallible(deck) {
            Game::check_size_and_append(deck, overdrawn_by);
            let ghost refilled = deck@;
            let ghost drawn = self.spec_hand();
            let r = self.draw_fallible(deck);
            assert(r is Ok);
            proof {
                assert(refilled.subrange(0, refilled.len() as int) =~= refilled);
                assert(seq![self.spec_hand().last()] + deck@ =~= refilled);
                assert(self.spec_hand().drop_last() =~= drawn);
            }
        }
    }

    /// The card most recently added to the hand, if any.
    pub fn newest_card(&self) -> (r: Option<Card>)
        ensures
            self.spec_hand().len() == 0 ==> r is None,
            self.spec_hand().len() > 0 ==> r == Some(self.spec_hand().last()),
    {
        if self.hand.len() == 0 {
            None
        } else {
            Some(self.hand[self.hand.len() - 1])
        }
    }

    /// Plays the card at `card_index` of the hand onto the top of `deck`.
    /// The last card of the hand takes the vacated place.
    pub fn play_card(&mut self, card_index: usize, deck: &mut Deck)
        requires
            card_index < old(self).spec_hand().len(),
        ensures
            final(self).spec_hand() == old(self).spec_hand().update(
                card_index as int,
                old(self).spec_hand().last(),
            ).drop_last(),
            final(deck)@ == seq![old(self).spec_hand()[card_index as int]] + old(deck)@,
            final(self).spec_name() == old(self).spec_name(),
    {
        let card = self.hand.swap_remove(card_index);
        deck.push_top(card);
    }

    /// The player's name.
    pub fn name(&self) -> (r: &String)
        ensures
            r@ == self.spec_name(),
    {
        &self.name
    }

    /// The hand, to change in place.
    pub fn mut_hand(&mut self) -> (r: &mut Vec<Card>)
        ensures
            r@ == old(self).spec_hand(),
            final(self).spec_hand() == final(r)@,
            final(self).spec_name() == old(self).spec_name(),
    {
        &mut self.hand
    }

    /// The hand, oldest card first.
    pub fn hand(&self) -> (r: &Vec<Card>)
        ensures
            r@ == self.spec_hand(),
    {
        &self.hand
    }

    /// The number of cards in the hand.
    pub fn num_cards(&self) -> (r: usize)
        ensures
            r == self.spec_hand().len(),
    {
        self.hand.len()
    }
}

} // verus!
