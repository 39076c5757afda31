//! A pile of cards: the draw pile and the used pile of a game.
use vstd::prelude::*;

use rand::seq::SliceRandom;
use std::collections::VecDeque;

use crate::card::card_of;
use crate::card::lemma_card_eq;
use crate::card::lemma_card_of;
use crate::card::Card;
use crate::card::Suit;
use crate::card::Value;
use crate::player::Player;

verus! {

/// A pile of cards; the card at position 0 is the top of the pile.
#[derive(Debug)]
pub struct Deck {
    cards: VecDeque<Card>,
}

/// The value at position `i` of the ranks, Ace first.
pub open spec fn value_at(i: int) -> Value {
    if i == 0 {
        Value::Ace
    } else if i == 1 {
        Value::Two
    } else if i == 2 {
        Value::Three
    } else if i == 3 {
        Value::Four
    } else if i == 4 {
        Value::Five
    } else if i == 5 {
        Value::Six
    } else if i == 6 {
        Value::Seven
    } else if i == 7 {
        Value::Eight
    } else if i == 8 {
        Value::Nine
    } else if i == 9 {
        Value::Ten
    } else if i == 10 {
        Value::Jack
    } else if i == 11 {
        Value::Queen
    } else {
        Value::King
    }
}

/// The suit at position `i` of the suits, Clubs first.
pub open spec fn suit_at(i: int) -> Suit {
    if i == 0 {
        Suit::Clubs
    } else if i == 1 {
        Suit::Diamonds
    } else if i == 2 {
        Suit::Hearts
    } else {
        Suit::Spades
    }
}

/// Whether `cards` is the full deck in order: by value from Ace to King,
/// and within a value by suit from Clubs to Spades.
pub open spec fn is_full_deck(cards: Seq<Card>) -> bool {
    &&& cards.len() == 52
    &&& forall|i: int|
        0 <= i < 52 ==> (#[trigger] cards[i]).spec_value() == value_at(i / 4) && cards[i].spec_suit()
            == suit_at(i % 4)
}

/// Whether `cards` holds the 52 cards of a full deck, in any order.
pub open spec fn is_shuffled_deck(cards: Seq<Card>) -> bool {
    exists|full: Seq<Card>| is_full_deck(full) && #[trigger] full.to_multiset() == cards.to_multiset()
}

/// The full deck in order: by value from Ace to King, and within a value by
/// suit from Clubs to Spades.
pub open spec fn full_deck() -> Seq<Card> {
    Seq::new(52, |i: int| card_of(value_at(i / 4), suit_at(i % 4)))
}

/// There is one full deck in order.
pub proof fn lemma_full_deck_unique(cards: Seq<Card>)
    requires
        is_full_deck(cards),
    ensures
        cards == full_deck(),
{
    assert forall|i: int| 0 <= i < 52 implies cards[i] == #[trigger] full_deck()[i] by {
        lemma_card_of(value_at(i / 4), suit_at(i % 4));
        lemma_card_eq(cards[i], full_deck()[i]);
    }
    assert(cards =~= full_deck());
}

/// A shuffled full deck holds the cards of the full deck.
pub proof fn lemma_shuffled_deck_cards(cards: Seq<Card>)
    requires
        is_shuffled_deck(cards),
    ensures
        cards.to_multiset() == full_deck().to_multiset(),
{
    let full = choose|full: Seq<Card>| is_full_deck(full) && #[trigger] full.to_multiset() == cards.to_multiset();
    lemma_full_deck_unique(full);
}

/// A shuffled full deck has 52 cards.
pub proof fn lemma_shuffled_deck_len(cards: Seq<Card>)
    requires
        is_shuffled_deck(cards),
    ensures
        cards.len() == 52,
{
    broadcast use vstd::seq_lib::group_to_multiset_ensures;

    let full = choose|full: Seq<Card>| is_full_deck(full) && #[trigger] full.to_multiset() == cards.to_multiset();
    assert(full.to_multiset().len() == cards.to_multiset().len());
}

/// `s` in reverse order.
pub open spec fn reversed(s: Seq<Card>) -> Seq<Card> {
    Seq::new(s.len(), |i: int| s[s.len() - 1 - i])
}

/// Relies on rand's `SliceRandom::shuffle`, driven by `rand::thread_rng`: it
/// only swaps cards, so the result is a permutation of the input.
#[verifier::external_body]
fn shuffle_cards(cards: &mut VecDeque<Card>)
    ensures
        final(cards)@.len() == old(cards)@.len(),
        final(cards)@.to_multiset() == old(cards)@.to_multiset(),
{
    cards.make_contiguous().shuffle(&mut rand::thread_rng());
}

impl View for Deck {
    type V = Seq<Card>;

    closed spec fn view(&self) -> Seq<Card> {
        self.cards@
    }
}

impl Deck {
    /// The pile of `cards`, top first.
    pub fn new(cards: VecDeque<Card>) -> (r: Self)
        ensures
            r@ == cards@,
    {
        Self { cards }
    }

    /// The 52 cards of a full deck, in order.
    pub fn default_52() -> (r: Self)
        ensures
            is_full_deck(r@),
    {
        let values: [Value; 13] = [
            Value::Ace,
            Value::Two,
            Value::Three,
            Value::Four,
            Value::Five,
            Value::Six,
            Value::Seven,
            Value::Eight,
            Value::Nine,
            Value::Ten,
            Value::Jack,
            Value::Queen,
            Value::King,
        ];
        let suits: [Suit; 4] = [Suit::Clubs, Suit::Diamonds, Suit::Hearts, Suit::Spades];
        assert(forall|i: int| 0 <= i < 13 ==> values@[i] == value_at(i));
        assert(forall|j: int| 0 <= j < 4 ==> suits@[j] == suit_at(j));
        let mut cards: VecDeque<Card> = VecDeque::new();
        let mut v: usize = 0;
        while v < 13
            invariant
                v <= 13,
                cards@.len() == 4 * v,
                forall|i: int| 0 <= i < 13 ==> values@[i] == value_at(i),
                forall|j: int| 0 <= j < 4 ==> suits@[j] == suit_at(j),
                forall|i: int|
                    0 <= i < cards@.len() ==> (#[trigger] cards@[i]).spec_value() == value_at(i / 4)
                        && cards@[i].spec_suit() == suit_at(i % 4),
            decreases 13 - v,
        {
            let mut s: usize = 0;
            while s < 4
                invariant
                    v < 13,
                    s <= 4,
                    cards@.len() == 4 * v + s,
                    forall|i: int| 0 <= i < 13 ==> values@[i] == value_at(i),
                    forall|j: int| 0 <= j < 4 ==> suits@[j] == suit_at(j),
                    forall|i: int|
                        0 <= i < cards@.len() ==> (#[trigger] cards@[i]).spec_value() == value_at(i / 4)
                            && cards@[i].spec_suit() == suit_at(i % 4),
                decreases 4 - s,
            {
                let card = Card::new(values[v], suits[s]);
                let ghost k = cards@.len() as int;
                assert(k / 4 == v && k % 4 == s) by (nonlinear_arith)
                    requires
                        k == 4 * v + s,
                        s < 4,
                ;
                cards.push_back(card);
                s += 1;
            }
            v += 1;
        }
        Self { cards }
    }

    /// The pile without any card.
    pub fn empty() -> (r: Self)
        ensures
            r@ == Seq::<Card>::empty(),
    {
        Self { cards: VecDeque::new() }
    }

    /// Puts the cards of the pile in a random order.
    pub fn shuffle(&mut self)
        ensures
            final(self)@.len() == old(self)@.len(),
            final(self)@.to_multiset() == old(self)@.to_multiset(),
    {
        shuffle_cards(&mut self.cards);
    }

    /// The cards of the pile, top first.
    pub fn cards(&self) -> (r: &VecDeque<Card>)
        ensures
            r@ == self@,
    {
        &self.cards
    }

    /// The cards of the pile, top first, taken out of it.
    pub fn into_cards(self) -> (r: VecDeque<Card>)
        ensures
            r@ == self@,
    {
        self.cards
    }

    /// The number of cards in the pile.
    pub fn size(&self) -> (r: usize)
        ensures
            r == self@.len(),
    {
        self.cards.len()
    }

    /// Puts `card` on top of the pile.
    pub fn push_top(&mut self, card: Card)
        ensures
            final(self)@ == seq![card] + old(self)@,
    {
        self.cards.push_front(card);
    }

    /// Adds `cards` under the bottom of the pile, in their order.
    pub fn append(&mut self, cards: VecDeque<Card>)
        ensures
            final(self)@ == old(self)@ + cards@,
    {
        let mut cards = cards;
        self.cards.append(&mut cards);
    }

    /// Puts each of `cards` in turn on top of the pile, so that the last of
    /// them ends on top.
    pub fn prepend(&mut self, cards: VecDeque<Card>)
        ensures
            final(self)@ == reversed(cards@) + old(self)@,
    {
        let mut rest = cards;
        let ghost all = cards@;
        while rest.len() > 0
            invariant
                rest@.len() <= all.len(),
                rest@ == all.subrange(all.len() - rest@.len(), all.len() as int),
                self@ == reversed(all.subrange(0, all.len() - rest@.len())) + old(self)@,
            decreases rest@.len(),
        {
            let ghost done = all.len() - rest@.len();
            let card = rest.pop_front().unwrap();
            self.cards.push_front(card);
            assert(reversed(all.subrange(0, done + 1)) =~= seq![card] + reversed(all.subrange(0, done)));
            assert(rest@ =~= all.subrange(all.len() - rest@.len(), all.len() as int));
        }
        assert(all.subrange(0, all.len() as int) =~= all);
    }

    /// Deals `amt` cards from the top of the pile to the end of `player`'s
    /// hand, in order. When the pile holds fewer, it deals them all and fails
    /// with the number it could not deal.
    pub fn deal(&mut self, amt: usize, player: &mut Player) -> (r: Result<(), usize>)
        ensures
            amt <= old(self)@.len() ==> r is Ok,
            amt > old(self)@.len() ==> r == Err::<(), usize>(
                (amt - old(self)@.len()) as usize,
            ),
            ({
                let n = if amt <= old(self)@.len() { amt as int } else { old(self)@.len() as int };
                &&& final(self)@ == old(self)@.subrange(n, old(self)@.len() as int)
                &&& final(player).spec_hand() == old(player).spec_hand() + old(self)@.subrange(0, n)
                &&& final(player).spec_name() == old(player).spec_name()
            }),
    {
        let size = self.cards.len();
        let n = if amt <= size { amt } else { size };
        let mut i: usize = 0;
        assert(old(self)@.subrange(0, 0) =~= Seq::<Card>::empty());
        assert(old(player).spec_hand() + Seq::<Card>::empty() =~= old(player).spec_hand());
        assert(old(self)@.subrange(0, size as int) =~= old(self)@);
        while i < n
            invariant
                n <= size,
                size == old(self)@.len(),
                i <= n,
                self@ == old(self)@.subrange(i as int, size as int),
                player.spec_hand() == old(player).spec_hand() + old(self)@.subrange(0, i as int),
                player.spec_name() == old(player).spec_name(),
            decreases n - i,
        {
            let card = self.cards.pop_front().unwrap();
            player.mut_hand().push(card);
            assert(old(self)@.subrange(0, i + 1) =~= old(self)@.subrange(0, i as int).push(card));
            assert(self@ =~= old(self)@.subrange(i + 1, size as int));
            i += 1;
        }
        if amt <= size {
            Ok(())
        } else {
            Err(amt - size)
        }
    }

    /// Moves `amt` cards from the top of this pile onto `deck`, one at a
    /// time, so that they end on top of `deck` in reverse order. When this
    /// pile holds fewer, it moves them all and fails with the number it
    /// could not move.
    pub fn inject(&mut self, amt: usize, deck: &mut Deck) -> (r: Result<(), usize>)
        ensures
            amt <= old(self)@.len() ==> r is Ok,
            amt > old(self)@.len() ==> r == Err::<(), usize>((amt - old(self)@.len()) as usize),
            ({
                let n = if amt <= old(self)@.len() { amt as int } else { old(self)@.len() as int };
                &&& final(self)@ == old(self)@.subrange(n, old(self)@.len() as int)
                &&& final(deck)@ == reversed(old(self)@.subrange(0, n)) + old(deck)@
            }),
    {
        let size = self.cards.len();
        let n = if amt <= size { amt } else { size };
        let mut i: usize = 0;
        while i < n
            invariant
                n <= size,
                size == old(self)@.len(),
                i <= n,
                self@ == old(self)@.subrange(i as int, size as int),
                deck@ == reversed(old(self)@.subrange(0, i as int)) + old(deck)@,
            decreases n - i,
        {
            let card = self.cards.pop_front().unwrap();
            deck.push_top(card);
            assert(reversed(old(self)@.subrange(0, i + 1)) =~= seq![card] + reversed(
                old(self)@.subrange(0, i as int),
            ));
            assert(self@ =~= old(self)@.subrange(i + 1, size as int));
            i += 1;
        }
        if amt <= size {
            Ok(())
        } else {
            Err(amt - size)
        }
    }
}

} // verus!
