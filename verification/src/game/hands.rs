//! Hands: the cards a seat holds, some of them perhaps unknown to the holder of the value.
//!
//! A hand is a sequence of slots. `Some(card)` is a known card. `None` is a placeholder
//! for a card whose identity is hidden: it stands for any card.

use super::cards::{Card, Suit};
use vstd::prelude::*;

verus! {

/// The slot of `hand` that gives up `card`: the first slot that holds this card, and where
/// no slot does, the first placeholder.
pub open spec fn slot_of(hand: Seq<Option<Card>>, card: Card) -> Option<int> {
    match hand.index_of_first(Some(card)) {
        Some(i) => Some(i),
        None => hand.index_of_first(None),
    }
}

/// The hand after it has given up `card`, or `None` where it holds neither the card nor a
/// placeholder.
pub open spec fn give(hand: Seq<Option<Card>>, card: Card) -> Option<Seq<Option<Card>>> {
    match slot_of(hand, card) {
        Some(i) => Some(hand.remove(i)),
        None => None,
    }
}

/// The hand after it has given up its first placeholder, or `None` where it has none.
pub open spec fn give_unknown(hand: Seq<Option<Card>>) -> Option<Seq<Option<Card>>> {
    match hand.index_of_first(None) {
        Some(i) => Some(hand.remove(i)),
        None => None,
    }
}

/// The hand after it has given up `cards` one after the other, or `None` where one of them
/// cannot be given.
pub open spec fn give_all(hand: Seq<Option<Card>>, cards: Seq<Card>) -> Option<Seq<Option<Card>>>
    decreases cards.len(),
{
    if cards.len() == 0 {
        Some(hand)
    } else {
        match give(hand, cards[0]) {
            Some(rest) => give_all(rest, cards.drop_first()),
            None => None,
        }
    }
}

/// The hand after it has given up `count` placeholders, or `None` where it has fewer.
pub open spec fn give_unknowns(hand: Seq<Option<Card>>, count: nat) -> Option<Seq<Option<Card>>>
    decreases count,
{
    if count == 0 {
        Some(hand)
    } else {
        match give_unknown(hand) {
            Some(rest) => give_unknowns(rest, (count - 1) as nat),
            None => None,
        }
    }
}

/// Cards as slots of a hand, each of them known.
pub open spec fn known(cards: Seq<Card>) -> Seq<Option<Card>> {
    Seq::new(cards.len(), |i: int| Some(cards[i]))
}

/// As many placeholders as asked for.
pub open spec fn unknown(count: nat) -> Seq<Option<Card>> {
    Seq::new(count, |i: int| None)
}

/// Whether a known card of the hand is of the suit.
pub open spec fn holds_suit(hand: Seq<Option<Card>>, suit: Suit) -> bool {
    exists|i: int| 0 <= i < hand.len() && hand[i] is Some && (#[trigger] hand[i])->0.suit == suit
}

/// Whether `i` is the first place in `items` at which `f` answers `true`.
pub open spec fn first_accepted<T, F: Fn(&T) -> bool>(items: Seq<T>, f: F, i: int) -> bool {
    &&& 0 <= i < items.len()
    &&& call_ensures(f, (&items[i],), true)
    &&& forall|j: int| 0 <= j < i ==> call_ensures(f, (&#[trigger] items[j],), false)
}

/// Removes the first item that `f` accepts, and says whether there was one.
pub fn remove_item<T, F>(vec: &mut Vec<T>, f: F) -> (removed: bool) where F: Fn(&T) -> bool
    requires
        forall|i: int| 0 <= i < old(vec)@.len() ==> call_requires(f, (&#[trigger] old(vec)@[i],)),
    ensures
        removed ==> exists|i: int|
            #[trigger] first_accepted(old(vec)@, f, i) && final(vec)@ == old(vec)@.remove(i),
        !removed ==> final(vec)@ == old(vec)@ && forall|j: int|
            0 <= j < old(vec)@.len() ==> call_ensures(f, (&#[trigger] old(vec)@[j],), false),
{
    let mut index: usize = 0;
    while index < vec.len()
        invariant
            vec@ == old(vec)@,
            index <= vec@.len(),
            forall|i: int| 0 <= i < vec@.len() ==> call_requires(f, (&#[trigger] vec@[i],)),
            forall|j: int| 0 <= j < index ==> call_ensures(f, (&#[trigger] vec@[j],), false),
        decreases vec@.len() - index,
    {
        if f(&vec[index]) {
            assert(first_accepted(old(vec)@, f, index as int));
            vec.remove(index);
            return true;
        }
        index += 1;
    }
    false
}

/// Takes `card` out of the hand: its first copy, or failing that the first placeholder.
/// Says whether the hand could give the card, and leaves the hand as it was where it could not.
pub fn take_card(hand: &mut Vec<Option<Card>>, card: Card) -> (given: bool)
    ensures
        match give(old(hand)@, card) {
            Some(rest) => given && final(hand)@ == rest,
            None => !given && final(hand)@ == old(hand)@,
        },
{
    let is_card = |slot: &Option<Card>| -> (b: bool)
        ensures
            b == (*slot == Some(card)),
        {
            match slot {
                Some(held) => *held == card,
                None => false,
            }
        };
    proof {
        old(hand)@.index_of_first_ensures(Some(card));
        old(hand)@.index_of_first_ensures(None);
    }
    if remove_item(hand, is_card) {
        return true;
    }
    take_unknown(hand)
}

/// Takes the first placeholder out of the hand. Says whether there was one.
pub fn take_unknown(hand: &mut Vec<Option<Card>>) -> (given: bool)
    ensures
        match give_unknown(old(hand)@) {
            Some(rest) => given && final(hand)@ == rest,
            None => !given && final(hand)@ == old(hand)@,
        },
{
    let is_unknown = |slot: &Option<Card>| -> (b: bool)
        ensures
            b == (*slot is None),
        { slot.is_none() };
    proof {
        old(hand)@.index_of_first_ensures(None);
    }
    remove_item(hand, is_unknown)
}

/// Whether a known card of the hand is of the suit.
pub fn has_suit(hand: &[Option<Card>], suit: Suit) -> (found: bool)
    ensures
        found == holds_suit(hand@, suit),
{
    let mut i: usize = 0;
    while i < hand.len()
        invariant
            i <= hand@.len(),
            forall|j: int| 0 <= j < i ==> !(hand@[j] is Some && (#[trigger] hand@[j])->0.suit == suit),
        decreases hand@.len() - i,
    {
        if let Some(card) = hand[i] {
            if card.suit == suit {
                return true;
            }
        }
        i += 1;
    }
    false
}

/// A hand of the same size with every card hidden.
pub fn hide_hand(hand: &Vec<Option<Card>>) -> (hidden: Vec<Option<Card>>)
    ensures
        hidden@ == unknown(hand@.len()),
{
    let mut hidden: Vec<Option<Card>> = Vec::new();
    while hidden.len() < hand.len()
        invariant
            hidden@.len() <= hand@.len(),
            hidden@ == unknown(hidden@.len()),
        decreases hand@.len() - hidden@.len(),
    {
        hidden.push(None);
        proof {
            assert(hidden@ =~= unknown(hidden@.len()));
        }
    }
    hidden
}

/// The cards as a hand in which each of them is known.
pub fn reveal_hand(cards: &Vec<Card>) -> (hand: Vec<Option<Card>>)
    ensures
        hand@ == known(cards@),
{
    let mut hand: Vec<Option<Card>> = Vec::new();
    let mut i: usize = 0;
    while i < cards.len()
        invariant
            i <= cards@.len(),
            hand@ == known(cards@.take(i as int)),
        decreases cards@.len() - i,
    {
        hand.push(Some(cards[i]));
        proof {
            assert(hand@ =~= known(cards@.take(i + 1)));
        }
        i += 1;
    }
    proof {
        assert(cards@.take(cards@.len() as int) =~= cards@);
    }
    hand
}

} // verus!
