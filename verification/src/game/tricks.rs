//! Which card takes a trick.

use super::cards::{Card, Suit};
use std::cmp::Ordering;
use vstd::prelude::*;

verus! {

/// Whether `challenger` takes a trick from `holder`, the card that holds it so far, where
/// `led` is the suit of the first card of the trick. In one suit the higher rank takes it.
/// Between two suits trump takes it from any other suit, and the led suit from a suit that is
/// neither. A card never takes the trick from an equal card.
pub open spec fn beats(challenger: Card, holder: Card, led: Suit, trump: Suit) -> bool {
    if challenger.suit == holder.suit {
        challenger.rank.strength() > holder.rank.strength()
    } else {
        challenger.suit == trump || (holder.suit != trump && challenger.suit == led)
    }
}

/// How `c1` stands to `c2` in a trick: greater where it takes the trick from `c2`, less where
/// `c2` takes it from `c1`, equal where neither does.
pub open spec fn card_order(c1: Card, c2: Card, led: Suit, trump: Suit) -> Ordering {
    if beats(c1, c2, led, trump) {
        Ordering::Greater
    } else if beats(c2, c1, led, trump) {
        Ordering::Less
    } else {
        Ordering::Equal
    }
}

/// Where the card that takes the trick stands in `cards`, the cards of a trick in the order
/// they were played. The first card leads, and a later card takes the trick only from a
/// card that it beats: of two equal cards the one played first wins.
pub open spec fn trick_winner(cards: Seq<Card>, trump: Suit) -> int
    decreases cards.len(),
{
    if cards.len() <= 1 {
        0
    } else {
        let earlier = trick_winner(cards.drop_last(), trump);
        if beats(cards.last(), cards[earlier], cards[0].suit, trump) {
            cards.len() - 1
        } else {
            earlier
        }
    }
}

pub fn compare_cards(c1: &Card, c2: &Card, led_suit: &Suit, trump_suit: &Suit) -> (o: Ordering)
    ensures
        o == card_order(*c1, *c2, *led_suit, *trump_suit),
{
    let s1 = c1.suit;
    let s2 = c2.suit;

    if s1 == s2 {
        if c1.rank < c2.rank {
            Ordering::Less
        } else if c1.rank == c2.rank {
            Ordering::Equal
        } else {
            Ordering::Greater
        }
    } else {
        if s1 == *trump_suit {
            Ordering::Greater
        } else if s2 == *trump_suit {
            Ordering::Less
        } else if s1 == *led_suit {
            Ordering::Greater
        } else if s2 == *led_suit {
            Ordering::Less
        } else {
            Ordering::Equal
        }
    }
}

/// Whether `challenger` takes the trick from `holder`.
pub fn takes_trick(challenger: &Card, holder: &Card, led_suit: &Suit, trump_suit: &Suit) -> (wins:
    bool)
    ensures
        wins == beats(*challenger, *holder, *led_suit, *trump_suit),
{
    match compare_cards(challenger, holder, led_suit, trump_suit) {
        Ordering::Greater => true,
        _ => false,
    }
}

} // verus!
