//! The double deck: each card of the four suits and six ranks twice, 48 cards in all.

use super::cards::{Card, Rank, Suit};
use super::seats::{PlayerMap, NUMBER_OF_PLAYERS};
use rand::seq::SliceRandom;
use rand::thread_rng;
use vstd::prelude::*;
use vstd::seq_lib::lemma_multiset_commutative;

verus! {

/// How many cards the double deck holds.
pub const DECK_SIZE: usize = 48;

/// How many cards each seat is dealt.
pub const HAND_SIZE: usize = 12;

/// How often `card` occurs among `cards`.
pub open spec fn copies(cards: Seq<Card>, card: Card) -> nat {
    cards.to_multiset().count(card)
}

/// Whether `cards` are the double deck in some order: 48 cards, each card twice.
pub open spec fn is_double_deck(cards: Seq<Card>) -> bool {
    &&& cards.len() == DECK_SIZE
    &&& forall|card: Card| copies(cards, card) == 2
}

/// Whether the four hands are a deal of the double deck: twelve cards each, and each card
/// twice among them.
pub open spec fn is_deal(hands: PlayerMap<Seq<Card>>) -> bool {
    &&& hands.a.len() == HAND_SIZE
    &&& hands.b.len() == HAND_SIZE
    &&& hands.c.len() == HAND_SIZE
    &&& hands.d.len() == HAND_SIZE
    &&& forall|card: Card|
        copies(hands.a, card) + copies(hands.b, card) + copies(hands.c, card) + copies(
            hands.d,
            card,
        ) == 2
}

/// Where a suit stands among the suits.
pub open spec fn suit_index(suit: Suit) -> int {
    match suit {
        Suit::Diamond => 0,
        Suit::Club => 1,
        Suit::Heart => 2,
        Suit::Spade => 3,
    }
}

/// The double deck, unshuffled: twice over, suit by suit, the ranks from the nine to the ace.
pub fn fresh_deck() -> (deck: Vec<Card>)
    ensures
        is_double_deck(deck@),
{
    let suits = [Suit::Diamond, Suit::Club, Suit::Heart, Suit::Spade];
    let ranks = [Rank::Nine, Rank::Jack, Rank::Queen, Rank::King, Rank::Ten, Rank::Ace];
    let mut deck: Vec<Card> = Vec::new();
    let mut copy: usize = 0;
    proof {
        deck@.to_multiset_ensures();
        assert forall|card: Card| copies(deck@, card) == 0 by {
            assert(!deck@.contains(card));
        }
    }
    while copy < 2
        invariant
            copy <= 2,
            forall|i: int| 0 <= i < 4 ==> suit_index(#[trigger] suits@[i]) == i,
            forall|i: int| 0 <= i < 6 ==> (#[trigger] ranks@[i]).strength() == i,
            deck@.len() == copy * 24,
            forall|card: Card| copies(deck@, card) == copy,
        decreases 2 - copy,
    {
        let mut s: usize = 0;
        while s < 4
            invariant
                s <= 4,
                copy < 2,
                forall|i: int| 0 <= i < 4 ==> suit_index(#[trigger] suits@[i]) == i,
                forall|i: int| 0 <= i < 6 ==> (#[trigger] ranks@[i]).strength() == i,
                deck@.len() == copy * 24 + s * 6,
                forall|card: Card|
                    copies(deck@, card) == copy + (if suit_index(card.suit) < s {
                        1nat
                    } else {
                        0nat
                    }),
            decreases 4 - s,
        {
            let mut r: usize = 0;
            while r < 6
                invariant
                    r <= 6,
                    s < 4,
                    copy < 2,
                    forall|i: int| 0 <= i < 4 ==> suit_index(#[trigger] suits@[i]) == i,
                    forall|i: int| 0 <= i < 6 ==> (#[trigger] ranks@[i]).strength() == i,
                    deck@.len() == copy * 24 + s * 6 + r,
                    forall|card: Card|
                        copies(deck@, card) == copy + (if suit_index(card.suit) < s || (suit_index(
                            card.suit,
                        ) == s && card.rank.strength() < r) {
                            1nat
                        } else {
                            0nat
                        }),
                decreases 6 - r,
            {
                let next = Card { suit: suits[s], rank: ranks[r] };
                proof {
                    deck@.to_multiset_ensures();
                    assert(suit_index(suits@[s as int]) == s);
                    assert(ranks@[r as int].strength() == r);
                    assert forall|card: Card|
                        copies(deck@.push(next), card) == copies(deck@, card) + (if card == next {
                            1nat
                        } else {
                            0nat
                        }) by {
                        assert(deck@.push(next).to_multiset() =~= deck@.to_multiset().insert(next));
                    }
                }
                deck.push(next);
                r += 1;
            }
            s += 1;
        }
        copy += 1;
    }
    deck
}

/// `rand::seq::SliceRandom::shuffle` on the cards, with the generator that
/// `rand::thread_rng()` gives: puts the cards in a random order by swapping them in place.
/// The contract claims that the cards are the same as before, each as often as before,
/// and nothing of their order. The generator cannot be had where the operating system
/// gives it no seed.
#[verifier::external_body]
fn shuffle_cards(cards: &mut Vec<Card>)
    ensures
        final(cards)@.to_multiset() == old(cards)@.to_multiset(),
{
    let mut rng = thread_rng();
    cards.as_mut_slice().shuffle(&mut rng);
}

/// The cards from `from` up to `to`, in their order.
fn cut(cards: &Vec<Card>, from: usize, to: usize) -> (part: Vec<Card>)
    requires
        from <= to <= cards@.len(),
    ensures
        part@ == cards@.subrange(from as int, to as int),
{
    let mut part: Vec<Card> = Vec::new();
    let mut i: usize = from;
    while i < to
        invariant
            from <= i <= to <= cards@.len(),
            part@ == cards@.subrange(from as int, i as int),
        decreases to - i,
    {
        part.push(cards[i]);
        proof {
            assert(part@ =~= cards@.subrange(from as int, i + 1));
        }
        i += 1;
    }
    part
}

/// Deals the cards in four equal parts: the first quarter to A, the second to B, the third
/// to C and the fourth to D. Cards beyond four equal parts are dealt to nobody.
pub fn deal(cards: Vec<Card>) -> (hands: PlayerMap<Vec<Card>>)
    ensures
        hands@ == ({
            let each = cards@.len() as int / 4;
            PlayerMap {
                a: cards@.subrange(0, each),
                b: cards@.subrange(each, 2 * each),
                c: cards@.subrange(2 * each, 3 * each),
                d: cards@.subrange(3 * each, 4 * each),
            }
        }),
        is_double_deck(cards@) ==> is_deal(hands@),
{
    let cards_each: usize = cards.len() / NUMBER_OF_PLAYERS;
    let hands = PlayerMap::new(
        cut(&cards, 0, cards_each),
        cut(&cards, cards_each, 2 * cards_each),
        cut(&cards, 2 * cards_each, 3 * cards_each),
        cut(&cards, 3 * cards_each, 4 * cards_each),
    );
    proof {
        if is_double_deck(cards@) {
            let a = hands@.a;
            let b = hands@.b;
            let c = hands@.c;
            let d = hands@.d;
            assert(cards@ =~= ((a + b) + c) + d);
            lemma_multiset_commutative(a, b);
            lemma_multiset_commutative(a + b, c);
            lemma_multiset_commutative((a + b) + c, d);
            assert forall|card: Card|
                copies(a, card) + copies(b, card) + copies(c, card) + copies(d, card) == 2 by {
                assert(copies(cards@, card) == 2);
            }
        }
    }
    hands
}

/// A deal of the freshly shuffled double deck.
pub fn shuffle() -> (hands: PlayerMap<Vec<Card>>)
    ensures
        is_deal(hands@),
{
    let mut cards = fresh_deck();
    let ghost fresh = cards@;
    shuffle_cards(&mut cards);
    proof {
        fresh.to_multiset_ensures();
        cards@.to_multiset_ensures();
        assert(cards@.len() == cards@.to_multiset().len());
        assert(fresh.len() == fresh.to_multiset().len());
        assert forall|card: Card| copies(cards@, card) == 2 by {
            assert(copies(fresh, card) == 2);
        }
    }
    deal(cards)
}

} // verus!
