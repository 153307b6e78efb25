use pinochle::game::cards::{Card, Rank, Suit};
use pinochle::game::deck::{deal, fresh_deck, shuffle, DECK_SIZE, HAND_SIZE};

fn count(cards: &[Card], card: Card) -> usize {
    cards.iter().filter(|c| **c == card).count()
}

fn every_card() -> Vec<Card> {
    let suits = [Suit::Diamond, Suit::Club, Suit::Heart, Suit::Spade];
    let ranks = [
        Rank::Nine,
        Rank::Jack,
        Rank::Queen,
        Rank::King,
        Rank::Ten,
        Rank::Ace,
    ];
    let mut cards = Vec::new();
    for suit in suits {
        for rank in ranks {
            cards.push(Card { suit, rank });
        }
    }
    cards
}

#[test]
fn the_fresh_deck_holds_each_card_twice() {
    let deck = fresh_deck();
    assert_eq!(deck.len(), DECK_SIZE);
    assert_eq!(deck.len(), 48);
    for card in every_card() {
        assert_eq!(count(&deck, card), 2);
    }
    assert_eq!(&deck[..24], &every_card()[..]);
    assert_eq!(&deck[24..], &every_card()[..]);
    assert_eq!(
        deck[0],
        Card {
            suit: Suit::Diamond,
            rank: Rank::Nine
        }
    );
    assert_eq!(
        deck[47],
        Card {
            suit: Suit::Spade,
            rank: Rank::Ace
        }
    );
}

#[test]
fn the_cards_are_dealt_in_four_quarters() {
    let deck = fresh_deck();
    let hands = deal(fresh_deck());
    assert_eq!(hands.a, deck[0..12].to_vec());
    assert_eq!(hands.b, deck[12..24].to_vec());
    assert_eq!(hands.c, deck[24..36].to_vec());
    assert_eq!(hands.d, deck[36..48].to_vec());
}

#[test]
fn cards_beyond_four_equal_parts_are_dealt_to_nobody() {
    let deck = fresh_deck();
    let hands = deal(deck[0..6].to_vec());
    assert_eq!(hands.a, deck[0..1].to_vec());
    assert_eq!(hands.b, deck[1..2].to_vec());
    assert_eq!(hands.c, deck[2..3].to_vec());
    assert_eq!(hands.d, deck[3..4].to_vec());
    let none = deal(Vec::new());
    assert!(none.a.is_empty() && none.b.is_empty() && none.c.is_empty() && none.d.is_empty());
}

#[test]
fn a_shuffled_deal_is_the_double_deck() {
    let hands = shuffle();
    assert_eq!(hands.a.len(), HAND_SIZE);
    assert_eq!(hands.b.len(), 12);
    assert_eq!(hands.c.len(), 12);
    assert_eq!(hands.d.len(), 12);
    let mut all = hands.a.clone();
    all.extend(hands.b.iter());
    all.extend(hands.c.iter());
    all.extend(hands.d.iter());
    for card in every_card() {
        assert_eq!(count(&all, card), 2);
    }
}

#[test]
fn shuffling_changes_the_order_of_the_cards() {
    let unshuffled = deal(fresh_deck());
    let mut changed = false;
    for _ in 0..20 {
        if shuffle() != unshuffled {
            changed = true;
        }
    }
    assert!(changed);
}
