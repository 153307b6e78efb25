use pinochle::board::{is_legal, next_turn, Board};
use pinochle::command::ResponseError;
use pinochle::game::cards::{Card, Rank, Suit};

const S9: Card = Card {
    suit: Suit::Spade,
    rank: Rank::Nine,
};
const SQ: Card = Card {
    suit: Suit::Spade,
    rank: Rank::Queen,
};
const SK: Card = Card {
    suit: Suit::Spade,
    rank: Rank::King,
};
const SX: Card = Card {
    suit: Suit::Spade,
    rank: Rank::Ten,
};
const D9: Card = Card {
    suit: Suit::Diamond,
    rank: Rank::Nine,
};
const DA: Card = Card {
    suit: Suit::Diamond,
    rank: Rank::Ace,
};
const C9: Card = Card {
    suit: Suit::Club,
    rank: Rank::Nine,
};
const H9: Card = Card {
    suit: Suit::Heart,
    rank: Rank::Nine,
};
const HA: Card = Card {
    suit: Suit::Heart,
    rank: Rank::Ace,
};

#[test]
fn lib_simple_round() {
    let mut board = Board {
        hands: [vec![S9], vec![SX], vec![SK], vec![SQ]],
        play_area: vec![],
        taken: [vec![], vec![]],
        trump: Suit::Spade,
        turn: 0,
    };

    board.play(S9).unwrap();
    board.play(SX).unwrap();
    board.play(SK).unwrap();
    board.play(SQ).unwrap();

    assert_eq!(board.taken[0].len(), 0);
    assert_eq!(board.taken[1].len(), 4);
}

#[test]
fn the_turn_goes_round_the_four_seats() {
    assert_eq!(next_turn(0), 1);
    assert_eq!(next_turn(1), 2);
    assert_eq!(next_turn(2), 3);
    assert_eq!(next_turn(3), 0);
    assert_eq!(next_turn(6), 3);
}

#[test]
fn a_board_refuses_what_may_not_be_played() {
    let mut board = Board {
        hands: [vec![DA, C9], vec![H9, S9, C9], vec![D9, D9], vec![C9]],
        play_area: vec![],
        taken: [vec![], vec![]],
        trump: Suit::Spade,
        turn: 0,
    };
    assert_eq!(board.play(H9), Err("Card not in hand"));
    assert_eq!(board.turn, 0);
    assert_eq!(board.play(DA), Ok(()));
    assert_eq!(board.turn, 1);
    assert_eq!(board.hands[0], vec![C9]);
    assert_eq!(board.play_area, vec![DA]);
    assert_eq!(board.play(C9), Err("Must trump"));
    assert_eq!(board.play(H9), Err("Must trump"));
    assert_eq!(board.play(D9), Err("Must trump"));
    assert_eq!(board.play(SQ), Err("Card not in hand"));
    assert_eq!(board.hands[1], vec![H9, S9, C9]);
    assert_eq!(board.play_area, vec![DA]);
    assert_eq!(board.play(S9), Ok(()));
    assert_eq!(board.play(C9), Err("Must follow suit"));
    assert_eq!(board.play(D9), Ok(()));
    assert_eq!(board.hands[2], vec![D9]);
    assert_eq!(board.play(C9), Ok(()));
    assert_eq!(board.play_area, vec![]);
    assert_eq!(board.taken[0], vec![]);
    assert_eq!(board.taken[1], vec![DA, S9, D9, C9]);
    assert_eq!(board.turn, 1);
}

#[test]
fn the_first_of_two_equal_cards_takes_the_trick_on_a_board() {
    let mut board = Board {
        hands: [vec![HA], vec![HA], vec![H9], vec![H9]],
        play_area: vec![],
        taken: [vec![], vec![]],
        trump: Suit::Spade,
        turn: 0,
    };
    for card in [HA, HA, H9, H9] {
        assert_eq!(board.play(card), Ok(()));
    }
    assert_eq!(board.taken[0], vec![HA, HA, H9, H9]);
    assert_eq!(board.taken[1], vec![]);
    assert_eq!(board.turn, 0);

    let mut board = Board {
        hands: [vec![H9], vec![HA], vec![HA], vec![H9]],
        play_area: vec![],
        taken: [vec![], vec![]],
        trump: Suit::Spade,
        turn: 0,
    };
    for card in [H9, HA, HA, H9] {
        board.play(card).unwrap();
    }
    assert_eq!(board.taken[0], vec![]);
    assert_eq!(board.taken[1], vec![H9, HA, HA, H9]);
    assert_eq!(board.turn, 1);
}

#[test]
fn legality_with_known_hands() {
    let hand = [H9, S9, C9];
    assert_eq!(is_legal(&[DA], &hand, &C9, Suit::Spade), Err("Must trump"));
    assert_eq!(is_legal(&[DA], &hand, &S9, Suit::Spade), Ok(()));
    assert_eq!(is_legal(&[DA], &hand, &H9, Suit::Spade), Err("Must trump"));
    assert_eq!(is_legal(&[], &hand, &DA, Suit::Spade), Ok(()));
    assert_eq!(
        is_legal(&[HA], &hand, &S9, Suit::Spade),
        Err("Must follow suit")
    );
    assert_eq!(is_legal(&[DA], &[C9], &H9, Suit::Spade), Ok(()));
}

#[test]
fn a_seat_plays_a_card_when_it_is_its_turn() {
    let mut board = Board {
        hands: [vec![DA, C9], vec![H9, S9], vec![D9], vec![C9]],
        play_area: vec![],
        taken: [vec![], vec![]],
        trump: Suit::Spade,
        turn: 0,
    };
    assert!(matches!(
        board.play_card(1, &S9),
        Err(ResponseError::NotYourTurn)
    ));
    assert_eq!(board.hands[1], vec![H9, S9]);
    assert!(matches!(
        board.play_card(0, &H9),
        Err(ResponseError::GameError(why)) if why == "Card not in hand"
    ));
    assert!(matches!(board.play_card(0, &DA), Ok(())));
    assert!(matches!(
        board.play_card(1, &H9),
        Err(ResponseError::GameError(why)) if why == "Must trump"
    ));
    assert!(matches!(
        board.play_card(0, &C9),
        Err(ResponseError::NotYourTurn)
    ));
    assert!(matches!(board.play_card(1, &S9), Ok(())));
    assert_eq!(board.play_area, vec![DA, S9]);
    assert_eq!(board.turn, 2);
}
