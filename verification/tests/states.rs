use pinochle::game::cards::{Card, Rank, Suit};
use pinochle::game::hands::{has_suit, remove_item, take_card, take_unknown};
use pinochle::game::seats::{Player, PlayerMap, Team};
use pinochle::game::states::{hands_to_option, is_legal, Bidding, Project};
use pinochle::game::tricks::{compare_cards, takes_trick};
use std::cmp::Ordering;

const HX: Card = Card {
    suit: Suit::Heart,
    rank: Rank::Ten,
};

fn card(suit: Suit, rank: Rank) -> Card {
    Card { suit, rank }
}

fn empty_hands() -> PlayerMap<Vec<Option<Card>>> {
    PlayerMap::new(vec![], vec![], vec![], vec![])
}

#[test]
fn states_simple_round() -> Result<(), String> {
    let game = Bidding::new(
        Player::A,
        PlayerMap::new(
            vec![Some(HX), Some(HX), Some(HX), Some(HX)],
            vec![Some(HX), Some(HX), Some(HX), Some(HX)],
            vec![Some(HX), Some(HX), Some(HX), Some(HX)],
            vec![Some(HX), Some(HX), Some(HX), Some(HX)],
        ),
    );
    let (game, _) = game.bid(250).left().unwrap();
    let (game, _) = game.pass().left().unwrap();
    let (game, _) = game.bid(300).left().unwrap();
    let game = game.pass().right().unwrap();
    assert_eq!(game.turn(), Player::C);
    let game = game.select(Suit::Heart);
    assert_eq!(game.turn(), Player::A);
    let game = game.pass(Some([HX, HX, HX, HX]))?;
    assert_eq!(game.turn(), Player::C);
    let game = game.pass(Some([HX, HX, HX, HX]))?;
    assert_eq!(game.turn(), Player::C);
    let (game, _) = game.play(HX).left().unwrap();
    let (game, _) = game.play(HX).left().unwrap();
    let (game, _) = game.play(HX).left().unwrap();
    let (game, _) = game.play(HX).left().unwrap();
    let (game, _) = game.play(HX).left().unwrap();
    let (game, _) = game.play(HX).left().unwrap();
    let (game, _) = game.play(HX).left().unwrap();
    let (game, _) = game.play(HX).left().unwrap();
    let (game, _) = game.play(HX).left().unwrap();
    let (game, _) = game.play(HX).left().unwrap();
    let (game, _) = game.play(HX).left().unwrap();
    let (game, _) = game.play(HX).left().unwrap();
    let (game, _) = game.play(HX).left().unwrap();
    let (game, _) = game.play(HX).left().unwrap();
    let (game, _) = game.play(HX).left().unwrap();
    let game = game.play(HX).right().unwrap();
    assert_eq!(
        game.taken(),
        [
            vec![HX, HX, HX, HX, HX, HX, HX, HX, HX, HX, HX, HX, HX, HX, HX, HX,],
            vec![],
        ]
    );
    let game = game.next();
    game.left().unwrap();

    Ok(())
}

#[test]
fn a_bid_below_the_minimum_is_refused() {
    let game = Bidding::new(Player::A, empty_hands());
    let (game, why) = game.bid(210).left().unwrap();
    assert_eq!(why, Some("Must bid be at least 250"));
    assert_eq!(game.bids(), &[]);
    assert_eq!(game.turn(), Player::A);
    let (game, why) = game.bid(249).left().unwrap();
    assert_eq!(why, Some("Must bid be at least 250"));
    let (game, why) = game.bid(0).left().unwrap();
    assert_eq!(why, Some("Must bid be at least 250"));
    let (game, why) = game.bid(250).left().unwrap();
    assert_eq!(why, None);
    assert_eq!(game.bids(), &[Some(250)]);
    assert_eq!(game.turn(), Player::B);
}

#[test]
fn a_bid_between_the_steps_is_refused() {
    let game = Bidding::new(Player::B, empty_hands());
    let (game, why) = game.bid(260).left().unwrap();
    assert_eq!(why, Some("Must bid in increments of 25"));
    let (game, why) = game.bid(251).left().unwrap();
    assert_eq!(why, Some("Must bid in increments of 25"));
    let (game, why) = game.bid(274).left().unwrap();
    assert_eq!(why, Some("Must bid in increments of 25"));
    assert_eq!(game.bids(), &[]);
    let (game, why) = game.bid(275).left().unwrap();
    assert_eq!(why, None);
    assert_eq!(game.bids(), &[Some(275)]);
    assert_eq!(game.turn(), Player::C);
    assert_eq!(game.initial_bidder(), Player::B);
}

#[test]
fn a_bid_that_is_not_higher_is_refused() {
    let game = Bidding::new(Player::A, empty_hands());
    let (game, _) = game.bid(300).left().unwrap();
    let (game, why) = game.bid(300).left().unwrap();
    assert_eq!(why, Some("Bid must be higher than any bid"));
    let (game, why) = game.bid(275).left().unwrap();
    assert_eq!(why, Some("Bid must be higher than any bid"));
    let (game, why) = game.pass().left().unwrap();
    assert_eq!(why, None);
    let (game, why) = game.bid(300).left().unwrap();
    assert_eq!(why, Some("Bid must be higher than any bid"));
    assert_eq!(game.bids(), &[Some(300), None]);
    assert_eq!(game.turn(), Player::C);
    let (game, why) = game.bid(325).left().unwrap();
    assert_eq!(why, None);
    assert_eq!(game.bids(), &[Some(300), None, Some(325)]);
}

#[test]
fn the_first_bidder_must_not_pass() {
    let game = Bidding::new(Player::D, empty_hands());
    let (game, why) = game.pass().left().unwrap();
    assert_eq!(why, Some("First bidder must not pass"));
    assert_eq!(game.bids(), &[]);
    assert_eq!(game.turn(), Player::D);
}

#[test]
fn the_others_may_all_pass() {
    let game = Bidding::new(Player::D, empty_hands());
    let (game, _) = game.bid(250).left().unwrap();
    let (game, why) = game.pass().left().unwrap();
    assert_eq!(why, None);
    let (game, why) = game.pass().left().unwrap();
    assert_eq!(why, None);
    let game = game.pass().right().unwrap();
    assert_eq!(game.turn(), Player::D);
    assert_eq!(game.bids(), &[Some(250), None, None, None]);
    assert_eq!(game.score(Team::TeamAC), 0);
    assert_eq!(game.score(Team::TeamBD), 0);
}

#[test]
fn the_highest_bidder_names_trump() {
    let game = Bidding::new(Player::B, empty_hands());
    let (game, _) = game.bid(250).left().unwrap();
    let (game, _) = game.bid(275).left().unwrap();
    let (game, _) = game.pass().left().unwrap();
    let game = game.bid(400).right().unwrap();
    assert_eq!(game.turn(), Player::A);
    let game = game.select(Suit::Club);
    assert_eq!(game.turn(), Player::C);
    assert_eq!(game.trump(), Suit::Club);
}

#[test]
fn legality() {
    let play_area = [card(Suit::Diamond, Rank::Ace)];
    let hand = [
        Some(card(Suit::Heart, Rank::Nine)),
        Some(card(Suit::Spade, Rank::Nine)),
        Some(card(Suit::Club, Rank::Nine)),
    ];
    assert_eq!(
        is_legal(&play_area, &hand, &card(Suit::Club, Rank::Nine), Suit::Spade),
        Err("Must trump")
    );
    assert_eq!(
        is_legal(&play_area, &hand, &card(Suit::Spade, Rank::Nine), Suit::Spade),
        Ok(())
    );
    assert_eq!(
        is_legal(&play_area, &hand, &card(Suit::Heart, Rank::Nine), Suit::Spade),
        Err("Must trump")
    );
    assert_eq!(
        is_legal(&play_area, &hand, &card(Suit::Diamond, Rank::Nine), Suit::Spade),
        Err("Must trump")
    );
}

#[test]
fn the_leader_may_play_any_card() {
    let hand = [
        Some(card(Suit::Heart, Rank::Nine)),
        Some(card(Suit::Spade, Rank::Nine)),
    ];
    for suit in [Suit::Diamond, Suit::Club, Suit::Heart, Suit::Spade] {
        assert_eq!(
            is_legal(&[], &hand, &card(suit, Rank::Queen), Suit::Spade),
            Ok(())
        );
        assert_eq!(is_legal(&[], &[], &card(suit, Rank::Ace), Suit::Club), Ok(()));
    }
}

#[test]
fn a_seat_that_holds_the_led_suit_must_follow() {
    let play_area = [card(Suit::Heart, Rank::King), card(Suit::Spade, Rank::Ace)];
    let hand = [
        Some(card(Suit::Heart, Rank::Nine)),
        Some(card(Suit::Spade, Rank::Nine)),
        None,
    ];
    assert_eq!(
        is_legal(&play_area, &hand, &card(Suit::Heart, Rank::Ace), Suit::Spade),
        Ok(())
    );
    assert_eq!(
        is_legal(&play_area, &hand, &card(Suit::Spade, Rank::Nine), Suit::Spade),
        Err("Must follow suit")
    );
    assert_eq!(
        is_legal(&play_area, &hand, &card(Suit::Club, Rank::Nine), Suit::Spade),
        Err("Must follow suit")
    );
}

#[test]
fn a_seat_with_neither_suit_may_play_any_card() {
    let play_area = [card(Suit::Heart, Rank::King)];
    let hand = [Some(card(Suit::Club, Rank::Nine)), None, None];
    for suit in [Suit::Diamond, Suit::Club, Suit::Heart, Suit::Spade] {
        assert_eq!(
            is_legal(&play_area, &hand, &card(suit, Rank::Jack), Suit::Spade),
            Ok(())
        );
    }
}

#[test]
fn has_suit_looks_at_known_cards() {
    let hand = [None, Some(card(Suit::Club, Rank::Nine)), None];
    assert!(has_suit(&hand, Suit::Club));
    assert!(!has_suit(&hand, Suit::Heart));
    assert!(!has_suit(&[], Suit::Club));
    assert!(!has_suit(&[None, None], Suit::Spade));
}

#[test]
fn cards_compare_by_trump_then_led_suit_then_rank() {
    let d9 = card(Suit::Diamond, Rank::Nine);
    let da = card(Suit::Diamond, Rank::Ace);
    let dx = card(Suit::Diamond, Rank::Ten);
    let dk = card(Suit::Diamond, Rank::King);
    let s9 = card(Suit::Spade, Rank::Nine);
    let h9 = card(Suit::Heart, Rank::Nine);
    let ca = card(Suit::Club, Rank::Ace);
    let led = Suit::Diamond;
    let trump = Suit::Spade;
    assert_eq!(compare_cards(&da, &d9, &led, &trump), Ordering::Greater);
    assert_eq!(compare_cards(&d9, &da, &led, &trump), Ordering::Less);
    assert_eq!(compare_cards(&da, &da, &led, &trump), Ordering::Equal);
    assert_eq!(compare_cards(&dx, &dk, &led, &trump), Ordering::Greater);
    assert_eq!(compare_cards(&s9, &da, &led, &trump), Ordering::Greater);
    assert_eq!(compare_cards(&da, &s9, &led, &trump), Ordering::Less);
    assert_eq!(compare_cards(&d9, &ca, &led, &trump), Ordering::Greater);
    assert_eq!(compare_cards(&ca, &d9, &led, &trump), Ordering::Less);
    assert_eq!(compare_cards(&ca, &h9, &led, &trump), Ordering::Equal);
    assert_eq!(compare_cards(&h9, &ca, &led, &trump), Ordering::Equal);
    assert!(takes_trick(&s9, &da, &led, &trump));
    assert!(!takes_trick(&da, &da, &led, &trump));
    assert!(!takes_trick(&ca, &h9, &led, &trump));
}

#[test]
fn remove_item_removes_the_first_match() {
    let mut items = vec![1, 2, 3, 2, 1];
    assert!(remove_item(&mut items, |x| *x == 2));
    assert_eq!(items, vec![1, 3, 2, 1]);
    assert!(!remove_item(&mut items, |x| *x == 7));
    assert_eq!(items, vec![1, 3, 2, 1]);
    let mut none: Vec<u8> = vec![];
    assert!(!remove_item(&mut none, |_| true));
}

#[test]
fn a_hand_gives_a_known_card_before_a_placeholder() {
    let d9 = card(Suit::Diamond, Rank::Nine);
    let da = card(Suit::Diamond, Rank::Ace);
    let mut hand = vec![None, Some(d9), Some(da), Some(d9), None];
    assert!(take_card(&mut hand, d9));
    assert_eq!(hand, vec![None, Some(da), Some(d9), None]);
    assert!(take_card(&mut hand, d9));
    assert_eq!(hand, vec![None, Some(da), None]);
    assert!(take_card(&mut hand, d9));
    assert_eq!(hand, vec![Some(da), None]);
    assert!(take_unknown(&mut hand));
    assert_eq!(hand, vec![Some(da)]);
    assert!(!take_unknown(&mut hand));
    assert!(!take_card(&mut hand, d9));
    assert_eq!(hand, vec![Some(da)]);
}

#[test]
fn known_hands_are_made_of_cards() {
    let d9 = card(Suit::Diamond, Rank::Nine);
    let hands = hands_to_option(PlayerMap::new(vec![d9, HX], vec![], vec![HX], vec![]));
    assert_eq!(
        hands,
        PlayerMap::new(vec![Some(d9), Some(HX)], vec![], vec![Some(HX)], vec![])
    );
}

#[test]
fn a_projected_round_hides_the_other_hands() {
    let d9 = card(Suit::Diamond, Rank::Nine);
    let game = Bidding::new(
        Player::C,
        PlayerMap::new(
            vec![Some(d9), Some(HX)],
            vec![Some(HX)],
            vec![Some(d9), None, Some(d9)],
            vec![],
        ),
    );
    let (game, _) = game.bid(250).left().unwrap();
    let seen = game.project(Player::C);
    assert_eq!(seen.hand(Player::A), &[None, None]);
    assert_eq!(seen.hand(Player::B), &[None]);
    assert_eq!(seen.hand(Player::C), &[Some(d9), None, Some(d9)]);
    assert_eq!(seen.hand(Player::D), &[]);
    assert_eq!(seen.bids(), &[Some(250)]);
    assert_eq!(seen.turn(), Player::D);
    assert_eq!(seen.initial_bidder(), Player::C);
    assert_eq!(seen.project(Player::C), seen);
    assert_eq!(game.clone(), game);
}
