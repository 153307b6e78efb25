use either::Either;
use pinochle::command::{PlayingInput, PlayingResponse, TableCommand, TableState};
use pinochle::game::cards::{Card, Rank, Suit};
use pinochle::game::deck::{deal, fresh_deck};
use pinochle::game::seats::{Player, PlayerMap};
use pinochle::game::states::Project;
use pinochle::game::{Game, Input};
use pinochle::room::Completion;
use pinochle::table::{Frame, Inbound, Outbound, Signal, Table};

const HX: Card = Card {
    suit: Suit::Heart,
    rank: Rank::Ten,
};

const D9: Card = Card {
    suit: Suit::Diamond,
    rank: Rank::Nine,
};

fn hands() -> PlayerMap<Vec<Card>> {
    PlayerMap::new(
        vec![HX, HX, HX, HX],
        vec![D9, HX, HX, HX],
        vec![HX, D9, HX, D9],
        vec![HX, HX, D9, HX],
    )
}

fn snapshot(signal: &Signal) -> &TableState {
    match signal {
        Signal::Transmit(Outbound::Table(state)) => state,
        other => panic!("not a snapshot: {:?}", other),
    }
}

fn response(signal: &Signal) -> &PlayingResponse {
    match signal {
        Signal::Transmit(Outbound::Playing(response)) => response,
        other => panic!("not a response: {:?}", other),
    }
}

fn shown(ready: [bool; 4], player: Option<Player>) -> TableState {
    TableState {
        ready: PlayerMap::new(ready[0], ready[1], ready[2], ready[3]),
        player,
    }
}

fn lobby_of_four() -> Table {
    let mut table = Table::with_hands(hands());
    for key in [11, 12, 13, 14] {
        table.enter(key);
        table.take(&key);
    }
    table
}

fn drain(table: &mut Table) {
    for key in table.members() {
        table.take(&key);
    }
}

fn table_in_play() -> Table {
    let mut table = lobby_of_four();
    for key in [11, 12, 13, 14] {
        assert_eq!(
            table.text(&key, Frame::Table(TableCommand::SetReady(true))),
            Completion::Continue
        );
    }
    assert!(table.is_playing());
    drain(&mut table);
    table
}

fn play(input: Input) -> Frame {
    Frame::Playing(PlayingInput::Play(input))
}

#[test]
fn a_new_table_is_an_empty_lobby() {
    let table = Table::new();
    assert!(!table.is_playing());
    assert_eq!(table.members(), vec![]);
    assert_eq!(table.seat(&1), None);
    assert_eq!(table.snapshot(&1), Some(shown([false; 4], None)));
    assert_eq!(table.game().bidding().unwrap().turn(), Player::A);
    for seat in [Player::A, Player::B, Player::C, Player::D] {
        assert_eq!(table.game().hand(seat).unwrap().len(), 12);
    }
    let given = Table::with_hands(hands());
    assert_eq!(*given.game(), Game::new(Player::A, hands()));
}

#[test]
fn a_newcomer_gets_the_first_free_seat() {
    let mut table = Table::with_hands(hands());
    table.enter(21);
    assert_eq!(table.seat(&21), Some(Player::A));
    let mail = table.take(&21);
    assert_eq!(mail.len(), 1);
    assert_eq!(*snapshot(&mail[0]), shown([false; 4], Some(Player::A)));
    table.enter(22);
    table.enter(23);
    table.enter(24);
    assert_eq!(table.seat(&24), Some(Player::D));
    assert_eq!(table.take(&21).len(), 0);
    let mail = table.take(&24);
    assert_eq!(*snapshot(&mail[0]), shown([false; 4], Some(Player::D)));
    table.enter(25);
    assert_eq!(table.seat(&25), None);
    let mail = table.take(&25);
    assert_eq!(mail.len(), 1);
    assert_eq!(*snapshot(&mail[0]), shown([false; 4], None));
    let mut members = table.members();
    members.sort();
    assert_eq!(members, vec![21, 22, 23, 24, 25]);
}

#[test]
fn readiness_is_shown_to_everyone() {
    let mut table = lobby_of_four();
    table.enter(15);
    table.take(&15);
    table.text(&12, Frame::Table(TableCommand::SetReady(true)));
    for (key, seat) in [
        (11, Some(Player::A)),
        (12, Some(Player::B)),
        (13, Some(Player::C)),
        (14, Some(Player::D)),
        (15, None),
    ] {
        let mail = table.take(&key);
        assert_eq!(mail.len(), 1);
        assert_eq!(
            *snapshot(&mail[0]),
            shown([false, true, false, false], seat)
        );
    }
    // a connection without a seat is never ready
    table.text(&15, Frame::Table(TableCommand::SetReady(true)));
    let mail = table.take(&15);
    assert_eq!(*snapshot(&mail[0]), shown([false, true, false, false], None));
    table.text(&12, Frame::Table(TableCommand::SetReady(false)));
    assert_eq!(table.snapshot(&12), Some(shown([false; 4], Some(Player::B))));
    // what is no command for a lobby changes nothing, and the lobby is shown again
    table.take(&11);
    assert_eq!(
        table.text(&11, Frame::Playing(PlayingInput::Resign)),
        Completion::Continue
    );
    assert_eq!(table.text(&11, Frame::Unknown), Completion::Continue);
    let mail = table.take(&11);
    assert_eq!(mail.len(), 2);
    assert_eq!(*snapshot(&mail[1]), shown([false; 4], Some(Player::A)));
    assert!(!table.is_playing());
}

#[test]
fn taking_a_seat_makes_ready_and_evicts() {
    let mut table = Table::with_hands(hands());
    table.enter(31);
    table.enter(32);
    assert_eq!(
        table.text(&31, Frame::Table(TableCommand::SetPlayer(Player::C))),
        Completion::Continue
    );
    assert_eq!(table.seat(&31), Some(Player::C));
    assert_eq!(
        table.snapshot(&31),
        Some(shown([false, false, true, false], Some(Player::C)))
    );
    assert_eq!(
        table.snapshot(&32),
        Some(shown([false, false, true, false], Some(Player::B)))
    );
    table.text(&32, Frame::Table(TableCommand::SetReady(true)));
    // 31 takes the seat of 32, who is then without a seat and not ready
    table.text(&31, Frame::Table(TableCommand::SetPlayer(Player::B)));
    assert_eq!(table.seat(&31), Some(Player::B));
    assert_eq!(table.seat(&32), None);
    assert_eq!(
        table.snapshot(&32),
        Some(shown([false, true, false, false], None))
    );
    table.text(&32, Frame::Table(TableCommand::SetPlayer(Player::D)));
    assert_eq!(
        table.snapshot(&32),
        Some(shown([false, true, false, true], Some(Player::D)))
    );
    table.enter(33);
    assert_eq!(table.seat(&33), Some(Player::A));
}

#[test]
fn taking_the_same_seat_twice_is_taking_it_once() {
    let mut table = lobby_of_four();
    table.text(&14, Frame::Table(TableCommand::SetReady(true)));
    table.text(&12, Frame::Table(TableCommand::SetPlayer(Player::D)));
    let once = (
        table.seat(&11),
        table.seat(&12),
        table.seat(&13),
        table.seat(&14),
        table.snapshot(&12),
        table.snapshot(&14),
    );
    assert_eq!(once.1, Some(Player::D));
    assert_eq!(once.3, None);
    assert_eq!(
        once.4,
        Some(shown([false, false, false, true], Some(Player::D)))
    );
    table.text(&12, Frame::Table(TableCommand::SetPlayer(Player::D)));
    let twice = (
        table.seat(&11),
        table.seat(&12),
        table.seat(&13),
        table.seat(&14),
        table.snapshot(&12),
        table.snapshot(&14),
    );
    assert_eq!(once, twice);
}

#[test]
fn the_game_starts_when_four_seats_are_ready() {
    let mut table = lobby_of_four();
    for key in [11, 12, 13] {
        table.text(&key, Frame::Table(TableCommand::SetReady(true)));
    }
    table.enter(15);
    assert!(!table.is_playing());
    drain(&mut table);
    table.text(&14, Frame::Table(TableCommand::SetPlayer(Player::D)));
    assert!(table.is_playing());
    assert_eq!(table.snapshot(&11), None);
    let game = Game::new(Player::A, hands());
    for (key, seat) in [
        (11, Player::A),
        (12, Player::B),
        (13, Player::C),
        (14, Player::D),
    ] {
        assert_eq!(table.seat(&key), Some(seat));
        let mail = table.take(&key);
        assert_eq!(mail.len(), 2);
        assert_eq!(*snapshot(&mail[0]), shown([true; 4], Some(seat)));
        match response(&mail[1]) {
            PlayingResponse::State(seen) => {
                assert_eq!(*seen, game.project(seat));
                assert_eq!(seen.hand(seat), game.hand(seat));
            }
            other => panic!("not a state: {:?}", other),
        }
    }
    let mail = table.take(&15);
    assert_eq!(mail.len(), 1);
    assert_eq!(*snapshot(&mail[0]), shown([true; 4], None));
    assert_eq!(*table.game(), game);
}

#[test]
fn a_move_is_told_to_every_seat() {
    let mut table = table_in_play();
    table.enter(15);
    assert_eq!(table.take(&15).len(), 0);
    assert_eq!(table.text(&11, play(Input::Bid(250))), Completion::Continue);
    for key in [11, 12, 13, 14] {
        let mail = table.take(&key);
        assert_eq!(mail.len(), 1);
        assert!(matches!(
            response(&mail[0]),
            PlayingResponse::Played(Player::A, Input::Bid(250))
        ));
    }
    assert_eq!(table.take(&15).len(), 0);
    assert_eq!(table.game().bidding().unwrap().bids(), &[Some(250)]);
}

#[test]
fn a_refused_move_is_told_to_the_sender_only() {
    let mut table = table_in_play();
    table.enter(15);
    for (key, frame, why) in [
        (11, play(Input::Bid(210)), "Must bid be at least 250"),
        (12, play(Input::Bid(250)), "Not your turn"),
        (11, play(Input::Next), ""),
        (15, play(Input::Bid(250)), "Not playing"),
        (15, Frame::Unknown, "Not playing"),
        (11, Frame::Unknown, "Invalid message"),
        (
            11,
            Frame::Table(TableCommand::SetReady(true)),
            "Invalid message",
        ),
    ] {
        assert_eq!(table.text(&key, frame), Completion::Continue);
        for other in [11, 12, 13, 14, 15] {
            let mail = table.take(&other);
            if other == key {
                assert_eq!(mail.len(), 1);
                match response(&mail[0]) {
                    PlayingResponse::Error(said) => assert_eq!(said, why),
                    other => panic!("not an error: {:?}", other),
                }
            } else {
                assert_eq!(mail.len(), 0);
            }
        }
    }
    assert_eq!(*table.game(), Game::new(Player::A, hands()));
    assert!(table.is_playing());
}

#[test]
fn passed_cards_are_hidden_from_the_other_team() {
    let mut table = table_in_play();
    table.text(&11, play(Input::Bid(250)));
    table.text(&12, play(Input::Pass));
    table.text(&13, play(Input::Bid(275)));
    table.text(&14, play(Input::Pass));
    table.text(&13, play(Input::SelectSuit(Suit::Heart)));
    drain(&mut table);
    let cards = [HX, HX, HX, HX];
    table.text(&11, play(Input::PassCards(Some(cards))));
    for key in [11, 13] {
        let mail = table.take(&key);
        assert_eq!(mail.len(), 1);
        assert!(matches!(
            response(&mail[0]),
            PlayingResponse::Played(Player::A, Input::PassCards(Some(passed))) if *passed == cards
        ));
    }
    for key in [12, 14] {
        let mail = table.take(&key);
        assert_eq!(mail.len(), 1);
        assert!(matches!(
            response(&mail[0]),
            PlayingResponse::Played(Player::A, Input::PassCards(None))
        ));
    }
    assert_eq!(
        table.game().hand(Player::C).unwrap(),
        &[
            Some(HX),
            Some(D9),
            Some(HX),
            Some(D9),
            Some(HX),
            Some(HX),
            Some(HX),
            Some(HX)
        ]
    );
}

#[test]
fn resign_cascades_to_lobby() {
    let mut table = table_in_play();
    table.enter(15);
    assert_eq!(
        table.text_with(
            &11,
            Frame::Playing(PlayingInput::Resign),
            deal(fresh_deck())
        ),
        Completion::Finished
    );
    for key in [11, 12, 13, 14, 15] {
        let mail = table.take(&key);
        assert_eq!(mail.len(), 1);
        assert!(matches!(
            response(&mail[0]),
            PlayingResponse::Resigned(Player::A)
        ));
    }
    assert!(!table.is_playing());
    assert_eq!(*table.game(), Game::new(Player::A, deal(fresh_deck())));
    for key in [11, 12, 13, 14, 15] {
        assert_eq!(table.seat(&key), None);
        assert_eq!(table.snapshot(&key), Some(shown([false; 4], None)));
    }
    table.leave(11);
    for key in [12, 13, 14, 15] {
        let mail = table.take(&key);
        assert_eq!(mail.len(), 1);
        assert_eq!(*snapshot(&mail[0]), shown([false; 4], None));
    }
    assert_eq!(table.take(&11).len(), 0);
}

#[test]
fn a_resignation_deals_a_new_game() {
    let mut table = table_in_play();
    assert_eq!(
        table.text(&13, Frame::Playing(PlayingInput::Resign)),
        Completion::Finished
    );
    assert!(!table.is_playing());
    let game = table.game();
    assert_eq!(game.bidding().unwrap().turn(), Player::A);
    for seat in [Player::A, Player::B, Player::C, Player::D] {
        assert_eq!(game.hand(seat).unwrap().len(), 12);
    }
}

#[test]
fn a_new_round_is_shown_to_every_seat() {
    let mut table = Table::with_hands(PlayerMap::new(
        vec![HX; 4],
        vec![HX; 4],
        vec![HX; 4],
        vec![HX; 4],
    ));
    for key in [11, 12, 13, 14] {
        table.enter(key);
        table.text(&key, Frame::Table(TableCommand::SetReady(true)));
    }
    assert!(table.is_playing());
    table.text(&11, play(Input::Bid(250)));
    table.text(&12, play(Input::Pass));
    table.text(&13, play(Input::Pass));
    table.text(&14, play(Input::Pass));
    table.text(&11, play(Input::SelectSuit(Suit::Heart)));
    table.text(&13, play(Input::PassCards(Some([HX; 4]))));
    table.text(&11, play(Input::PassCards(Some([HX; 4]))));
    for _ in 0..4 {
        for key in [11, 12, 13, 14] {
            table.text(&key, play(Input::Play(HX)));
        }
    }
    assert!(table.game().finished_round().is_some());
    drain(&mut table);
    assert_eq!(
        table.text_with(&14, play(Input::Next), hands()),
        Completion::Continue
    );
    let mut expected = Game::new(Player::A, hands());
    for (key, seat) in [
        (11, Player::A),
        (12, Player::B),
        (13, Player::C),
        (14, Player::D),
    ] {
        let mail = table.take(&key);
        assert_eq!(mail.len(), 1);
        match response(&mail[0]) {
            PlayingResponse::State(seen) => {
                assert_eq!(seen.hand(seat), expected.hand(seat));
                let bidding = seen.bidding().unwrap();
                assert_eq!(bidding.turn(), Player::B);
                assert_eq!(bidding.score(Player::A.team()), 1);
            }
            other => panic!("not a state: {:?}", other),
        }
    }
    assert_eq!(
        expected.play(Player::B, Input::Bid(250)),
        Err("Not your turn".to_string())
    );
}

#[test]
fn leaving_a_lobby_frees_the_seat() {
    let mut table = lobby_of_four();
    table.text(&12, Frame::Table(TableCommand::SetReady(true)));
    table.text(&13, Frame::Table(TableCommand::SetReady(true)));
    drain(&mut table);
    table.leave(12);
    assert_eq!(table.seat(&12), None);
    let mut members = table.members();
    members.sort();
    assert_eq!(members, vec![11, 13, 14]);
    for (key, seat) in [(11, Player::A), (13, Player::C), (14, Player::D)] {
        let mail = table.take(&key);
        assert_eq!(mail.len(), 1);
        assert_eq!(
            *snapshot(&mail[0]),
            shown([false, false, true, false], Some(seat))
        );
    }
    table.enter(16);
    assert_eq!(table.seat(&16), Some(Player::B));
    assert_eq!(
        table.snapshot(&16),
        Some(shown([false, false, true, false], Some(Player::B)))
    );
}

#[test]
fn leaving_a_game_puts_the_table_back_in_its_lobby() {
    let mut table = table_in_play();
    table.text(&11, play(Input::Bid(250)));
    drain(&mut table);
    let game = table.game().clone();
    table.leave(13);
    assert!(!table.is_playing());
    assert_eq!(*table.game(), game);
    for (key, seat) in [(11, Player::A), (12, Player::B), (14, Player::D)] {
        let mail = table.take(&key);
        assert_eq!(mail.len(), 3);
        assert!(matches!(mail[0], Signal::Leaving(13)));
        assert!(matches!(
            response(&mail[1]),
            PlayingResponse::BackToReady
        ));
        assert_eq!(
            *snapshot(&mail[2]),
            shown([true, true, false, true], Some(seat))
        );
        assert_eq!(table.seat(&key), Some(seat));
    }
    assert_eq!(table.seat(&13), None);
    assert_eq!(table.take(&13).len(), 0);
    // the newcomer takes the free seat, and the game goes on once it is ready
    table.enter(17);
    assert_eq!(table.seat(&17), Some(Player::C));
    table.text(&17, Frame::Table(TableCommand::SetReady(true)));
    assert!(table.is_playing());
    assert_eq!(*table.game(), game);
}

#[test]
fn events_are_handled_one_by_one() {
    let mut table = table_in_play();
    let mut out: Vec<Outbound> = Vec::new();
    let mut err: Result<(), &str> = Ok(());
    assert_eq!(
        table.main_loop(
            &11,
            &mut out,
            Either::Left(Inbound::Text(play(Input::Bid(250)))),
            &mut err
        ),
        Completion::Continue
    );
    assert!(out.is_empty());
    let mail = table.take(&11);
    assert_eq!(mail.len(), 1);
    for signal in mail {
        assert_eq!(
            table.main_loop(&11, &mut out, Either::Right(signal), &mut err),
            Completion::Continue
        );
    }
    assert_eq!(out.len(), 1);
    assert!(matches!(
        out[0],
        Outbound::Playing(PlayingResponse::Played(Player::A, Input::Bid(250)))
    ));
    assert_eq!(
        table.main_loop(&11, &mut out, Either::Right(Signal::Leaving(12)), &mut err),
        Completion::Continue
    );
    assert_eq!(
        table.main_loop(&11, &mut out, Either::Left(Inbound::Other), &mut err),
        Completion::Continue
    );
    assert_eq!(out.len(), 1);
    assert_eq!(err, Ok(()));
    assert_eq!(
        table.main_loop(
            &11,
            &mut out,
            Either::Left(Inbound::Text(Frame::Playing(PlayingInput::Resign))),
            &mut err
        ),
        Completion::Finished
    );
    assert!(!table.is_playing());
    assert_eq!(
        table.main_loop(&13, &mut out, Either::Left(Inbound::Closed), &mut err),
        Completion::Finished
    );
    assert_eq!(err, Ok(()));
    assert_eq!(
        table.main_loop(
            &12,
            &mut out,
            Either::Left(Inbound::Failed("closed")),
            &mut err
        ),
        Completion::Finished
    );
    assert_eq!(err, Err("closed"));
    assert_eq!(out.len(), 1);
}

#[test]
fn a_connection_that_comes_twice_keeps_its_seat() {
    let mut table = Table::with_hands(hands());
    table.enter(41);
    table.enter(42);
    table.text(&42, Frame::Table(TableCommand::SetReady(true)));
    table.take(&42);
    table.enter(42);
    assert_eq!(table.seat(&42), Some(Player::B));
    assert_eq!(table.seat(&41), Some(Player::A));
    let mail = table.take(&42);
    assert_eq!(mail.len(), 1);
    assert_eq!(
        *snapshot(&mail[0]),
        shown([false, true, false, false], Some(Player::B))
    );
    table.enter(43);
    assert_eq!(table.seat(&43), Some(Player::C));
    let mut members = table.members();
    members.sort();
    assert_eq!(members, vec![41, 42, 43]);
}
