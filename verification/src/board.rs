//! A board: four hands of known cards, played trick by trick.
//!
//! The seats of a board are numbered from 0, and the seats with an even number play
//! against the seats with an odd number. A board knows no bidding and no passing.

use crate::command::{ResponseError, ResponseErrorView};
use crate::game::cards::{Card, Suit};
use crate::game::hands::{holds_suit, known};
use crate::game::seats::{NUMBER_OF_PLAYERS, NUMBER_OF_TEAMS};
use crate::game::states::play_refusal;
use crate::game::tricks::{takes_trick, trick_winner};
use crate::game::vecs::append;
use vstd::prelude::*;

verus! {

pub struct Board {
    pub hands: [Vec<Card>; NUMBER_OF_PLAYERS],
    pub play_area: Vec<Card>,
    pub taken: [Vec<Card>; NUMBER_OF_TEAMS],
    pub turn: usize,
    pub trump: Suit,
}

/// The model of a board.
pub struct BoardView {
    /// The hand of each of the four seats.
    pub hands: Seq<Seq<Card>>,
    /// The cards of the trick that is being played, in the order they were played.
    pub play_area: Seq<Card>,
    /// The cards of the tricks that each of the two teams has taken.
    pub taken: Seq<Seq<Card>>,
    /// The seat that plays next.
    pub turn: usize,
    pub trump: Suit,
}

impl View for Board {
    type V = BoardView;

    open spec fn view(&self) -> BoardView {
        BoardView {
            hands: Seq::new(NUMBER_OF_PLAYERS as nat, |i: int| self.hands[i]@),
            play_area: self.play_area@,
            taken: Seq::new(NUMBER_OF_TEAMS as nat, |i: int| self.taken[i]@),
            turn: self.turn,
            trump: self.trump,
        }
    }
}

/// The seat that plays after `player`.
pub fn next_turn(player: usize) -> (next: usize)
    requires
        player < usize::MAX,
    ensures
        next == (player + 1) % (NUMBER_OF_PLAYERS as int),
{
    (player + 1) % NUMBER_OF_PLAYERS
}

fn has_suit(hand: &[Card], suit: Suit) -> (found: bool)
    ensures
        found == holds_suit(known(hand@), suit),
{
    let mut i: usize = 0;
    while i < hand.len()
        invariant
            i <= hand@.len(),
            forall|j: int| 0 <= j < i ==> hand@[j].suit != suit,
        decreases hand@.len() - i,
    {
        if hand[i].suit == suit {
            assert(known(hand@)[i as int] == Some(hand@[i as int]));
            return true;
        }
        i += 1;
    }
    proof {
        assert forall|j: int| 0 <= j < known(hand@).len() implies !(known(hand@)[j] is Some && (
        #[trigger] known(hand@)[j])->0.suit == suit) by {
            assert(known(hand@)[j] == Some(hand@[j]));
        }
    }
    false
}

/// Whether the holder of `hand` may play `card` on the cards in `play_area`: the seat that
/// leads may play any card, a seat that holds the suit that was led follows it, and a seat
/// that does not, but holds trump, plays trump.
pub fn is_legal(play_area: &[Card], hand: &[Card], card: &Card, trump: Suit) -> (legal: Result<
    (),
    &'static str,
>)
    ensures
        match play_refusal(play_area@, known(hand@), *card, trump) {
            None => legal is Ok,
            Some(why) => legal matches Err(said) && said@ == why,
        },
{
    if play_area.len() == 0 {
        Result::Ok(())
    } else {
        let intial_suit = play_area[0].suit;

        if has_suit(hand, intial_suit) {
            if intial_suit == card.suit {
                Result::Ok(())
            } else {
                Result::Err("Must follow suit")
            }
        } else {
            if has_suit(hand, trump) {
                if trump == card.suit {
                    Result::Ok(())
                } else {
                    Result::Err("Must trump")
                }
            } else {
                Result::Ok(())
            }
        }
    }
}

/// A board after its seat to play has played `card`, with the reason where the card is
/// refused: because it may not be played, or because the seat does not hold it. A refused
/// card leaves the board as it is. A card that is played leaves the hand, at the first
/// place it stands there, for the trick, and the turn passes to the next seat. The fourth
/// card ends the trick: its cards go to the team of the seat that takes it, and that seat
/// leads the next trick. Of two equal cards the one played first takes the trick.
pub open spec fn after_play(board: BoardView, card: Card) -> (BoardView, Option<Seq<char>>) {
    let hand = board.hands[board.turn as int];
    match play_refusal(board.play_area, known(hand), card, board.trump) {
        Some(why) => (board, Some(why)),
        None => match hand.index_of_first(card) {
            None => (board, Some("Card not in hand"@)),
            Some(at) => {
                let hands = board.hands.update(board.turn as int, hand.remove(at));
                let play_area = board.play_area.push(card);
                let turn = ((board.turn + 1) % (NUMBER_OF_PLAYERS as int)) as usize;
                if play_area.len() == 4 {
                    let winner = (trick_winner(play_area, board.trump) + turn) % (
                    NUMBER_OF_PLAYERS as int);
                    let team = winner % (NUMBER_OF_TEAMS as int);
                    (
                        BoardView {
                            hands,
                            play_area: Seq::empty(),
                            taken: board.taken.update(team, board.taken[team] + play_area),
                            turn: winner as usize,
                            trump: board.trump,
                        },
                        None,
                    )
                } else {
                    (BoardView { hands, play_area, turn, ..board }, None)
                }
            },
        },
    }
}

/// Where `card` first stands in `hand`.
fn position(hand: &Vec<Card>, card: Card) -> (at: Option<usize>)
    ensures
        match at {
            Some(i) => hand@.index_of_first(card) == Some(i as int) && i < hand@.len(),
            None => hand@.index_of_first(card) is None,
        },
{
    let mut i: usize = 0;
    while i < hand.len()
        invariant
            i <= hand@.len(),
            forall|j: int| 0 <= j < i ==> hand@[j] != card,
        decreases hand@.len() - i,
    {
        if hand[i] == card {
            proof {
                hand@.index_of_first_ensures(card);
            }
            return Some(i);
        }
        i += 1;
    }
    proof {
        hand@.index_of_first_ensures(card);
    }
    None
}

/// Where the card that takes the trick stands in `cards`.
fn trick_taker(cards: &Vec<Card>, trump: Suit) -> (winner: usize)
    requires
        cards@.len() > 0,
    ensures
        winner == trick_winner(cards@, trump),
        winner < cards@.len(),
{
    let led_suit = cards[0].suit;
    let mut best: usize = 0;
    let mut i: usize = 1;
    while i < cards.len()
        invariant
            1 <= i <= cards@.len(),
            led_suit == cards@[0].suit,
            best == trick_winner(cards@.take(i as int), trump),
            0 <= best < i,
        decreases cards@.len() - i,
    {
        proof {
            assert(cards@.take(i + 1).drop_last() =~= cards@.take(i as int));
        }
        // a card takes the trick only from a card that it beats
        if takes_trick(&cards[i], &cards[best], &led_suit, &trump) {
            best = i;
        }
        i += 1;
    }
    proof {
        assert(cards@.take(cards@.len() as int) =~= cards@);
    }
    best
}

impl Board {
    /// The seat to play plays `card`.
    pub fn play(&mut self, card: Card) -> (played: Result<(), &'static str>)
        requires
            old(self).turn < NUMBER_OF_PLAYERS,
        ensures
            final(self)@ == after_play(old(self)@, card).0,
            match after_play(old(self)@, card).1 {
                None => played is Ok,
                Some(why) => played matches Err(said) && said@ == why,
            },
    {
        let ghost before = self@;
        let turn = self.turn;
        match is_legal(self.play_area.as_slice(), self.hands[turn].as_slice(), &card, self.trump) {
            Ok(_) => (),
            Err(why) => {
                return Err(why);
            },
        }

        if let Some(position) = position(&self.hands[turn], card) {
            self.hands[turn].remove(position);
        } else {
            return Err("Card not in hand");
        }
        self.play_area.push(card);
        self.turn = next_turn(turn);
        proof {
            assert(self@.hands =~= before.hands.update(
                turn as int,
                before.hands[turn as int].remove(before.hands[turn as int].index_of_first(card)->0),
            ));
        }

        if self.play_area.len() == 4 {
            let first_player = self.turn;

            let winner_rel_idx = trick_taker(&self.play_area, self.trump);

            let winner = (winner_rel_idx + first_player) % NUMBER_OF_PLAYERS;
            let winning_team = winner % NUMBER_OF_TEAMS;

            let ghost trick = self.play_area@;
            let ghost piles = self@.taken;
            append(&mut self.taken[winning_team], &self.play_area);
            self.play_area.clear();
            self.turn = winner;
            proof {
                assert(self@.taken =~= piles.update(
                    winning_team as int,
                    piles[winning_team as int] + trick,
                ));
                assert(self@.hands =~= after_play(before, card).0.hands);
            }
        } else {
            proof {
                assert(self@.taken =~= before.taken);
            }
        }

        Ok(())
    }

    /// The seat `index` plays `card`, if it is its turn.
    pub fn play_card(&mut self, index: usize, card: &Card) -> (played: Result<(), ResponseError>)
        requires
            index < NUMBER_OF_PLAYERS,
        ensures
            old(self).turn != index ==> final(self)@ == old(self)@ && (played matches Err(why)
                && why@ == ResponseErrorView::NotYourTurn),
            old(self).turn == index ==> final(self)@ == after_play(old(self)@, *card).0
                && match after_play(old(self)@, *card).1 {
                None => played is Ok,
                Some(reason) => played matches Err(why) && why@ == ResponseErrorView::GameError(
                    reason,
                ),
            },
    {
        if self.turn != index {
            return Err(ResponseError::NotYourTurn);
        }

        match self.play(*card) {
            Ok(_) => Ok(()),
            Err(e) => Err(ResponseError::GameError(e.to_string())),
        }
    }
}

} // verus!
