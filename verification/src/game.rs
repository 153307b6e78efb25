//! The game: its cards, its seats, and the phases a round moves through.

use self::cards::{Card, Suit};
use self::deck::is_deal;
use self::seats::{Player, PlayerMap};
use self::states::{
    bid_outcome, chosen, hands_to_option, is_over, next_round, passing_outcome, play_outcome,
    returning_outcome, select_outcome, Passing, Project, Round, Tally, Trick,
};
use either::Either;
use vstd::prelude::*;
use vstd::std_specs::convert::FromSpecImpl;
use vstd::std_specs::convert::IntoSpec;

pub mod cards;
pub mod deck;
pub mod hands;
pub mod laws;
pub mod seats;
pub mod states;
pub mod tricks;
pub mod vecs;

verus! {

/// A game in one of its phases.
#[derive(Debug, PartialEq)]
pub enum Game {
    Bidding(states::Bidding),
    SelectingTrump(states::SelectingTrump),
    PassingCards(states::PassingCards),
    ReturningCards(states::ReturningCards),
    Playing(states::Playing),
    FinishedRound(states::FinishedRound),
    Finished,
}

/// The model of a game.
pub enum GameView {
    /// The seats bid in turn. The state is the seat to bid.
    Bidding(Round<Player>),
    /// The state is the seat that won the bidding and names trump.
    SelectingTrump(Round<Player>),
    /// The teammate of the bidder passes four cards to the bidder.
    PassingCards(Round<Passing>),
    /// The bidder passes four cards back.
    ReturningCards(Round<Passing>),
    /// Tricks are played.
    Playing(Round<Trick>),
    /// All tricks are played and the round is scored.
    FinishedRound(Round<Tally>),
    /// The game is over.
    Finished,
}

impl View for Game {
    type V = GameView;

    open spec fn view(&self) -> GameView {
        match self {
            Game::Bidding(b) => GameView::Bidding(b@),
            Game::SelectingTrump(b) => GameView::SelectingTrump(b@),
            Game::PassingCards(b) => GameView::PassingCards(b@),
            Game::ReturningCards(b) => GameView::ReturningCards(b@),
            Game::Playing(b) => GameView::Playing(b@),
            Game::FinishedRound(b) => GameView::FinishedRound(b@),
            Game::Finished => GameView::Finished,
        }
    }
}

impl GameView {
    /// The seat whose turn it is, in the phases in which the seats act in turn.
    pub open spec fn turn_holder(self) -> Option<Player> {
        match self {
            GameView::Bidding(r) => Some(r.state),
            GameView::SelectingTrump(r) => Some(r.state),
            GameView::PassingCards(r) => Some(r.state.turn),
            GameView::ReturningCards(r) => Some(r.state.turn),
            GameView::Playing(r) => Some(r.state.turn),
            GameView::FinishedRound(_) => None,
            GameView::Finished => None,
        }
    }

    /// Whether `player` may make a move: the seat whose turn it is, and after a round is
    /// finished any seat.
    pub open spec fn may_act(self, player: Player) -> bool {
        match self {
            GameView::FinishedRound(_) => true,
            _ => self.turn_holder() == Some(player),
        }
    }

    /// The hands, in the phases that have them.
    pub open spec fn hands(self) -> Option<PlayerMap<Seq<Option<Card>>>> {
        match self {
            GameView::Bidding(r) => Some(r.hands),
            GameView::SelectingTrump(r) => Some(r.hands),
            GameView::PassingCards(r) => Some(r.hands),
            GameView::ReturningCards(r) => Some(r.hands),
            GameView::Playing(r) => Some(r.hands),
            GameView::FinishedRound(r) => Some(r.hands),
            GameView::Finished => None,
        }
    }
}

/// A move of a seat.
#[derive(Debug, Clone, Copy)]
pub enum Input {
    Bid(usize),
    Pass,
    SelectSuit(Suit),
    /// Four cards passed to the seat across. `None` says that four cards were passed and
    /// not which.
    PassCards(Option<[Card; 4]>),
    Play(Card),
    /// On from a finished round.
    Next,
}

impl Input {
    /// The move as the opposing team may see it: of a pass of cards only that it was made.
    pub open spec fn masked(self) -> Input {
        match self {
            Input::PassCards(_) => Input::PassCards(None),
            _ => self,
        }
    }

    pub fn mask(&self) -> (hidden: Input)
        ensures
            hidden == self.masked(),
    {
        match self {
            Input::Bid(a) => Input::Bid(*a),
            Input::Pass => Input::Pass,
            Input::SelectSuit(suit) => Input::SelectSuit(*suit),
            Input::PassCards(_) => Input::PassCards(None),
            Input::Play(card) => Input::Play(*card),
            Input::Next => Input::Next,
        }
    }
}

/// What a move makes of a game.
pub enum Step {
    /// The move is refused for the reason given, and the game stays as it is.
    Refused(Seq<char>),
    /// The move is made, and this is the game after it.
    Moved(GameView),
    /// The move is made: the finished round is followed by a new one, for which the double
    /// deck is dealt afresh.
    Redealt(Round<Tally>),
}

/// A step in the bidding as a step of the game.
pub open spec fn bidding_step(
    outcome: Either<(Round<Player>, Option<Seq<char>>), Round<Player>>,
) -> Step {
    match outcome {
        Either::Left((round, None)) => Step::Moved(GameView::Bidding(round)),
        Either::Left((_, Some(why))) => Step::Refused(why),
        Either::Right(round) => Step::Moved(GameView::SelectingTrump(round)),
    }
}

/// A card played as a step of the game.
pub open spec fn playing_step(
    outcome: Either<(Round<Trick>, Option<Seq<char>>), Round<Tally>>,
) -> Step {
    match outcome {
        Either::Left((round, None)) => Step::Moved(GameView::Playing(round)),
        Either::Left((_, Some(why))) => Step::Refused(why),
        Either::Right(round) => Step::Moved(GameView::FinishedRound(round)),
    }
}

/// What the move `input` of `player` makes of `game`. A seat that may not act is told so.
/// A move that does not belong to the phase of the game is refused without a reason.
pub open spec fn step(game: GameView, player: Player, input: Input) -> Step {
    if !game.may_act(player) {
        Step::Refused("Not your turn"@)
    } else {
        match (game, input) {
            (GameView::Bidding(round), Input::Bid(amount)) => bidding_step(
                bid_outcome(round, Some(amount)),
            ),
            (GameView::Bidding(round), Input::Pass) => bidding_step(bid_outcome(round, None)),
            (GameView::SelectingTrump(round), Input::SelectSuit(suit)) => Step::Moved(
                GameView::PassingCards(select_outcome(round, suit)),
            ),
            (GameView::PassingCards(round), Input::PassCards(cards)) => match passing_outcome(
                round,
                chosen(cards),
            ) {
                Some(next) => Step::Moved(GameView::ReturningCards(next)),
                None => Step::Refused("Card not in hand to pass"@),
            },
            (GameView::ReturningCards(round), Input::PassCards(cards)) => match returning_outcome(
                round,
                chosen(cards),
            ) {
                Some(next) => Step::Moved(GameView::Playing(next)),
                None => Step::Refused("Card not in hand to pass"@),
            },
            (GameView::Playing(round), Input::Play(card)) => playing_step(
                play_outcome(round, card),
            ),
            (GameView::FinishedRound(round), Input::Next) => if is_over(round.scores) {
                Step::Moved(GameView::Finished)
            } else {
                Step::Redealt(round)
            },
            _ => Step::Refused(Seq::empty()),
        }
    }
}

/// Whether a game that was `before` and is `after`, with `result` returned, has made the step.
/// `dealt` are the hands that a new round was to be played with, where they were given.
pub open spec fn made_step(
    before: GameView,
    made: Step,
    dealt: Option<PlayerMap<Seq<Card>>>,
    after: GameView,
    result: Result<(), String>,
) -> bool {
    match made {
        Step::Refused(why) => result matches Err(said) && said@ == why && after == before,
        Step::Moved(next) => result is Ok && after == next,
        Step::Redealt(finished) => result is Ok && match dealt {
            Some(hands) => after == GameView::Bidding(next_round(finished, hands)),
            None => exists|hands: PlayerMap<Seq<Card>>|
                is_deal(hands) && after == GameView::Bidding(#[trigger] next_round(finished, hands)),
        },
    }
}

impl Game {
    pub fn new(first_player: Player, hands: PlayerMap<Vec<Card>>) -> (game: Game)
        ensures
            game@ == GameView::Bidding(
                Round {
                    hands: states::known_hands(hands@),
                    scores: seats::PerTeam { ac: 0, bd: 0 },
                    bids: Seq::<Option<usize>>::empty(),
                    initial_bidder: first_player,
                    state: first_player,
                },
            ),
    {
        Game::Bidding(states::Bidding::new(first_player, hands_to_option(hands)))
    }

    /// The seat `player` makes the move `input`. A move that is refused leaves the game as
    /// it is. Where a new round starts, the double deck is shuffled and dealt.
    pub fn play(&mut self, player: Player, input: Input) -> (result: Result<(), String>)
        ensures
            made_step(old(self)@, step(old(self)@, player, input), None, final(self)@, result),
    {
        self.advance(player, input, None)
    }

    /// As `play`, but a new round is played with the hands `dealt`.
    pub fn play_with(&mut self, player: Player, input: Input, dealt: PlayerMap<Vec<Card>>) -> (result:
        Result<(), String>)
        ensures
            made_step(
                old(self)@,
                step(old(self)@, player, input),
                Some(dealt@),
                final(self)@,
                result,
            ),
    {
        self.advance(player, input, Some(dealt))
    }

    fn advance(&mut self, player: Player, input: Input, dealt: Option<PlayerMap<Vec<Card>>>) -> (result:
        Result<(), String>)
        ensures
            made_step(
                old(self)@,
                step(old(self)@, player, input),
                match dealt {
                    Some(hands) => Some(hands@),
                    None => None,
                },
                final(self)@,
                result,
            ),
    {
        if !self.can_play(player) {
            return Err("Not your turn".to_owned());
        }
        let mut input_state = Game::Finished;
        std::mem::swap(self, &mut input_state);

        let (next, err) = match (input_state, input) {
            (Game::Bidding(state), Input::Bid(amount)) => next_and_error(state.bid(amount)),
            (Game::Bidding(state), Input::Pass) => next_and_error(state.pass()),
            (Game::SelectingTrump(state), Input::SelectSuit(suit)) => (
                Game::PassingCards(state.select(suit)),
                Ok(()),
            ),
            (Game::PassingCards(state), Input::PassCards(cards)) => match state.try_pass(cards) {
                Ok(next) => (Game::ReturningCards(next), Ok(())),
                Err((kept, why)) => (Game::PassingCards(kept), Err(why)),
            },
            (Game::ReturningCards(state), Input::PassCards(cards)) => match state.try_pass(cards) {
                Ok(next) => (Game::Playing(next), Ok(())),
                Err((kept, why)) => (Game::ReturningCards(kept), Err(why)),
            },
            (Game::Playing(state), Input::Play(card)) => next_and_error(state.play(card)),
            (Game::FinishedRound(state), Input::Next) => {
                let outcome = match dealt {
                    Some(hands) => state.next_with(hands),
                    None => state.next(),
                };
                match outcome {
                    Either::Left(bidding) => (Game::Bidding(bidding), Ok(())),
                    Either::Right(_) => (Game::Finished, Ok(())),
                }
            },
            (input_state, _) => (input_state, Err("".to_owned())),
        };

        *self = next;
        proof {
            reveal_strlit("");
            if err is Err {
                assert(err->Err_0@.len() == 0 ==> err->Err_0@ =~= Seq::<char>::empty());
            }
        }
        err
    }

    pub fn hand(&self, player: Player) -> (hand: Option<&[Option<Card>]>)
        ensures
            match self@.hands() {
                Some(hands) => hand matches Some(slots) && slots@ == hands.get(player),
                None => hand is None,
            },
    {
        match self {
            Game::Bidding(b) => Some(b.hand(player)),
            Game::SelectingTrump(b) => Some(b.hand(player)),
            Game::PassingCards(b) => Some(b.hand(player)),
            Game::ReturningCards(b) => Some(b.hand(player)),
            Game::Playing(b) => Some(b.hand(player)),
            Game::FinishedRound(b) => Some(b.hand(player)),
            Game::Finished => None,
        }
    }

    pub fn can_play(&self, player: Player) -> (may: bool)
        ensures
            may == self@.may_act(player),
    {
        match self {
            Game::Bidding(b) => b.turn() == player,
            Game::SelectingTrump(b) => b.turn() == player,
            Game::PassingCards(b) => b.turn() == player,
            Game::ReturningCards(b) => b.turn() == player,
            Game::Playing(b) => b.turn() == player,
            Game::FinishedRound(_) => true,
            Game::Finished => false,
        }
    }

    pub fn bidding(&self) -> (phase: Option<&states::Bidding>)
        ensures
            phase == (match self {
                Game::Bidding(x) => Some(x),
                _ => None,
            }),
    {
        match self {
            Game::Bidding(x) => Some(x),
            _ => None,
        }
    }

    pub fn selecting_trump(&self) -> (phase: Option<&states::SelectingTrump>)
        ensures
            phase == (match self {
                Game::SelectingTrump(x) => Some(x),
                _ => None,
            }),
    {
        match self {
            Game::SelectingTrump(x) => Some(x),
            _ => None,
        }
    }

    pub fn playing(&self) -> (phase: Option<&states::Playing>)
        ensures
            phase == (match self {
                Game::Playing(x) => Some(x),
                _ => None,
            }),
    {
        match self {
            Game::Playing(x) => Some(x),
            _ => None,
        }
    }

    pub fn finished(&self) -> (phase: Option<&()>)
        ensures
            phase is Some <==> self is Finished,
    {
        match self {
            Game::Finished => Some(&()),
            _ => None,
        }
    }

    pub fn finished_round(&self) -> (phase: Option<&states::FinishedRound>)
        ensures
            phase == (match self {
                Game::FinishedRound(x) => Some(x),
                _ => None,
            }),
    {
        match self {
            Game::FinishedRound(x) => Some(x),
            _ => None,
        }
    }
}

impl Clone for Game {
    fn clone(&self) -> (copy: Self)
        ensures
            copy@ == self@,
    {
        match self {
            Game::Bidding(b) => Game::Bidding(b.clone()),
            Game::SelectingTrump(b) => Game::SelectingTrump(b.clone()),
            Game::PassingCards(b) => Game::PassingCards(b.clone()),
            Game::ReturningCards(b) => Game::ReturningCards(b.clone()),
            Game::Playing(b) => Game::Playing(b.clone()),
            Game::FinishedRound(b) => Game::FinishedRound(b.clone()),
            Game::Finished => Game::Finished,
        }
    }
}

impl Project for Game {
    open spec fn projection(v: GameView, viewer: Player) -> GameView {
        match v {
            GameView::Bidding(r) => GameView::Bidding(states::Bidding::projection(r, viewer)),
            GameView::SelectingTrump(r) => GameView::SelectingTrump(
                states::SelectingTrump::projection(r, viewer),
            ),
            GameView::PassingCards(r) => GameView::PassingCards(
                states::PassingCards::projection(r, viewer),
            ),
            GameView::ReturningCards(r) => GameView::ReturningCards(
                states::ReturningCards::projection(r, viewer),
            ),
            GameView::Playing(r) => GameView::Playing(states::Playing::projection(r, viewer)),
            GameView::FinishedRound(r) => GameView::FinishedRound(
                states::FinishedRound::projection(r, viewer),
            ),
            GameView::Finished => GameView::Finished,
        }
    }

    fn project(&self, player: Player) -> (seen: Self) {
        match self {
            Game::Bidding(b) => Game::Bidding(b.project(player)),
            Game::SelectingTrump(b) => Game::SelectingTrump(b.project(player)),
            Game::PassingCards(b) => Game::PassingCards(b.project(player)),
            Game::ReturningCards(b) => Game::ReturningCards(b.project(player)),
            Game::Playing(b) => Game::Playing(b.project(player)),
            Game::FinishedRound(b) => Game::FinishedRound(b.project(player)),
            Game::Finished => Game::Finished,
        }
    }
}

/// The game that a step of a phase leads to, with the error where the step was refused.
fn next_and_error<L, R>(s: Either<(L, Option<&str>), R>) -> (moved: (Game, Result<(), String>)) where
    L: Into<Game>,
    R: Into<Game>,

    ensures
        L::obeys_into_spec() && R::obeys_into_spec() ==> match s {
            Either::Left((state, None)) => moved.0 == state.into_spec() && moved.1 is Ok,
            Either::Left((state, Some(e))) => moved.0 == state.into_spec() && (
            moved.1 matches Err(said) && said@ == e@),
            Either::Right(state) => moved.0 == state.into_spec() && moved.1 is Ok,
        },
{
    match s {
        Either::Left((state, err)) => (
            state.into(),
            match err {
                None => Ok(()),
                Some(e) => Err(e.to_owned()),
            },
        ),
        Either::Right(state) => (state.into(), Ok(())),
    }
}

impl<T, U> From<Either<T, U>> for Game where T: Into<Game>, U: Into<Game> {
    fn from(val: Either<T, U>) -> (game: Self) {
        match val {
            Either::Left(t) => t.into(),
            Either::Right(t) => t.into(),
        }
    }
}

impl<T, U> FromSpecImpl<Either<T, U>> for Game where T: Into<Game>, U: Into<Game> {
    open spec fn obeys_from_spec() -> bool {
        T::obeys_into_spec() && U::obeys_into_spec()
    }

    open spec fn from_spec(val: Either<T, U>) -> Game {
        match val {
            Either::Left(t) => t.into_spec(),
            Either::Right(t) => t.into_spec(),
        }
    }
}

impl From<states::Bidding> for Game {
    fn from(val: states::Bidding) -> (game: Self) {
        Game::Bidding(val)
    }
}

impl FromSpecImpl<states::Bidding> for Game {
    open spec fn obeys_from_spec() -> bool {
        true
    }

    open spec fn from_spec(val: states::Bidding) -> Game {
        Game::Bidding(val)
    }
}

impl From<states::SelectingTrump> for Game {
    fn from(val: states::SelectingTrump) -> (game: Self) {
        Game::SelectingTrump(val)
    }
}

impl FromSpecImpl<states::SelectingTrump> for Game {
    open spec fn obeys_from_spec() -> bool {
        true
    }

    open spec fn from_spec(val: states::SelectingTrump) -> Game {
        Game::SelectingTrump(val)
    }
}

impl From<states::PassingCards> for Game {
    fn from(val: states::PassingCards) -> (game: Self) {
        Game::PassingCards(val)
    }
}

impl FromSpecImpl<states::PassingCards> for Game {
    open spec fn obeys_from_spec() -> bool {
        true
    }

    open spec fn from_spec(val: states::PassingCards) -> Game {
        Game::PassingCards(val)
    }
}

impl From<states::ReturningCards> for Game {
    fn from(val: states::ReturningCards) -> (game: Self) {
        Game::ReturningCards(val)
    }
}

impl FromSpecImpl<states::ReturningCards> for Game {
    open spec fn obeys_from_spec() -> bool {
        true
    }

    open spec fn from_spec(val: states::ReturningCards) -> Game {
        Game::ReturningCards(val)
    }
}

impl From<states::Playing> for Game {
    fn from(val: states::Playing) -> (game: Self) {
        Game::Playing(val)
    }
}

impl FromSpecImpl<states::Playing> for Game {
    open spec fn obeys_from_spec() -> bool {
        true
    }

    open spec fn from_spec(val: states::Playing) -> Game {
        Game::Playing(val)
    }
}

impl From<states::Finished> for Game {
    fn from(_val: states::Finished) -> (game: Self) {
        Game::Finished
    }
}

impl FromSpecImpl<states::Finished> for Game {
    open spec fn obeys_from_spec() -> bool {
        true
    }

    open spec fn from_spec(val: states::Finished) -> Game {
        Game::Finished
    }
}

impl From<states::FinishedRound> for Game {
    fn from(val: states::FinishedRound) -> (game: Self) {
        Game::FinishedRound(val)
    }
}

impl FromSpecImpl<states::FinishedRound> for Game {
    open spec fn obeys_from_spec() -> bool {
        true
    }

    open spec fn from_spec(val: states::FinishedRound) -> Game {
        Game::FinishedRound(val)
    }
}

} // verus!
