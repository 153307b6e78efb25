//! What clients say to the server and what the server says to them.

use crate::game::seats::{Player, PlayerMap};
use crate::game::{Game, GameView, Input};
use vstd::prelude::*;

verus! {

/// What the server says to a client of a table at which a game is played.
#[derive(Debug)]
pub enum PlayingResponse {
    /// A seat has made a move.
    Played(Player, Input),
    /// The game as the client may see it.
    State(Game),
    /// A seat has resigned.
    Resigned(Player),
    /// A connection has left and the table is back in its lobby.
    BackToReady,
    /// What the client sent was refused, for this reason.
    Error(String),
}

/// The model of what the server says to a client of a table at which a game is played.
pub enum PlayingResponseView {
    Played(Player, Input),
    State(GameView),
    Resigned(Player),
    BackToReady,
    Error(Seq<char>),
}

impl View for PlayingResponse {
    type V = PlayingResponseView;

    open spec fn view(&self) -> PlayingResponseView {
        match self {
            PlayingResponse::Played(seat, input) => PlayingResponseView::Played(*seat, *input),
            PlayingResponse::State(game) => PlayingResponseView::State(game@),
            PlayingResponse::Resigned(seat) => PlayingResponseView::Resigned(*seat),
            PlayingResponse::BackToReady => PlayingResponseView::BackToReady,
            PlayingResponse::Error(why) => PlayingResponseView::Error(why@),
        }
    }
}

impl Clone for PlayingResponse {
    fn clone(&self) -> (copy: Self)
        ensures
            copy@ == self@,
    {
        match self {
            PlayingResponse::Played(seat, input) => PlayingResponse::Played(*seat, *input),
            PlayingResponse::State(game) => PlayingResponse::State(game.clone()),
            PlayingResponse::Resigned(seat) => PlayingResponse::Resigned(*seat),
            PlayingResponse::BackToReady => PlayingResponse::BackToReady,
            PlayingResponse::Error(why) => PlayingResponse::Error(why.clone()),
        }
    }
}

/// What a client says to a table at which a game is played.
#[derive(Debug, Clone, Copy)]
pub enum PlayingInput {
    Play(Input),
    Resign,
}

/// What a client says before it is at a table.
#[derive(Debug)]
pub enum Command {
    JoinTable(String),
}

/// What a client says to a table in its lobby.
#[derive(Debug, Clone, Copy)]
pub enum TableCommand {
    SetPlayer(Player),
    SetReady(bool),
}

/// The lobby of a table as one of its clients sees it.
#[derive(Debug, PartialEq)]
pub struct TableState {
    /// For each seat, whether the connection that holds it is ready to play.
    pub ready: PlayerMap<bool>,
    /// The seat of the client that this is sent to.
    pub player: Option<Player>,
}

/// Why a card is not played on a board.
#[derive(Debug)]
pub enum ResponseError {
    NotConnected,
    NotYourTurn,
    NotPlaying,
    /// The board refuses the card, for this reason.
    GameError(String),
}

/// The model of why a card is not played on a board.
pub enum ResponseErrorView {
    NotConnected,
    NotYourTurn,
    NotPlaying,
    GameError(Seq<char>),
}

impl View for ResponseError {
    type V = ResponseErrorView;

    open spec fn view(&self) -> ResponseErrorView {
        match self {
            ResponseError::NotConnected => ResponseErrorView::NotConnected,
            ResponseError::NotYourTurn => ResponseErrorView::NotYourTurn,
            ResponseError::NotPlaying => ResponseErrorView::NotPlaying,
            ResponseError::GameError(why) => ResponseErrorView::GameError(why@),
        }
    }
}

impl TableState {
    pub fn new(player: Option<Player>) -> (state: TableState)
        ensures
            state == (TableState {
                ready: PlayerMap { a: false, b: false, c: false, d: false },
                player,
            }),
    {
        TableState { ready: PlayerMap::new(false, false, false, false), player: player }
    }
}

impl Clone for TableState {
    fn clone(&self) -> (copy: Self)
        ensures
            copy == *self,
    {
        TableState {
            ready: PlayerMap::new(self.ready.a, self.ready.b, self.ready.c, self.ready.d),
            player: self.player,
        }
    }
}

} // verus!
