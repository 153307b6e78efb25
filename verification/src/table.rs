//! A table: a lobby in which connections take seats, and the game they then play.
//!
//! A table takes what its connections say, one message at a time, and answers by putting
//! messages into their mailboxes. Everything it decides it decides from what it holds and
//! the message it is given.

use crate::command::{PlayingInput, PlayingResponse, PlayingResponseView, TableCommand, TableState};
use crate::game::cards::Card;
use crate::game::deck::{is_deal, shuffle};
use crate::game::laws::one_if;
use crate::game::seats::{PerTeam, Player, PlayerMap};
use crate::game::states::{known_hands, next_round, Project, Round};
use crate::game::{step, Game, GameView, Input, Step};
use crate::room::{answered, Completion, ConnId, Room};
use either::Either;
use std::collections::HashMap;
use vstd::prelude::*;

verus! {

/// What a connection has sent, as far as it could be read.
#[derive(Debug, Clone, Copy)]
pub enum Frame {
    /// A command for a table in its lobby.
    Table(TableCommand),
    /// A move or a resignation for a table at which a game is played.
    Playing(PlayingInput),
    /// Anything else.
    Unknown,
}

/// What comes in from the client of a connection.
#[derive(Debug)]
pub enum Inbound<E> {
    /// A text message, as far as it could be read.
    Text(Frame),
    /// A message that is no text.
    Other,
    /// The transport has failed.
    Failed(E),
    /// The stream of messages has ended.
    Closed,
}

/// What the server says to a client at a table.
#[derive(Debug)]
pub enum Outbound {
    Table(TableState),
    Playing(PlayingResponse),
}

/// The model of what the server says to a client at a table.
pub enum OutboundView {
    Table(TableState),
    Playing(PlayingResponseView),
}

impl View for Outbound {
    type V = OutboundView;

    open spec fn view(&self) -> OutboundView {
        match self {
            Outbound::Table(state) => OutboundView::Table(*state),
            Outbound::Playing(response) => OutboundView::Playing(response@),
        }
    }
}

impl Clone for Outbound {
    fn clone(&self) -> (copy: Self)
        ensures
            copy@ == self@,
    {
        match self {
            Outbound::Table(state) => Outbound::Table(state.clone()),
            Outbound::Playing(response) => Outbound::Playing(response.clone()),
        }
    }
}

/// What waits in the mailbox of a connection.
#[derive(Debug)]
pub enum Signal {
    /// To be sent to the client of the connection.
    Transmit(Outbound),
    /// The connection with this key is leaving the table.
    Leaving(ConnId),
}

/// The model of what waits in the mailbox of a connection.
pub enum SignalView {
    Transmit(OutboundView),
    Leaving(ConnId),
}

impl View for Signal {
    type V = SignalView;

    open spec fn view(&self) -> SignalView {
        match self {
            Signal::Transmit(message) => SignalView::Transmit(message@),
            Signal::Leaving(key) => SignalView::Leaving(*key),
        }
    }
}

impl Clone for Signal {
    fn clone(&self) -> (copy: Self)
        ensures
            copy@ == self@,
    {
        match self {
            Signal::Transmit(message) => Signal::Transmit(message.clone()),
            Signal::Leaving(key) => Signal::Leaving(*key),
        }
    }
}

/// The model of a table in its lobby.
pub struct LobbyView {
    /// The connection that holds each seat.
    pub players: PlayerMap<Option<ConnId>>,
    /// The connections that have said whether they are ready, with what they said last.
    pub ready: Map<ConnId, bool>,
    /// The game that will be played.
    pub game: GameView,
}

/// The model of what a table holds beside the mailboxes.
pub enum TableStatesView {
    Lobby(LobbyView),
    /// The connection of each seat, and the game they play.
    Playing(PlayerMap<ConnId>, GameView),
}

/// The model of a table.
pub struct TableView {
    pub state: TableStatesView,
    /// What waits in the mailbox of each connection at the table, oldest first.
    pub mail: Map<ConnId, Seq<SignalView>>,
}

/// The first seat, in order from A, that `who` holds in a lobby.
pub open spec fn seat_of(players: PlayerMap<Option<ConnId>>, who: ConnId) -> Option<Player> {
    if players.a == Some(who) {
        Some(Player::A)
    } else if players.b == Some(who) {
        Some(Player::B)
    } else if players.c == Some(who) {
        Some(Player::C)
    } else if players.d == Some(who) {
        Some(Player::D)
    } else {
        None
    }
}

/// The first seat, in order from A, that nobody holds.
pub open spec fn free_seat(players: PlayerMap<Option<ConnId>>) -> Option<Player> {
    if players.a is None {
        Some(Player::A)
    } else if players.b is None {
        Some(Player::B)
    } else if players.c is None {
        Some(Player::C)
    } else if players.d is None {
        Some(Player::D)
    } else {
        None
    }
}

/// The first seat, in order from A, that `who` holds in a game.
pub open spec fn seat_in_play(seats: PlayerMap<ConnId>, who: ConnId) -> Option<Player> {
    if seats.a == who {
        Some(Player::A)
    } else if seats.b == who {
        Some(Player::B)
    } else if seats.c == who {
        Some(Player::C)
    } else if seats.d == who {
        Some(Player::D)
    } else {
        None
    }
}

impl LobbyView {
    /// Whether a seat is shown as ready: it is held by a connection that has said it is
    /// ready and holds no seat before this one.
    pub open spec fn shows_ready(self, seat: Player) -> bool {
        match self.players.get(seat) {
            Some(who) => seat_of(self.players, who) == Some(seat) && self.ready.dom().contains(who)
                && self.ready[who],
            None => false,
        }
    }

    /// The lobby as it is shown to a client with the seat `player`.
    pub open spec fn snapshot(self, player: Option<Player>) -> TableState {
        TableState {
            ready: PlayerMap {
                a: self.shows_ready(Player::A),
                b: self.shows_ready(Player::B),
                c: self.shows_ready(Player::C),
                d: self.shows_ready(Player::D),
            },
            player,
        }
    }

    /// The lobby as it is shown to the connection `who`.
    pub open spec fn shown_to(self, who: ConnId) -> Option<SignalView> {
        Some(SignalView::Transmit(OutboundView::Table(self.snapshot(seat_of(self.players, who)))))
    }

    /// Whether a seat is held by a connection that has said it is ready.
    pub open spec fn seat_is_ready(self, seat: Player) -> bool {
        match self.players.get(seat) {
            Some(who) => self.ready.dom().contains(who) && self.ready[who],
            None => false,
        }
    }

    /// Whether the game can start: every seat is held by a connection that is ready.
    pub open spec fn can_start(self) -> bool {
        self.seat_is_ready(Player::A) && self.seat_is_ready(Player::B) && self.seat_is_ready(
            Player::C,
        ) && self.seat_is_ready(Player::D)
    }

    /// The connections of the four seats, where every seat is held.
    pub open spec fn seated(self) -> PlayerMap<ConnId> {
        PlayerMap {
            a: self.players.a->0,
            b: self.players.b->0,
            c: self.players.c->0,
            d: self.players.d->0,
        }
    }

    /// The lobby after `sender` has said `message`. A connection that takes a seat leaves the
    /// seat it held, is ready, and puts out whoever held the seat, who is then not ready.
    /// A connection that holds a seat says whether it is ready. Anything else changes nothing.
    pub open spec fn after(self, sender: ConnId, message: Frame) -> LobbyView {
        match message {
            Frame::Table(TableCommand::SetReady(ready)) => if seat_of(self.players, sender)
                is Some {
                LobbyView { ready: self.ready.insert(sender, ready), ..self }
            } else {
                self
            },
            Frame::Table(TableCommand::SetPlayer(seat)) => {
                let vacated = match seat_of(self.players, sender) {
                    Some(held) => self.players.with(held, None),
                    None => self.players,
                };
                let ready = self.ready.insert(sender, true);
                LobbyView {
                    players: vacated.with(seat, Some(sender)),
                    ready: match vacated.get(seat) {
                        Some(evicted) => ready.insert(evicted, false),
                        None => ready,
                    },
                    ..self
                }
            },
            _ => self,
        }
    }

    /// A lobby with nobody in it, and a game that starts with the hands `dealt` and seat A
    /// to bid.
    pub open spec fn fresh(dealt: PlayerMap<Seq<Card>>) -> LobbyView {
        LobbyView {
            players: PlayerMap { a: None, b: None, c: None, d: None },
            ready: Map::empty(),
            game: new_game(dealt),
        }
    }
}

/// A game that starts with the hands `dealt` and seat A to bid.
pub open spec fn new_game(dealt: PlayerMap<Seq<Card>>) -> GameView {
    GameView::Bidding(
        Round {
            hands: known_hands(dealt),
            scores: PerTeam { ac: 0, bd: 0 },
            bids: Seq::<Option<usize>>::empty(),
            initial_bidder: Player::A,
            state: Player::A,
        },
    )
}

/// The mailboxes after each connection has been sent what `letters` holds for it.
pub open spec fn post(
    mail: Map<ConnId, Seq<SignalView>>,
    letters: spec_fn(ConnId) -> Option<SignalView>,
) -> Map<ConnId, Seq<SignalView>> {
    Map::new(
        |key: ConnId| mail.dom().contains(key),
        |key: ConnId|
            match letters(key) {
                Some(letter) => mail[key].push(letter),
                None => mail[key],
            },
    )
}

/// The mailboxes after one connection has been sent a letter, if it is at the table.
pub open spec fn post_to(mail: Map<ConnId, Seq<SignalView>>, key: ConnId, letter: SignalView) -> Map<
    ConnId,
    Seq<SignalView>,
> {
    if mail.dom().contains(key) {
        mail.insert(key, mail[key].push(letter))
    } else {
        mail
    }
}

/// The game as it is shown to the connection `who`, if it holds a seat.
pub open spec fn game_shown_to(seats: PlayerMap<ConnId>, game: GameView, who: ConnId) -> Option<
    SignalView,
> {
    match seat_in_play(seats, who) {
        Some(seat) => Some(
            SignalView::Transmit(
                OutboundView::Playing(PlayingResponseView::State(Game::projection(game, seat))),
            ),
        ),
        None => None,
    }
}

/// The move `input` of `mover` as it is shown to the connection `who`, if it holds a seat:
/// as it is to the team of the mover, and masked to the other team.
pub open spec fn move_shown_to(seats: PlayerMap<ConnId>, mover: Player, input: Input, who: ConnId) -> Option<
    SignalView,
> {
    match seat_in_play(seats, who) {
        Some(seat) => Some(
            SignalView::Transmit(
                OutboundView::Playing(
                    PlayingResponseView::Played(
                        mover,
                        if seat.spec_team() == mover.spec_team() {
                            input
                        } else {
                            input.masked()
                        },
                    ),
                ),
            ),
        ),
        None => None,
    }
}

/// The game after a move, and what the mover is told. A new round is played with the hands
/// `dealt`.
pub open spec fn game_after(game: GameView, mover: Player, input: Input, dealt: PlayerMap<Seq<Card>>) -> (
    GameView,
    Option<Seq<char>>,
) {
    match step(game, mover, input) {
        Step::Refused(why) => (game, Some(why)),
        Step::Moved(next) => (next, None),
        Step::Redealt(finished) => (GameView::Bidding(next_round(finished, dealt)), None),
    }
}

/// The lobby that a table is back in when `leaver` has left a game: the other seats are
/// held as they were by connections that are ready, and the game is kept.
pub open spec fn lobby_after_game(seats: PlayerMap<ConnId>, game: GameView, leaver: ConnId) -> LobbyView {
    LobbyView {
        players: PlayerMap {
            a: if seats.a != leaver { Some(seats.a) } else { None },
            b: if seats.b != leaver { Some(seats.b) } else { None },
            c: if seats.c != leaver { Some(seats.c) } else { None },
            d: if seats.d != leaver { Some(seats.d) } else { None },
        },
        ready: Map::new(
            |who: ConnId|
                who != leaver && (seats.a == who || seats.b == who || seats.c == who || seats.d
                    == who),
            |who: ConnId| true,
        ),
        game,
    }
}

/// Whether no connection holds two seats of a lobby.
pub open spec fn one_seat_each(players: PlayerMap<Option<ConnId>>) -> bool {
    &&& players.a is Some ==> players.a != players.b && players.a != players.c && players.a
        != players.d
    &&& players.b is Some ==> players.b != players.c && players.b != players.d
    &&& players.c is Some ==> players.c != players.d
}

impl TableStatesView {
    /// Whether no connection holds two seats.
    pub open spec fn well_formed(self) -> bool {
        match self {
            TableStatesView::Lobby(lobby) => one_seat_each(lobby.players),
            TableStatesView::Playing(seats, _) => one_seat_each(
                PlayerMap { a: Some(seats.a), b: Some(seats.b), c: Some(seats.c), d: Some(seats.d) },
            ),
        }
    }
}

impl TableView {
    /// Whether no connection holds two seats. This holds of every table.
    pub open spec fn well_formed(self) -> bool {
        self.state.well_formed()
    }

    /// Whether what `sender` says draws on a freshly shuffled deck: a resignation, and the
    /// move that starts a new round.
    pub open spec fn draws(self, sender: ConnId, message: Frame) -> bool {
        match self.state {
            TableStatesView::Lobby(_) => false,
            TableStatesView::Playing(seats, game) => match (seat_in_play(seats, sender), message) {
                (Some(_), Frame::Playing(PlayingInput::Resign)) => true,
                (Some(seat), Frame::Playing(PlayingInput::Play(input))) => step(game, seat, input)
                    is Redealt,
                _ => false,
            },
        }
    }

    /// The table after it has told `sender` that what it said is refused.
    pub open spec fn refusing(self, sender: ConnId, why: Seq<char>) -> TableView {
        TableView {
            mail: post_to(
                self.mail,
                sender,
                SignalView::Transmit(OutboundView::Playing(PlayingResponseView::Error(why))),
            ),
            ..self
        }
    }

    /// The table after `sender` has said `message`, and whether the sender stays at the
    /// table. Where a freshly shuffled deck is drawn on, `dealt` are the hands it gives.
    ///
    /// In the lobby the message is acted on and every connection at the table is shown the
    /// lobby as it then is. If every seat is then held by a connection that is ready, the
    /// game starts, and every connection that holds a seat is shown the game.
    ///
    /// In a game, a connection without a seat is told that it is not playing, and what is
    /// neither a move nor a resignation is refused. A resignation is told to everyone and
    /// puts the table back in an empty lobby with a new game, and the connection that
    /// resigned leaves. A move is made in the game: where the game refuses it the mover is
    /// told why, where it starts a new round every seat is shown the game, and else every
    /// seat is told the move.
    pub open spec fn after_text(self, sender: ConnId, message: Frame, dealt: PlayerMap<Seq<Card>>) -> (
        TableView,
        Completion,
    ) {
        match self.state {
            TableStatesView::Lobby(lobby) => {
                let lobby = lobby.after(sender, message);
                let mail = post(self.mail, |who: ConnId| lobby.shown_to(who));
                if lobby.can_start() {
                    let seats = lobby.seated();
                    (
                        TableView {
                            state: TableStatesView::Playing(seats, lobby.game),
                            mail: post(mail, |who: ConnId| game_shown_to(seats, lobby.game, who)),
                        },
                        Completion::Continue,
                    )
                } else {
                    (TableView { state: TableStatesView::Lobby(lobby), mail }, Completion::Continue)
                }
            },
            TableStatesView::Playing(seats, game) => match seat_in_play(seats, sender) {
                None => (self.refusing(sender, "Not playing"@), Completion::Continue),
                Some(seat) => match message {
                    Frame::Playing(PlayingInput::Resign) => (
                        TableView {
                            state: TableStatesView::Lobby(LobbyView::fresh(dealt)),
                            mail: post(
                                self.mail,
                                |who: ConnId|
                                    Some(
                                        SignalView::Transmit(
                                            OutboundView::Playing(
                                                PlayingResponseView::Resigned(seat),
                                            ),
                                        ),
                                    ),
                            ),
                        },
                        Completion::Finished,
                    ),
                    Frame::Playing(PlayingInput::Play(input)) => match game_after(
                        game,
                        seat,
                        input,
                        dealt,
                    ) {
                        (_, Some(why)) => (self.refusing(sender, why), Completion::Continue),
                        (next, None) => (
                            TableView {
                                state: TableStatesView::Playing(seats, next),
                                mail: if input is Next {
                                    post(self.mail, |who: ConnId| game_shown_to(seats, next, who))
                                } else {
                                    post(
                                        self.mail,
                                        |who: ConnId| move_shown_to(seats, seat, input, who),
                                    )
                                },
                            },
                            Completion::Continue,
                        ),
                    },
                    _ => (self.refusing(sender, "Invalid message"@), Completion::Continue),
                },
            },
        }
    }

    /// The table after the connection `who` has come to it: it has an empty mailbox. In the
    /// lobby it keeps the seat it holds, and else gets the first seat that nobody holds, if
    /// there is one; and it is shown the lobby.
    pub open spec fn after_enter(self, who: ConnId) -> TableView {
        let mail = self.mail.insert(who, Seq::empty());
        match self.state {
            TableStatesView::Lobby(lobby) => {
                let held = seat_of(lobby.players, who);
                let seat = if held is Some {
                    held
                } else {
                    free_seat(lobby.players)
                };
                let lobby = match seat {
                    Some(seat) => LobbyView { players: lobby.players.with(seat, Some(who)), ..lobby },
                    None => lobby,
                };
                TableView {
                    state: TableStatesView::Lobby(lobby),
                    mail: post_to(
                        mail,
                        who,
                        SignalView::Transmit(OutboundView::Table(lobby.snapshot(seat))),
                    ),
                }
            },
            TableStatesView::Playing(_, _) => TableView { mail, ..self },
        }
    }

    /// The table after the connection `who` has left it: its mailbox is gone. In the lobby
    /// it gives up its seat and is not ready, and everyone else is shown the lobby. In a
    /// game, everyone else is told that it is leaving and that the table is back in its
    /// lobby, and is shown that lobby.
    pub open spec fn after_leave(self, who: ConnId) -> TableView {
        let mail = self.mail.remove(who);
        match self.state {
            TableStatesView::Lobby(lobby) => {
                let lobby = LobbyView {
                    players: match seat_of(lobby.players, who) {
                        Some(seat) => lobby.players.with(seat, None),
                        None => lobby.players,
                    },
                    ready: lobby.ready.insert(who, false),
                    ..lobby
                };
                TableView {
                    state: TableStatesView::Lobby(lobby),
                    mail: post(mail, |other: ConnId| lobby.shown_to(other)),
                }
            },
            TableStatesView::Playing(seats, game) => {
                let lobby = lobby_after_game(seats, game, who);
                let told = post(mail, |other: ConnId| Some(SignalView::Leaving(who)));
                let back = post(
                    told,
                    |other: ConnId|
                        Some(
                            SignalView::Transmit(
                                OutboundView::Playing(PlayingResponseView::BackToReady),
                            ),
                        ),
                );
                TableView {
                    state: TableStatesView::Lobby(lobby),
                    mail: post(back, |other: ConnId| lobby.shown_to(other)),
                }
            },
        }
    }
}


/// A table in its lobby.
#[derive(Debug)]
struct TableStateInternal {
    players: PlayerMap<Option<ConnId>>,
    ready: HashMap<ConnId, bool>,
    game: Game,
}

impl View for TableStateInternal {
    type V = LobbyView;

    closed spec fn view(&self) -> LobbyView {
        LobbyView { players: self.players, ready: self.ready@, game: self.game@ }
    }
}

/// What a table holds beside the mailboxes.
enum TableStates {
    Lobby(TableStateInternal),
    Playing(PlayerMap<ConnId>, Game),
}

impl View for TableStates {
    type V = TableStatesView;

    closed spec fn view(&self) -> TableStatesView {
        match self {
            TableStates::Lobby(lobby) => TableStatesView::Lobby(lobby@),
            TableStates::Playing(seats, game) => TableStatesView::Playing(*seats, game@),
        }
    }
}

impl TableStates {
    /// No connection holds two seats.
    #[verifier::type_invariant]
    spec fn seats_are_distinct(self) -> bool {
        self@.well_formed()
    }

    /// What a table holds for the moment while its state is being worked on.
    fn placeholder() -> (state: TableStates) {
        TableStates::Playing(PlayerMap::new(0, 1, 2, 3), Game::Finished)
    }
}

/// A table: its lobby or its game, and the mailboxes of the connections at it.
pub struct Table {
    state: TableStates,
    room: Room<Signal>,
}

/// The model of the mailboxes of a table.
pub open spec fn mail_view(room: Map<ConnId, Seq<Signal>>) -> Map<ConnId, Seq<SignalView>> {
    Map::new(|key: ConnId| room.dom().contains(key), |key: ConnId| signals_view(room[key]))
}

impl View for Table {
    type V = TableView;

    closed spec fn view(&self) -> TableView {
        TableView { state: self.state@, mail: mail_view(self.room@) }
    }
}

/// The model of what a connection is sent, if anything.
pub open spec fn letter(answer: Option<Signal>) -> Option<SignalView> {
    match answer {
        Some(signal) => Some(signal@),
        None => None,
    }
}

/// Mailboxes that have each been sent what `message` answers hold what `letters` says,
/// where the answers of `message` are those letters.
proof fn lemma_posted<F: Fn(&ConnId) -> Option<Signal>>(
    before: Map<ConnId, Seq<Signal>>,
    after: Map<ConnId, Seq<Signal>>,
    message: F,
    letters: spec_fn(ConnId) -> Option<SignalView>,
)
    requires
        after.dom() == before.dom(),
        forall|key: ConnId| #[trigger]
            after.dom().contains(key) ==> answered(message, key, before[key], after[key]),
        forall|key: ConnId, answer: Option<Signal>| #[trigger]
            call_ensures(message, (&key,), answer) ==> letter(answer) == letters(key),
    ensures
        mail_view(after) == post(mail_view(before), letters),
{
    assert forall|key: ConnId| after.dom().contains(key) implies #[trigger] mail_view(after)[key]
        == post(mail_view(before), letters)[key] by {
        assert(answered(message, key, before[key], after[key]));
        let answer = choose|answer: Option<Signal>|
            {
                &&& #[trigger] call_ensures(message, (&key,), answer)
                &&& after[key] == match answer {
                    Some(msg) => before[key].push(msg),
                    None => before[key],
                }
            };
        assert(letter(answer) == letters(key));
        match answer {
            Some(msg) => {
                assert(before[key].push(msg).map_values(|signal: Signal| signal@) =~= before[key].map_values(
                    |signal: Signal| signal@,
                ).push(msg@));
            },
            None => {},
        }
    }
    assert(mail_view(after) =~= post(mail_view(before), letters));
}

/// Mailboxes that have each been sent a copy of a message hold that message.
proof fn lemma_broadcast(
    before: Map<ConnId, Seq<Signal>>,
    after: Map<ConnId, Seq<Signal>>,
    msg: Signal,
)
    requires
        after.dom() == before.dom(),
        forall|key: ConnId| #[trigger]
            after.dom().contains(key) ==> crate::room::copied_into(msg, before[key], after[key]),
    ensures
        mail_view(after) == post(mail_view(before), |key: ConnId| Some(msg@)),
{
    let letters = |key: ConnId| Some(msg@);
    assert forall|key: ConnId| after.dom().contains(key) implies #[trigger] mail_view(after)[key]
        == post(mail_view(before), letters)[key] by {
        assert(crate::room::copied_into(msg, before[key], after[key]));
        let copy = choose|copy: Signal|
            #[trigger] cloned(msg, copy) && after[key] == before[key].push(copy);
        assert(copy@ == msg@);
        assert(before[key].push(copy).map_values(|signal: Signal| signal@) =~= before[key].map_values(
            |signal: Signal| signal@,
        ).push(copy@));
    }
    assert(mail_view(after) =~= post(mail_view(before), letters));
}

/// A mailbox that has been sent a message holds it.
proof fn lemma_sent_to(before: Map<ConnId, Seq<Signal>>, key: ConnId, msg: Signal)
    ensures
        mail_view(
            if before.dom().contains(key) {
                before.insert(key, before[key].push(msg))
            } else {
                before
            },
        ) == post_to(mail_view(before), key, msg@),
{
    if before.dom().contains(key) {
        assert(before[key].push(msg).map_values(|signal: Signal| signal@) =~= before[key].map_values(
            |signal: Signal| signal@,
        ).push(msg@));
        assert(mail_view(before.insert(key, before[key].push(msg))) =~= post_to(
            mail_view(before),
            key,
            msg@,
        ));
    }
}

impl TableStateInternal {
    /// An empty lobby with a freshly shuffled game.
    fn new() -> (lobby: TableStateInternal)
        ensures
            exists|dealt: PlayerMap<Seq<Card>>|
                is_deal(dealt) && lobby@ == #[trigger] LobbyView::fresh(dealt),
    {
        let dealt = shuffle();
        let ghost hands = dealt@;
        let lobby = TableStateInternal::with_hands(dealt);
        proof {
            assert(is_deal(hands) && lobby@ == LobbyView::fresh(hands));
        }
        lobby
    }

    /// An empty lobby with a game that starts with the hands `dealt`.
    fn with_hands(dealt: PlayerMap<Vec<Card>>) -> (lobby: TableStateInternal)
        ensures
            lobby@ == LobbyView::fresh(dealt@),
    {
        broadcast use vstd::std_specs::hash::group_hash_axioms;

        let lobby = TableStateInternal {
            ready: HashMap::new(),
            players: PlayerMap::new(None, None, None, None),
            game: Game::new(Player::A, dealt),
        };
        assert(lobby.ready@ =~= Map::<ConnId, bool>::empty());
        lobby
    }

    /// Whether the seat is held by a connection that has said it is ready.
    fn seat_is_ready(&self, seat: Player) -> (ready: bool)
        ensures
            ready == self@.seat_is_ready(seat),
    {
        broadcast use vstd::std_specs::hash::group_hash_axioms;

        match self.players.get_value(seat) {
            Some(who) => match self.ready.get(who) {
                Some(ready) => *ready,
                None => false,
            },
            None => false,
        }
    }

    /// Whether the seat is shown as ready.
    fn shows_ready(&self, seat: Player) -> (ready: bool)
        ensures
            ready == self@.shows_ready(seat),
    {
        match self.players.get_value(seat) {
            Some(who) => match self.players.get_player(&Some(*who)) {
                Some(first) => first == seat && self.seat_is_ready(seat),
                None => false,
            },
            None => false,
        }
    }

    /// Acts on what `addr` has said.
    fn apply(&mut self, addr: ConnId, message: Frame)
        ensures
            final(self)@ == old(self)@.after(addr, message),
    {
        broadcast use vstd::std_specs::hash::group_hash_axioms;

        match message {
            Frame::Table(TableCommand::SetReady(b)) => {
                if self.players.get_player(&Some(addr)).is_some() {
                    self.ready.insert(addr, b);
                }
            },
            Frame::Table(TableCommand::SetPlayer(p)) => {
                if let Some(player) = self.players.get_player(&Some(addr)) {
                    *self.players.get_value_mut(player) = None;
                }
                let player_addr = self.players.get_value_mut(p);
                let prev_val = *player_addr;
                *player_addr = Some(addr);
                self.ready.insert(addr, true);
                if let Some(prev_val) = prev_val {
                    self.ready.insert(prev_val, false);
                }
            },
            _ => (),
        }
    }
}

impl Table {
    /// A table with nobody at it, in its lobby, with a freshly shuffled game.
    pub fn new() -> (table: Table)
        ensures
            table@.well_formed(),
            exists|dealt: PlayerMap<Seq<Card>>|
                is_deal(dealt) && table@ == #[trigger] Table::fresh(dealt),
    {
        let lobby = TableStateInternal::new();
        let table = Table { state: TableStates::Lobby(lobby), room: Room::new() };
        proof {
            let dealt = choose|dealt: PlayerMap<Seq<Card>>|
                is_deal(dealt) && lobby@ == #[trigger] LobbyView::fresh(dealt);
            assert(table@.mail =~= Map::<ConnId, Seq<SignalView>>::empty());
            assert(is_deal(dealt) && table@ == Table::fresh(dealt));
        }
        table
    }

    /// The model of a table with nobody at it, in its lobby, with a game that starts with
    /// the hands `dealt`.
    pub open spec fn fresh(dealt: PlayerMap<Seq<Card>>) -> TableView {
        TableView { state: TableStatesView::Lobby(LobbyView::fresh(dealt)), mail: Map::empty() }
    }

    /// A table with nobody at it, in its lobby, with a game that starts with the hands
    /// `dealt`.
    pub fn with_hands(dealt: PlayerMap<Vec<Card>>) -> (table: Table)
        ensures
            table@ == Table::fresh(dealt@),
            table@.well_formed(),
    {
        let table = Table {
            state: TableStates::Lobby(TableStateInternal::with_hands(dealt)),
            room: Room::new(),
        };
        assert(table@.mail =~= Map::<ConnId, Seq<SignalView>>::empty());
        table
    }

    /// The lobby as it is shown to a client with the seat `player`.
    fn table_info(player: Option<Player>, s: &TableStateInternal) -> (message: Outbound)
        ensures
            message@ == OutboundView::Table(s@.snapshot(player)),
    {
        let mut response = TableState::new(player);
        response.ready = PlayerMap::new(
            s.shows_ready(Player::A),
            s.shows_ready(Player::B),
            s.shows_ready(Player::C),
            s.shows_ready(Player::D),
        );
        Outbound::Table(response)
    }

    /// Shows the lobby to every connection at the table.
    fn send_table_info(room: &mut Room<Signal>, s: &TableStateInternal)
        ensures
            mail_view(final(room)@) == post(
                mail_view(old(room)@),
                |who: ConnId| s@.shown_to(who),
            ),
    {
        let show = |addr: &ConnId| -> (answer: Option<Signal>)
            ensures
                letter(answer) == s@.shown_to(*addr),
            { Some(Signal::Transmit(Table::table_info(s.players.get_player(&Some(*addr)), s))) };
        let ghost before = room@;
        room.send(show);
        proof {
            lemma_posted(before, room@, show, |who: ConnId| s@.shown_to(who));
        }
    }

    /// Shows the game to every connection that holds a seat.
    fn send_full_state(room: &mut Room<Signal>, game: &Game, players: &PlayerMap<ConnId>)
        ensures
            mail_view(final(room)@) == post(
                mail_view(old(room)@),
                |who: ConnId| game_shown_to(*players, game@, who),
            ),
    {
        let show = |dest: &ConnId| -> (answer: Option<Signal>)
            ensures
                letter(answer) == game_shown_to(*players, game@, *dest),
            {
                if let Some(player) = players.get_player(dest) {
                    let projected = game.project(player);
                    Some(Signal::Transmit(Outbound::Playing(PlayingResponse::State(projected))))
                } else {
                    None
                }
            };
        let ghost before = room@;
        room.send(show);
        proof {
            lemma_posted(before, room@, show, |who: ConnId| game_shown_to(*players, game@, who));
        }
    }
}


/// The hands that are given, where hands are given.
pub open spec fn given(dealt: Option<PlayerMap<Vec<Card>>>, hands: PlayerMap<Seq<Card>>) -> bool {
    dealt matches Some(these) ==> hands == these@
}

/// The hands that are given, and `other` where none are.
pub open spec fn given_or(dealt: Option<PlayerMap<Vec<Card>>>, other: PlayerMap<Seq<Card>>) -> PlayerMap<
    Seq<Card>,
> {
    match dealt {
        Some(these) => these@,
        None => other,
    }
}

/// The model of a table in a game.
spec fn in_play(seats: PlayerMap<ConnId>, game: GameView, room: Map<ConnId, Seq<Signal>>) -> TableView {
    TableView { state: TableStatesView::Playing(seats, game), mail: mail_view(room) }
}

/// Whether `play` has done to a table in a game what `after_text` says. `before` is the
/// table as it was; `game` and `mail` are the game and the mailboxes as they are.
spec fn has_played(
    before: TableView,
    sender: ConnId,
    message: Frame,
    dealt: PlayerMap<Seq<Card>>,
    outcome: Result<(Option<TableStates>, Completion), String>,
    seats: PlayerMap<ConnId>,
    game: GameView,
    mail: Map<ConnId, Seq<SignalView>>,
) -> bool {
    let (after, completion) = before.after_text(sender, message, dealt);
    match outcome {
        Ok((replaced, said)) => {
            &&& said == completion
            &&& after.mail == mail
            &&& after.state == match replaced {
                Some(state) => state@,
                None => TableStatesView::Playing(seats, game),
            }
        },
        Err(why) => {
            &&& after == before.refusing(sender, why@)
            &&& completion == Completion::Continue
            &&& mail == before.mail
            &&& TableStatesView::Playing(seats, game) == before.state
        },
    }
}

/// Whether `play` has done to a table in a game what `after_text` says, with the hands that
/// were given or with a deal of the double deck.
spec fn has_played_with_some(
    before: TableView,
    sender: ConnId,
    message: Frame,
    dealt: Option<PlayerMap<Vec<Card>>>,
    outcome: Result<(Option<TableStates>, Completion), String>,
    seats: PlayerMap<ConnId>,
    game: GameView,
    mail: Map<ConnId, Seq<SignalView>>,
) -> bool {
    exists|hands: PlayerMap<Seq<Card>>|
        {
            &&& dealt is None && before.draws(sender, message) ==> is_deal(hands)
            &&& given(dealt, hands)
            &&& #[trigger] has_played(before, sender, message, hands, outcome, seats, game, mail)
        }
}

impl Table {
    /// What a connection says at a table in a game. An error is what the connection is to
    /// be told; the game and the mailboxes are then as they were.
    fn play(
        room: &mut Room<Signal>,
        addr: &ConnId,
        message: Frame,
        player_map: &PlayerMap<ConnId>,
        game: &mut Game,
        dealt: Option<PlayerMap<Vec<Card>>>,
    ) -> (outcome: Result<(Option<TableStates>, Completion), String>)
        ensures
            has_played_with_some(
                in_play(*player_map, old(game)@, old(room)@),
                *addr,
                message,
                dealt,
                outcome,
                *player_map,
                final(game)@,
                mail_view(final(room)@),
            ),
    {
        let ghost before = in_play(*player_map, game@, room@);
        let ghost any_hands: PlayerMap<Seq<Card>> = given_or(dealt, arbitrary());
        let connected_player = match player_map.get_player(addr) {
            Some(seat) => seat,
            None => {
                let why = "Not playing".to_owned();
                assert(has_played(
                    before,
                    *addr,
                    message,
                    any_hands,
                    Err::<(Option<TableStates>, Completion), String>(why),
                    *player_map,
                    game@,
                    mail_view(room@),
                ));
                return Err(why);
            },
        };
        let input = match message {
            Frame::Playing(input) => input,
            _ => {
                let why = "Invalid message".to_owned();
                assert(has_played(
                    before,
                    *addr,
                    message,
                    any_hands,
                    Err::<(Option<TableStates>, Completion), String>(why),
                    *player_map,
                    game@,
                    mail_view(room@),
                ));
                return Err(why);
            },
        };

        match input {
            PlayingInput::Resign => {
                let response = PlayingResponse::Resigned(connected_player);
                let message = Signal::Transmit(Outbound::Playing(response));
                let ghost sent = message;
                let ghost mail = room@;
                room.broadcast(message);
                proof {
                    lemma_broadcast(mail, room@, sent);
                }
                let ghost mut used = any_hands;
                let lobby = match dealt {
                    Some(these) => TableStateInternal::with_hands(these),
                    None => {
                        let lobby = TableStateInternal::new();
                        proof {
                            used = choose|hands: PlayerMap<Seq<Card>>|
                                is_deal(hands) && lobby@ == #[trigger] LobbyView::fresh(hands);
                        }
                        lobby
                    },
                };
                let outcome = Ok((Some(TableStates::Lobby(lobby)), Completion::Finished));
                proof {
                    assert(lobby@ == LobbyView::fresh(used));
                    assert(before.after_text(*addr, input_frame(input), used).0.mail =~= mail_view(
                        room@,
                    ));
                    assert(has_played(
                        before,
                        *addr,
                        input_frame(input),
                        used,
                        outcome,
                        *player_map,
                        game@,
                        mail_view(room@),
                    ));
                }
                outcome
            },
            PlayingInput::Play(game_input) => {
                let ghost game_before = game@;
                let ghost made = step(game_before, connected_player, game_input);
                let ghost mut used = any_hands;
                let result = match dealt {
                    Some(these) => game.play_with(connected_player, game_input, these),
                    None => {
                        let result = game.play(connected_player, game_input);
                        proof {
                            if made is Redealt {
                                used = choose|hands: PlayerMap<Seq<Card>>|
                                    is_deal(hands) && game@ == GameView::Bidding(
                                        #[trigger] next_round(made->Redealt_0, hands),
                                    );
                            }
                        }
                        result
                    },
                };
                proof {
                    assert(game_after(game_before, connected_player, game_input, used).0 == game@);
                }
                if let Err(e) = result {
                    assert(has_played(
                        before,
                        *addr,
                        input_frame(input),
                        used,
                        Err::<(Option<TableStates>, Completion), String>(e),
                        *player_map,
                        game@,
                        mail_view(room@),
                    ));
                    return Err(e);
                }
                match game_input {
                    Input::Next => {
                        Table::send_full_state(room, game, player_map);
                    },
                    _ => {
                        let tell = |recipient: &ConnId| -> (answer: Option<Signal>)
                            ensures
                                letter(answer) == move_shown_to(
                                    *player_map,
                                    connected_player,
                                    game_input,
                                    *recipient,
                                ),
                            {
                                if let Some(recipient) = player_map.get_player(recipient) {
                                    let input = if recipient.team() == connected_player.team() {
                                        game_input
                                    } else {
                                        game_input.mask()
                                    };

                                    let response = PlayingResponse::Played(connected_player, input);
                                    Some(Signal::Transmit(Outbound::Playing(response)))
                                } else {
                                    None
                                }
                            };
                        let ghost mail = room@;
                        room.send(tell);
                        proof {
                            lemma_posted(
                                mail,
                                room@,
                                tell,
                                |who: ConnId|
                                    move_shown_to(*player_map, connected_player, game_input, who),
                            );
                        }
                    },
                }
                let outcome = Ok((None, Completion::Continue));
                proof {
                    assert(before.after_text(*addr, input_frame(input), used).0.mail =~= mail_view(
                        room@,
                    ));
                    assert(has_played(
                        before,
                        *addr,
                        input_frame(input),
                        used,
                        outcome,
                        *player_map,
                        game@,
                        mail_view(room@),
                    ));
                }
                outcome
            },
        }
    }

    /// What a connection says at a table in its lobby.
    fn in_lobby(
        room: &mut Room<Signal>,
        lobby: TableStateInternal,
        addr: &ConnId,
        message: Frame,
    ) -> (state: TableStates)
        requires
            one_seat_each(lobby@.players),
        ensures
            forall|dealt: PlayerMap<Seq<Card>>|
                (#[trigger] (TableView {
                    state: TableStatesView::Lobby(lobby@),
                    mail: mail_view(old(room)@),
                }).after_text(*addr, message, dealt)).0 == (TableView {
                    state: state@,
                    mail: mail_view(final(room)@),
                }),
    {
        let ghost before = TableView {
            state: TableStatesView::Lobby(lobby@),
            mail: mail_view(room@),
        };
        let mut s = lobby;
        s.apply(*addr, message);
        Table::send_table_info(room, &s);

        if s.seat_is_ready(Player::A) && s.seat_is_ready(Player::B) && s.seat_is_ready(Player::C)
            && s.seat_is_ready(Player::D) {
            let map = PlayerMap::new(
                s.players.a.unwrap(),
                s.players.b.unwrap(),
                s.players.c.unwrap(),
                s.players.d.unwrap(),
            );
            Table::send_full_state(room, &s.game, &map);

            let playing = TableStates::Playing(map, s.game);
            proof {
                assert forall|dealt: PlayerMap<Seq<Card>>|
                    (#[trigger] before.after_text(*addr, message, dealt)).0 == (TableView {
                        state: playing@,
                        mail: mail_view(room@),
                    }) by {
                    assert(before.after_text(*addr, message, dealt).0.mail =~= mail_view(room@));
                }
            }
            playing
        } else {
            let waiting = TableStates::Lobby(s);
            proof {
                assert forall|dealt: PlayerMap<Seq<Card>>|
                    (#[trigger] before.after_text(*addr, message, dealt)).0 == (TableView {
                        state: waiting@,
                        mail: mail_view(room@),
                    }) by {
                    assert(before.after_text(*addr, message, dealt).0.mail =~= mail_view(room@));
                }
            }
            waiting
        }
    }

    /// What a connection at the table says. Where a new game or a new round starts, the
    /// double deck is shuffled and dealt.
    pub fn text(&mut self, addr: &ConnId, message: Frame) -> (completion: Completion)
        ensures
            final(self)@.well_formed(),
            exists|hands: PlayerMap<Seq<Card>>|
                {
                    &&& old(self)@.draws(*addr, message) ==> is_deal(hands)
                    &&& (final(self)@, completion) == #[trigger] old(self)@.after_text(
                        *addr,
                        message,
                        hands,
                    )
                },
    {
        self.handle(addr, message, None)
    }

    /// As `text`, but a new game or a new round is played with the hands `dealt`.
    pub fn text_with(&mut self, addr: &ConnId, message: Frame, dealt: PlayerMap<Vec<Card>>) -> (completion:
        Completion)
        ensures
            (final(self)@, completion) == old(self)@.after_text(*addr, message, dealt@),
            final(self)@.well_formed(),
    {
        self.handle(addr, message, Some(dealt))
    }

    fn handle(&mut self, addr: &ConnId, message: Frame, dealt: Option<PlayerMap<Vec<Card>>>) -> (completion:
        Completion)
        ensures
            final(self)@.well_formed(),
            exists|hands: PlayerMap<Seq<Card>>|
                {
                    &&& dealt is None && old(self)@.draws(*addr, message) ==> is_deal(hands)
                    &&& given(dealt, hands)
                    &&& (final(self)@, completion) == #[trigger] old(self)@.after_text(
                        *addr,
                        message,
                        hands,
                    )
                },
    {
        let ghost before = self@;
        let ghost to_deal = dealt;
        let ghost mut used: PlayerMap<Seq<Card>> = given_or(dealt, arbitrary());
        let mut state = TableStates::placeholder();
        std::mem::swap(&mut self.state, &mut state);
        proof {
            use_type_invariant(&state);
        }
        let (new_state, completion) = match state {
            TableStates::Lobby(s) => {
                let state = Table::in_lobby(&mut self.room, s, addr, message);
                (state, Completion::Continue)
            },
            TableStates::Playing(player_map, mut game) => {
                let ghost mail = self.room@;
                let ghost game_before = game@;
                let outcome = Table::play(
                    &mut self.room,
                    addr,
                    message,
                    &player_map,
                    &mut game,
                    dealt,
                );
                proof {
                    assert(in_play(player_map, game_before, mail) == before);
                    assert(has_played_with_some(
                        before,
                        *addr,
                        message,
                        to_deal,
                        outcome,
                        player_map,
                        game@,
                        mail_view(self.room@),
                    ));
                    used = choose|hands: PlayerMap<Seq<Card>>|
                        {
                            &&& to_deal is None && before.draws(*addr, message) ==> is_deal(hands)
                            &&& given(to_deal, hands)
                            &&& #[trigger] has_played(
                                before,
                                *addr,
                                message,
                                hands,
                                outcome,
                                player_map,
                                game@,
                                mail_view(self.room@),
                            )
                        };
                }
                match outcome {
                    Ok((Some(replaced), completion)) => (replaced, completion),
                    Ok((None, completion)) => (TableStates::Playing(player_map, game), completion),
                    Err(e) => {
                        let response = PlayingResponse::Error(e);
                        let signal = Signal::Transmit(Outbound::Playing(response));
                        proof {
                            lemma_sent_to(self.room@, *addr, signal);
                        }
                        self.room.send_to(addr, signal);

                        (TableStates::Playing(player_map, game), Completion::Continue)
                    },
                }
            },
        };
        self.state = new_state;
        proof {
            use_type_invariant(&self.state);
            assert(self@.mail =~= before.after_text(*addr, message, used).0.mail);
            assert((self@, completion) == before.after_text(*addr, message, used));
        }
        completion
    }
}

/// What a connection has said in a game, as what it has sent.
pub open spec fn input_frame(input: PlayingInput) -> Frame {
    Frame::Playing(input)
}


/// The model of the messages taken out of a mailbox.
pub open spec fn signals_view(signals: Seq<Signal>) -> Seq<SignalView> {
    signals.map_values(|signal: Signal| signal@)
}

/// What an event makes of a table, of the messages to be sent to the client of a
/// connection, and of the error that its transport has reported.
///
/// A message from the client that could be read is what the connection says at the table.
/// A message that is no text is passed over. An error of the transport is kept, and the
/// connection leaves. It leaves as well when its stream of messages ends. A signal to
/// transmit a message puts the message behind those to be sent to the client. Word that
/// a connection is leaving changes nothing.
pub open spec fn after_event<E>(
    table: TableView,
    out: Seq<OutboundView>,
    err: Result<(), E>,
    addr: ConnId,
    event: Either<Inbound<E>, SignalView>,
    dealt: PlayerMap<Seq<Card>>,
) -> (TableView, Seq<OutboundView>, Result<(), E>, Completion) {
    match event {
        Either::Left(Inbound::Text(frame)) => {
            let (after, completion) = table.after_text(addr, frame, dealt);
            (after, out, err, completion)
        },
        Either::Left(Inbound::Other) => (table, out, err, Completion::Continue),
        Either::Left(Inbound::Failed(e)) => (table, out, Err(e), Completion::Finished),
        Either::Left(Inbound::Closed) => (table, out, err, Completion::Finished),
        Either::Right(SignalView::Transmit(message)) => (
            table,
            out.push(message),
            err,
            Completion::Continue,
        ),
        Either::Right(SignalView::Leaving(_)) => (table, out, err, Completion::Continue),
    }
}

/// The model of an event.
pub open spec fn event_view<E>(event: Either<Inbound<E>, Signal>) -> Either<
    Inbound<E>,
    SignalView,
> {
    match event {
        Either::Left(inbound) => Either::Left(inbound),
        Either::Right(signal) => Either::Right(signal@),
    }
}

/// The model of the messages to be sent to a client.
pub open spec fn out_view(out: Seq<Outbound>) -> Seq<OutboundView> {
    out.map_values(|message: Outbound| message@)
}

/// Whether an event draws on a freshly shuffled deck.
pub open spec fn event_draws<E>(
    table: TableView,
    addr: ConnId,
    event: Either<Inbound<E>, Signal>,
) -> bool {
    event matches Either::Left(Inbound::Text(frame)) && table.draws(addr, frame)
}

impl Table {
    /// Handles one event of the connection `addr`: a message from its client, or a signal
    /// from its mailbox. Messages for the client are put into `out`, and an error of the
    /// transport into `err`.
    pub fn main_loop<E>(
        &mut self,
        addr: &ConnId,
        out: &mut Vec<Outbound>,
        message: Either<Inbound<E>, Signal>,
        err: &mut Result<(), E>,
    ) -> (completion: Completion)
        ensures
            final(self)@.well_formed(),
            exists|hands: PlayerMap<Seq<Card>>|
                {
                    &&& event_draws(old(self)@, *addr, message) ==> is_deal(hands)
                    &&& (final(self)@, out_view(final(out)@), *final(err), completion)
                        == #[trigger] after_event(
                        old(self)@,
                        out_view(old(out)@),
                        *old(err),
                        *addr,
                        event_view(message),
                        hands,
                    )
                },
    {
        let ghost before = self@;
        let ghost sent = out_view(out@);
        let ghost failed = *err;
        let ghost event = event_view(message);
        let ghost mut used: PlayerMap<Seq<Card>> = arbitrary();
        let completion = match message {
            Either::Left(Inbound::Text(frame)) => {
                let completion = self.text(addr, frame);
                proof {
                    used = choose|hands: PlayerMap<Seq<Card>>|
                        {
                            &&& before.draws(*addr, frame) ==> is_deal(hands)
                            &&& (self@, completion) == #[trigger] before.after_text(
                                *addr,
                                frame,
                                hands,
                            )
                        };
                }
                completion
            },
            Either::Left(Inbound::Other) => Completion::Continue,
            Either::Left(Inbound::Failed(e)) => {
                *err = Err(e);
                Completion::Finished
            },
            Either::Left(Inbound::Closed) => Completion::Finished,
            Either::Right(Signal::Transmit(o)) => {
                proof {
                    assert(out@.push(o).map_values(|message: Outbound| message@) =~= out_view(
                        out@,
                    ).push(o@));
                }
                out.push(o);
                Completion::Continue
            },
            Either::Right(Signal::Leaving(_)) => Completion::Continue,
        };
        proof {
            use_type_invariant(&self.state);
            assert((self@, out_view(out@), *err, completion) == after_event(
                before,
                sent,
                failed,
                *addr,
                event,
                used,
            ));
        }
        completion
    }

    /// A connection comes to the table.
    pub fn enter(&mut self, a: ConnId)
        ensures
            final(self)@ == old(self)@.after_enter(a),
            final(self)@.well_formed(),
    {
        let ghost before = self@;
        proof {
            assert(signals_view(Seq::empty()) =~= Seq::<SignalView>::empty());
            assert(mail_view(self.room@.insert(a, Seq::empty())) =~= before.mail.insert(
                a,
                Seq::empty(),
            ));
        }
        self.room.enter(a);
        let mut state = TableStates::placeholder();
        std::mem::swap(&mut self.state, &mut state);
        proof {
            use_type_invariant(&state);
        }
        match state {
            TableStates::Lobby(mut table_state) => {
                let player = match table_state.players.get_player(&Some(a)) {
                    Some(held) => Some(held),
                    None => table_state.players.get_player(&None),
                };

                if let Some(player) = player {
                    *table_state.players.get_value_mut(player) = Some(a);
                }
                let signal = Signal::Transmit(Table::table_info(player, &table_state));
                proof {
                    lemma_sent_to(self.room@, a, signal);
                }
                self.room.send_to(&a, signal);
                self.state = TableStates::Lobby(table_state);
            },
            other => {
                self.state = other;
            },
        }
    }

    /// A connection leaves the table.
    pub fn leave(&mut self, a: ConnId)
        ensures
            final(self)@ == old(self)@.after_leave(a),
            final(self)@.well_formed(),
    {
        broadcast use vstd::std_specs::hash::group_hash_axioms;

        let ghost before = self@;
        proof {
            assert(mail_view(self.room@.remove(a)) =~= before.mail.remove(a));
        }
        self.room.leave(&a);
        let mut state = TableStates::placeholder();
        std::mem::swap(&mut self.state, &mut state);
        proof {
            use_type_invariant(&state);
        }
        match state {
            TableStates::Lobby(mut table_state) => {
                let player = table_state.players.get_player(&Some(a));
                table_state.ready.insert(a, false);

                if let Some(player) = player {
                    *table_state.players.get_value_mut(player) = None;
                }
                Table::send_table_info(&mut self.room, &table_state);
                self.state = TableStates::Lobby(table_state);
            },
            TableStates::Playing(player_map, game) => {
                let ghost mail = self.room@;
                let leaving = Signal::Leaving(a);
                let ghost told = leaving;
                self.room.broadcast(leaving);
                proof {
                    lemma_broadcast(mail, self.room@, told);
                }
                let ghost mail = self.room@;
                let back = Signal::Transmit(Outbound::Playing(PlayingResponse::BackToReady));
                let ghost told = back;
                self.room.broadcast(back);
                proof {
                    lemma_broadcast(mail, self.room@, told);
                }
                let keep = |_seat: Player, v: &ConnId| -> (kept: Option<ConnId>)
                    ensures
                        kept == (if *v != a {
                            Some(*v)
                        } else {
                            None
                        }),
                    {
                        if *v != a {
                            Some(*v)
                        } else {
                            None
                        }
                    };
                let players = player_map.map(keep);
                let mut ready: HashMap<ConnId, bool> = HashMap::new();
                if player_map.a != a {
                    ready.insert(player_map.a, true);
                }
                if player_map.b != a {
                    ready.insert(player_map.b, true);
                }
                if player_map.c != a {
                    ready.insert(player_map.c, true);
                }
                if player_map.d != a {
                    ready.insert(player_map.d, true);
                }
                let s = TableStateInternal { players, ready, game };
                proof {
                    let lobby = lobby_after_game(player_map, game@, a);
                    assert(players.get(Player::A) == lobby.players.a);
                    assert(players.get(Player::B) == lobby.players.b);
                    assert(players.get(Player::C) == lobby.players.c);
                    assert(players.get(Player::D) == lobby.players.d);
                    assert(s.ready@ =~= lobby.ready);
                    assert(s@ == lobby);
                }
                Table::send_table_info(&mut self.room, &s);
                self.state = TableStates::Lobby(s);
            },
        }
        proof {
            assert(self@.mail =~= before.after_leave(a).mail);
        }
    }

    /// Takes what waits for a connection out of its mailbox, oldest first.
    pub fn take(&mut self, a: &ConnId) -> (signals: Vec<Signal>)
        ensures
            final(self)@.state == old(self)@.state,
            final(self)@.well_formed(),
            old(self)@.mail.dom().contains(*a) ==> signals_view(signals@) == old(self)@.mail[*a]
                && final(self)@.mail == old(self)@.mail.insert(*a, Seq::empty()),
            !old(self)@.mail.dom().contains(*a) ==> signals@.len() == 0 && final(self)@.mail
                == old(self)@.mail,
    {
        let ghost before = self.room@;
        let signals = self.room.take(a);
        proof {
            use_type_invariant(&self.state);
            if before.dom().contains(*a) {
                assert(signals_view(Seq::empty()) =~= Seq::<SignalView>::empty());
                assert(mail_view(before.insert(*a, Seq::empty())) =~= mail_view(before).insert(
                    *a,
                    Seq::empty(),
                ));
            }
        }
        signals
    }

    /// The connections at the table.
    pub fn members(&self) -> (keys: Vec<ConnId>)
        ensures
            keys@.no_duplicates(),
            forall|key: ConnId| keys@.contains(key) <==> self@.mail.dom().contains(key),
    {
        self.room.keys()
    }

    /// Whether a game is played at the table.
    pub fn is_playing(&self) -> (playing: bool)
        ensures
            playing == self@.state is Playing,
    {
        match &self.state {
            TableStates::Lobby(_) => false,
            TableStates::Playing(_, _) => true,
        }
    }

    /// The seat of a connection: in the lobby the first seat it holds, in a game its seat.
    pub fn seat(&self, a: &ConnId) -> (seat: Option<Player>)
        ensures
            seat == (match self@.state {
                TableStatesView::Lobby(lobby) => seat_of(lobby.players, *a),
                TableStatesView::Playing(seats, _) => seat_in_play(seats, *a),
            }),
    {
        match &self.state {
            TableStates::Lobby(lobby) => lobby.players.get_player(&Some(*a)),
            TableStates::Playing(seats, _) => seats.get_player(a),
        }
    }

    /// The game of the table: the one that will be played, or the one that is played.
    pub fn game(&self) -> (game: &Game)
        ensures
            game@ == (match self@.state {
                TableStatesView::Lobby(lobby) => lobby.game,
                TableStatesView::Playing(_, game) => game,
            }),
    {
        match &self.state {
            TableStates::Lobby(lobby) => &lobby.game,
            TableStates::Playing(_, game) => game,
        }
    }

    /// The lobby as it is shown to a connection, while the table is in its lobby.
    pub fn snapshot(&self, a: &ConnId) -> (shown: Option<TableState>)
        ensures
            shown == (match self@.state {
                TableStatesView::Lobby(lobby) => Some(lobby.snapshot(seat_of(lobby.players, *a))),
                TableStatesView::Playing(_, _) => None,
            }),
    {
        match &self.state {
            TableStates::Lobby(lobby) => {
                match Table::table_info(lobby.players.get_player(&Some(*a)), lobby) {
                    Outbound::Table(state) => Some(state),
                    Outbound::Playing(_) => None,
                }
            },
            TableStates::Playing(_, _) => None,
        }
    }
}


/// How many seats a connection holds in a lobby.
pub open spec fn seats_held(players: PlayerMap<Option<ConnId>>, who: ConnId) -> nat {
    one_if(players.a == Some(who)) + one_if(players.b == Some(who)) + one_if(
        players.c == Some(who),
    ) + one_if(players.d == Some(who))
}

/// At a table no connection holds two seats, whatever is said at it and whoever comes
/// and goes.
pub proof fn lemma_table_stays_well_formed(
    table: TableView,
    who: ConnId,
    message: Frame,
    dealt: PlayerMap<Seq<Card>>,
    other: ConnId,
)
    requires
        table.well_formed(),
    ensures
        table.after_text(who, message, dealt).0.well_formed(),
        table.after_enter(who).well_formed(),
        table.after_leave(who).well_formed(),
        Table::fresh(dealt).well_formed(),
        table.state matches TableStatesView::Lobby(lobby) ==> seats_held(lobby.players, other) <= 1,
{
}

/// A connection that takes the seat it has just taken changes nothing: seats, readiness
/// and game are after the second command what they were after the first, whether the
/// table is then in its lobby or the game has started with the first. While the table is
/// in its lobby, every connection is shown with the second command what it was shown with
/// the first.
pub proof fn lemma_taking_a_seat_twice(
    table: TableView,
    sender: ConnId,
    seat: Player,
    first_deal: PlayerMap<Seq<Card>>,
    second_deal: PlayerMap<Seq<Card>>,
)
    requires
        table.well_formed(),
    ensures
        ({
            let command = Frame::Table(TableCommand::SetPlayer(seat));
            let once = table.after_text(sender, command, first_deal).0;
            let twice = once.after_text(sender, command, second_deal).0;
            &&& twice.state == once.state
            &&& once.state matches TableStatesView::Lobby(lobby) ==> {
                &&& lobby.players.get(seat) == Some(sender)
                &&& seats_held(lobby.players, sender) == 1
                &&& lobby.ready.dom().contains(sender) && lobby.ready[sender]
                &&& once.mail == post(table.mail, |who: ConnId| lobby.shown_to(who))
                &&& twice.mail == post(once.mail, |who: ConnId| lobby.shown_to(who))
            }
        }),
{
    let command = Frame::Table(TableCommand::SetPlayer(seat));
    match table.state {
        TableStatesView::Lobby(lobby) => {
            let once = lobby.after(sender, command);
            let twice = once.after(sender, command);
            assert(twice.ready =~= once.ready);
            assert(twice == once);
        },
        TableStatesView::Playing(_, _) => {},
    }
}

} // verus!
