//! The phases of a round and the moves that lead from one to the next.

use super::cards::{Card, Suit};
use super::deck::{is_deal, shuffle};
use super::hands::{
    give, give_all, give_unknowns, has_suit, hide_hand, holds_suit, known, reveal_hand,
    take_card, take_unknown, unknown,
};
use super::seats::{PerTeam, Player, PlayerMap, Team, NUMBER_OF_PLAYERS, NUMBER_OF_TEAMS};
use super::tricks::{takes_trick, trick_winner};
use super::vecs::{append, copy_of};
use either::Either;
use vstd::prelude::*;

verus! {

/// `either::Either`: a value of one of two types, `Left(L)` or `Right(R)`.
/// Declared with its two variants, so that verified code builds and matches it.
#[verifier::external_type_specification]
#[verifier::reject_recursive_types(L)]
#[verifier::reject_recursive_types(R)]
pub struct ExEither<L, R>(Either<L, R>);

/// The lowest bid that is accepted.
pub const MINIMUM_BID: usize = 250;

/// Bids rise from the lowest one in steps of this size.
pub const BID_INCREMENT: usize = 25;

/// A game is over once a team has scored more than this.
pub const WINNING_SCORE: usize = 2000;

/// What an observer may see of a value.
pub trait Project: View + Sized {
    /// The model of what `viewer` sees of a value whose model is `v`.
    spec fn projection(v: Self::V, viewer: Player) -> Self::V;

    fn project(&self, player: Player) -> (seen: Self)
        ensures
            seen@ == Self::projection(self@, player),
    ;
}

/// What a round holds in one of its phases, beside what every phase holds.
pub trait Phase: Project {
    /// The most that a team can have scored while a round is in this phase.
    spec fn score_limit() -> nat;

    fn duplicate(&self) -> (copy: Self)
        ensures
            copy@ == self@,
    ;
}

/// Bidding: the seat whose turn it is to bid.
#[derive(Debug, PartialEq, Clone)]
pub struct BiddingState(Player);

impl View for BiddingState {
    type V = Player;

    closed spec fn view(&self) -> Player {
        self.0
    }
}

impl Project for BiddingState {
    open spec fn projection(v: Player, viewer: Player) -> Player {
        v
    }

    fn project(&self, _player: Player) -> (seen: Self) {
        Self(self.0)
    }
}

impl Phase for BiddingState {
    open spec fn score_limit() -> nat {
        WINNING_SCORE as nat
    }

    fn duplicate(&self) -> (copy: Self) {
        Self(self.0)
    }
}

/// Selecting trump: the seat that won the bidding.
#[derive(Debug, PartialEq, Clone)]
pub struct SelectingTrumpState(Player);

impl View for SelectingTrumpState {
    type V = Player;

    closed spec fn view(&self) -> Player {
        self.0
    }
}

impl Project for SelectingTrumpState {
    open spec fn projection(v: Player, viewer: Player) -> Player {
        v
    }

    fn project(&self, _player: Player) -> (seen: Self) {
        let SelectingTrumpState(a) = self;
        SelectingTrumpState(*a)
    }
}

impl Phase for SelectingTrumpState {
    open spec fn score_limit() -> nat {
        WINNING_SCORE as nat
    }

    fn duplicate(&self) -> (copy: Self) {
        Self(self.0)
    }
}

/// The model of a phase in which four cards go from one seat to the seat across.
pub struct Passing {
    /// The seat that gives the cards.
    pub turn: Player,
    pub trump: Suit,
}

/// Passing cards: the teammate of the bidder passes four cards to the bidder.
#[derive(Debug, PartialEq, Clone)]
pub struct PassingCardsState {
    turn: Player,
    trump: Suit,
}

impl View for PassingCardsState {
    type V = Passing;

    closed spec fn view(&self) -> Passing {
        Passing { turn: self.turn, trump: self.trump }
    }
}

impl Project for PassingCardsState {
    open spec fn projection(v: Passing, viewer: Player) -> Passing {
        v
    }

    fn project(&self, _player: Player) -> (seen: Self) {
        Self { turn: self.turn, trump: self.trump }
    }
}

impl Phase for PassingCardsState {
    open spec fn score_limit() -> nat {
        WINNING_SCORE as nat
    }

    fn duplicate(&self) -> (copy: Self) {
        Self { turn: self.turn, trump: self.trump }
    }
}

/// Returning cards: the bidder passes four cards back.
#[derive(Debug, PartialEq, Clone)]
pub struct ReturningCardsState {
    turn: Player,
    trump: Suit,
}

impl View for ReturningCardsState {
    type V = Passing;

    closed spec fn view(&self) -> Passing {
        Passing { turn: self.turn, trump: self.trump }
    }
}

impl Project for ReturningCardsState {
    open spec fn projection(v: Passing, viewer: Player) -> Passing {
        v
    }

    fn project(&self, _player: Player) -> (seen: Self) {
        Self { turn: self.turn, trump: self.trump }
    }
}

impl Phase for ReturningCardsState {
    open spec fn score_limit() -> nat {
        WINNING_SCORE as nat
    }

    fn duplicate(&self) -> (copy: Self) {
        Self { turn: self.turn, trump: self.trump }
    }
}

/// What every phase of a round holds, with what the phase itself holds.
#[derive(Debug, PartialEq)]
pub struct Active<T: Phase> {
    hands: PlayerMap<Vec<Option<Card>>>,
    scores: [usize; NUMBER_OF_TEAMS],
    bids: Vec<Option<usize>>,
    initial_bidder: Player,
    state: T,
}

/// The model of a round in one of its phases.
pub struct Round<S> {
    /// The hand of each seat. `None` stands for a card that the holder of this value does not know.
    pub hands: PlayerMap<Seq<Option<Card>>>,
    pub scores: PerTeam<usize>,
    /// The bids made in this round, oldest first. `None` is a pass.
    pub bids: Seq<Option<usize>>,
    /// The seat that bid first in this round.
    pub initial_bidder: Player,
    pub state: S,
}

impl<S> Round<S> {
    /// The same round in another phase.
    pub open spec fn enter<S2>(self, state: S2) -> Round<S2> {
        Round {
            hands: self.hands,
            scores: self.scores,
            bids: self.bids,
            initial_bidder: self.initial_bidder,
            state,
        }
    }
}

impl<T: Phase> View for Active<T> {
    type V = Round<T::V>;

    closed spec fn view(&self) -> Round<T::V> {
        Round {
            hands: self.hands@,
            scores: PerTeam { ac: self.scores[0], bd: self.scores[1] },
            bids: self.bids@,
            initial_bidder: self.initial_bidder,
            state: self.state@,
        }
    }
}

impl<T: Phase> Clone for Active<T> {
    fn clone(&self) -> (copy: Self)
        ensures
            copy@ == self@,
    {
        proof {
            use_type_invariant(self);
        }
        Self {
            hands: PlayerMap::new(
                copy_of(&self.hands.a),
                copy_of(&self.hands.b),
                copy_of(&self.hands.c),
                copy_of(&self.hands.d),
            ),
            scores: self.scores,
            bids: copy_of(&self.bids),
            initial_bidder: self.initial_bidder,
            state: self.state.duplicate(),
        }
    }
}

pub type Bidding = Active<BiddingState>;

pub type SelectingTrump = Active<SelectingTrumpState>;

pub type PassingCards = Active<PassingCardsState>;

pub type ReturningCards = Active<ReturningCardsState>;

impl<T: Phase> Active<T> {
    #[verifier::type_invariant]
    spec fn within_limits(self) -> bool {
        self.scores[0] <= T::score_limit() && self.scores[1] <= T::score_limit()
    }

    pub fn hand(&self, p: Player) -> (hand: &[Option<Card>])
        ensures
            hand@ == self@.hands.get(p),
    {
        self.hands.get_value(p).as_slice()
    }

    pub fn score(&self, team: Team) -> (score: usize)
        ensures
            score == self@.scores.of(team),
            score <= T::score_limit(),
    {
        proof {
            use_type_invariant(self);
        }
        self.scores[team.index()]
    }

    pub fn bids(&self) -> (bids: &[Option<usize>])
        ensures
            bids@ == self@.bids,
    {
        self.bids.as_slice()
    }

    pub fn initial_bidder(&self) -> (seat: Player)
        ensures
            seat == self@.initial_bidder,
    {
        self.initial_bidder
    }
}

/// Why a bid or a pass is refused after `bids`, or `None` where it is accepted.
pub open spec fn bid_refusal(bids: Seq<Option<usize>>, bid: Option<usize>) -> Option<Seq<char>> {
    match bid {
        Some(amount) => {
            if amount < MINIMUM_BID {
                Some("Must bid be at least 250"@)
            } else if (amount - MINIMUM_BID) % (BID_INCREMENT as int) != 0 {
                Some("Must bid in increments of 25"@)
            } else if exists|i: int| 0 <= i < bids.len() && bids[i] is Some && bids[i]->0 >= amount {
                Some("Bid must be higher than any bid"@)
            } else {
                None
            }
        },
        None => {
            if bids.len() == 0 {
                Some("First bidder must not pass"@)
            } else {
                None
            }
        },
    }
}

/// Whether a bid takes the lead from the bid that holds it: a pass never does,
/// and an amount does from a pass and from any lower amount.
pub open spec fn outbids(challenger: Option<usize>, holder: Option<usize>) -> bool {
    challenger is Some && (holder is Some ==> challenger->0 > holder->0)
}

/// Where the winning bid stands in `bids`: the highest amount, the earliest of them
/// where several are equal, and the first bid where all have passed.
pub open spec fn winning_index(bids: Seq<Option<usize>>) -> int
    decreases bids.len(),
{
    if bids.len() <= 1 {
        0
    } else {
        let earlier = winning_index(bids.drop_last());
        if outbids(bids.last(), bids[earlier]) {
            bids.len() - 1
        } else {
            earlier
        }
    }
}

/// What a bid or a pass makes of a round in its bidding phase: the round as it was with the
/// reason, where the bid is refused; else the round with the bid recorded, which after the
/// fourth bid is a round that waits for the winner to name trump. The bidder of `bids[i]` is
/// taken to sit `i` places to the left of the seat that would bid next.
pub open spec fn bid_outcome(round: Round<Player>, bid: Option<usize>) -> Either<
    (Round<Player>, Option<Seq<char>>),
    Round<Player>,
> {
    match bid_refusal(round.bids, bid) {
        Some(why) => Either::Left((round, Some(why))),
        None => {
            let bids = round.bids.push(bid);
            let turn = round.state.spec_next();
            if bids.len() < NUMBER_OF_PLAYERS {
                Either::Left((Round { bids, state: turn, ..round }, None))
            } else {
                Either::Right(
                    Round { bids, state: turn.ahead(winning_index(bids) as nat), ..round },
                )
            }
        },
    }
}

/// The model of what `bid` and `pass` return.
pub open spec fn bid_outcome_view(
    outcome: Either<(Bidding, Option<&'static str>), SelectingTrump>,
) -> Either<(Round<Player>, Option<Seq<char>>), Round<Player>> {
    match outcome {
        Either::Left((bidding, None)) => Either::Left((bidding@, None)),
        Either::Left((bidding, Some(why))) => Either::Left((bidding@, Some(why@))),
        Either::Right(selecting) => Either::Right(selecting@),
    }
}

/// Whether some bid in `bids` is an amount of at least `amount`.
fn any_bid_reaches(bids: &Vec<Option<usize>>, amount: usize) -> (found: bool)
    ensures
        found == exists|i: int| 0 <= i < bids@.len() && bids@[i] is Some && bids@[i]->0 >= amount,
{
    let mut i: usize = 0;
    while i < bids.len()
        invariant
            i <= bids@.len(),
            forall|j: int| 0 <= j < i ==> !(bids@[j] is Some && bids@[j]->0 >= amount),
        decreases bids@.len() - i,
    {
        if let Some(earlier) = bids[i] {
            if earlier >= amount {
                return true;
            }
        }
        i += 1;
    }
    false
}

/// The seat of the winning bid, where the bidder of `bids[i]` sits `i` places to the left of `first`.
fn highest_bidder(bids: &Vec<Option<usize>>, first: Player) -> (winner: Player)
    ensures
        winner == first.ahead(winning_index(bids@) as nat),
        0 <= winning_index(bids@),
{
    let mut winner = first;
    let mut seat = first;
    let mut best: usize = 0;
    let mut i: usize = 0;
    while i < bids.len()
        invariant
            i <= bids@.len(),
            best == winning_index(bids@.take(i as int)),
            0 <= best <= i,
            i > 0 ==> best < i,
            winner == first.ahead(best as nat),
            seat == first.ahead(i as nat),
        decreases bids@.len() - i,
    {
        proof {
            assert(bids@.take(i + 1).drop_last() =~= bids@.take(i as int));
        }
        if i > 0 {
            let takes_lead = match bids[i] {
                Some(amount) => match bids[best] {
                    Some(held) => amount > held,
                    None => true,
                },
                None => false,
            };
            if takes_lead {
                best = i;
                winner = seat;
            }
        }
        seat = seat.next();
        i += 1;
    }
    proof {
        assert(bids@.take(bids@.len() as int) =~= bids@);
    }
    winner
}

impl Bidding {
    /// A round that starts: nothing bid, nothing scored, `first_player` to bid.
    pub fn new(first_player: Player, hands: PlayerMap<Vec<Option<Card>>>) -> (bidding: Bidding)
        ensures
            bidding@ == (Round {
                hands: hands@,
                scores: PerTeam { ac: 0, bd: 0 },
                bids: Seq::<Option<usize>>::empty(),
                initial_bidder: first_player,
                state: first_player,
            }),
    {
        Active {
            hands,
            bids: Vec::new(),
            scores: [0, 0],
            initial_bidder: first_player,
            state: BiddingState(first_player),
        }
    }

    pub fn pass(self) -> (outcome: Either<(Bidding, Option<&'static str>), SelectingTrump>)
        ensures
            bid_outcome_view(outcome) == bid_outcome(self@, None),
    {
        self.do_bid(None)
    }

    pub fn bid(self, amount: usize) -> (outcome: Either<
        (Bidding, Option<&'static str>),
        SelectingTrump,
    >)
        ensures
            bid_outcome_view(outcome) == bid_outcome(self@, Some(amount)),
    {
        self.do_bid(Some(amount))
    }

    pub fn turn(&self) -> (seat: Player)
        ensures
            seat == self@.state,
    {
        self.state.0
    }

    fn do_bid(self, amount: Option<usize>) -> (outcome: Either<
        (Bidding, Option<&'static str>),
        SelectingTrump,
    >)
        ensures
            bid_outcome_view(outcome) == bid_outcome(self@, amount),
    {
        proof {
            use_type_invariant(&self);
        }
        if let Some(amount) = amount {
            if amount < MINIMUM_BID {
                return Either::Left((self, Some("Must bid be at least 250")));
            }
            if (amount - MINIMUM_BID) % BID_INCREMENT != 0 {
                return Either::Left((self, Some("Must bid in increments of 25")));
            }
            if any_bid_reaches(&self.bids, amount) {
                return Either::Left((self, Some("Bid must be higher than any bid")));
            }
        }
        if amount.is_none() && self.bids.len() == 0 {
            return Either::Left((self, Some("First bidder must not pass")));
        }
        let Active { hands, scores, mut bids, initial_bidder, state } = self;
        bids.push(amount);
        let turn = state.0.next();
        if bids.len() < NUMBER_OF_PLAYERS {
            let bidding = Active { hands, scores, bids, initial_bidder, state: BiddingState(turn) };
            Either::Left((bidding, None))
        } else {
            let winner = highest_bidder(&bids, turn);
            Either::Right(
                Active { hands, scores, bids, initial_bidder, state: SelectingTrumpState(winner) },
            )
        }
    }
}

/// The round after the winner of the bidding has named `suit` as trump: the teammate of the
/// winner is to pass four cards.
pub open spec fn select_outcome(round: Round<Player>, suit: Suit) -> Round<Passing> {
    round.enter(Passing { turn: round.state.spec_teammate(), trump: suit })
}

impl SelectingTrump {
    pub fn turn(&self) -> (seat: Player)
        ensures
            seat == self@.state,
    {
        self.state.0
    }

    /// Names trump. The teammate of the bidder then passes first.
    pub fn select(self, suit: Suit) -> (passing: PassingCards)
        ensures
            passing@ == select_outcome(self@, suit),
    {
        proof {
            use_type_invariant(&self);
        }
        let Active { hands, scores, bids, initial_bidder, state } = self;
        Active {
            scores,
            bids,
            hands,
            initial_bidder,
            state: PassingCardsState { turn: state.0.teammate(), trump: suit },
        }
    }
}


/// The hand of `seat` as `viewer` sees it: the viewer's own as it is, and of any other hand
/// only how many cards it holds.
pub open spec fn seen_hand(hand: Seq<Option<Card>>, seat: Player, viewer: Player) -> Seq<
    Option<Card>,
> {
    if seat == viewer {
        hand
    } else {
        unknown(hand.len())
    }
}

/// The four hands as `viewer` sees them.
pub open spec fn seen_hands(hands: PlayerMap<Seq<Option<Card>>>, viewer: Player) -> PlayerMap<
    Seq<Option<Card>>,
> {
    PlayerMap {
        a: seen_hand(hands.a, Player::A, viewer),
        b: seen_hand(hands.b, Player::B, viewer),
        c: seen_hand(hands.c, Player::C, viewer),
        d: seen_hand(hands.d, Player::D, viewer),
    }
}

impl<T: Phase> Project for Active<T> {
    open spec fn projection(v: Round<T::V>, viewer: Player) -> Round<T::V> {
        Round {
            hands: seen_hands(v.hands, viewer),
            scores: v.scores,
            bids: v.bids,
            initial_bidder: v.initial_bidder,
            state: T::projection(v.state, viewer),
        }
    }

    fn project(&self, player: Player) -> (seen: Self) {
        proof {
            use_type_invariant(self);
        }
        let seen = |p: Player, x: &Vec<Option<Card>>| -> (h: Vec<Option<Card>>)
            ensures
                h@ == seen_hand(x@, p, player),
            {
                if p == player {
                    copy_of(x)
                } else {
                    hide_hand(x)
                }
            };
        let hands = self.hands.map(seen);
        proof {
            assert(hands.get(Player::A)@ == seen_hands(self.hands@, player).a);
            assert(hands.get(Player::B)@ == seen_hands(self.hands@, player).b);
            assert(hands.get(Player::C)@ == seen_hands(self.hands@, player).c);
            assert(hands.get(Player::D)@ == seen_hands(self.hands@, player).d);
        }
        Self {
            hands,
            scores: self.scores,
            bids: copy_of(&self.bids),
            initial_bidder: self.initial_bidder,
            state: self.state.project(player),
        }
    }
}

/// The model of an optional choice of four cards.
pub open spec fn chosen(cards: Option<[Card; 4]>) -> Option<Seq<Card>> {
    match cards {
        Some(cards) => Some(cards@),
        None => None,
    }
}

/// What becomes of two hands when four cards pass from the first to the second: the cards
/// leave the giver one after the other and join the taker behind the cards it has. Where the
/// cards are not named, four placeholders pass. `None` where the giver cannot give them.
pub open spec fn pass_outcome(
    giver: Seq<Option<Card>>,
    taker: Seq<Option<Card>>,
    cards: Option<Seq<Card>>,
) -> Option<(Seq<Option<Card>>, Seq<Option<Card>>)> {
    match cards {
        Some(cards) => match give_all(giver, cards) {
            Some(rest) => Some((rest, taker + known(cards))),
            None => None,
        },
        None => match give_unknowns(giver, 4) {
            Some(rest) => Some((rest, taker + unknown(4))),
            None => None,
        },
    }
}

/// The hands after `giver` has passed four cards to the seat across, or `None` where it
/// cannot give them.
pub open spec fn hands_after_pass(
    hands: PlayerMap<Seq<Option<Card>>>,
    giver: Player,
    cards: Option<Seq<Card>>,
) -> Option<PlayerMap<Seq<Option<Card>>>> {
    match pass_outcome(hands.get(giver), hands.get(giver.spec_teammate()), cards) {
        Some((rest, grown)) => Some(hands.with(giver, rest).with(giver.spec_teammate(), grown)),
        None => None,
    }
}

/// The round after the teammate of the bidder has passed four cards to the bidder, who is
/// then to pass four back; `None` where the cards cannot be given.
pub open spec fn passing_outcome(round: Round<Passing>, cards: Option<Seq<Card>>) -> Option<
    Round<Passing>,
> {
    match hands_after_pass(round.hands, round.state.turn, cards) {
        Some(hands) => Some(
            Round {
                hands,
                ..round.enter(
                    Passing { turn: round.state.turn.spec_teammate(), trump: round.state.trump },
                )
            },
        ),
        None => None,
    }
}

/// The round after the bidder has passed four cards back: the bidder is to lead the first
/// trick. `None` where the cards cannot be given.
pub open spec fn returning_outcome(round: Round<Passing>, cards: Option<Seq<Card>>) -> Option<
    Round<Trick>,
> {
    match hands_after_pass(round.hands, round.state.turn, cards) {
        Some(hands) => Some(Round { hands, ..round.enter(first_trick(round.state)) }),
        None => None,
    }
}

fn pass_cards(
    hand1: Vec<Option<Card>>,
    hand2: Vec<Option<Card>>,
    cards: Option<[Card; 4]>,
) -> (passed: Result<(Vec<Option<Card>>, Vec<Option<Card>>), String>)
    ensures
        match pass_outcome(hand1@, hand2@, chosen(cards)) {
            Some((rest, grown)) => passed matches Ok((giver, taker)) && giver@ == rest && taker@
                == grown,
            None => passed matches Err(why) && why@ == "Card not in hand to pass"@,
        },
{
    let mut giver = hand1;
    let mut taker = hand2;
    if let Some(four) = cards {
        proof {
            assert(four@.skip(0) =~= four@);
        }
        let mut i: usize = 0;
        while i < 4
            invariant
                i <= 4,
                cards == Some(four),
                four@.len() == 4,
                give_all(hand1@, four@) == give_all(giver@, four@.skip(i as int)),
            ensures
                i == 4,
            decreases 4 - i,
        {
            proof {
                assert(four@.skip(i as int).drop_first() =~= four@.skip(i + 1));
                assert(four@.skip(i as int)[0] == four@[i as int]);
            }
            // first the known card, and where the hand does not hold it, some unknown card
            if !take_card(&mut giver, four[i]) {
                assert(give_all(hand1@, four@) is None);
                return Err("Card not in hand to pass".to_owned());
            }
            i += 1;
        }
        proof {
            assert(four@.skip(4) =~= Seq::<Card>::empty());
            assert(give_all(hand1@, four@) == Some(giver@));
        }
    } else {
        // where the passed cards are not known, four unknown cards leave the hand
        let mut i: usize = 0;
        while i < 4
            invariant
                i <= 4,
                cards is None,
                give_unknowns(hand1@, 4) == give_unknowns(giver@, (4 - i) as nat),
            ensures
                i == 4,
            decreases 4 - i,
        {
            if !take_unknown(&mut giver) {
                assert(give_unknowns(hand1@, 4) is None);
                return Err("Card not in hand to pass".to_owned());
            }
            i += 1;
        }
        proof {
            assert(give_unknowns(hand1@, 4) == Some(giver@));
        }
    }

    // the cards join the other hand
    if let Some(four) = cards {
        let mut i: usize = 0;
        while i < 4
            invariant
                i <= 4,
                four@.len() == 4,
                taker@ == hand2@ + known(four@).take(i as int),
            decreases 4 - i,
        {
            taker.push(Some(four[i]));
            proof {
                assert(taker@ =~= hand2@ + known(four@).take(i + 1));
            }
            i += 1;
        }
        proof {
            assert(known(four@).take(4) =~= known(four@));
        }
    } else {
        let mut i: usize = 0;
        while i < 4
            invariant
                i <= 4,
                taker@ == hand2@ + unknown(i as nat),
            decreases 4 - i,
        {
            taker.push(None);
            proof {
                assert(taker@ =~= hand2@ + unknown((i + 1) as nat));
            }
            i += 1;
        }
    }

    Ok((giver, taker))
}

/// Passes four cards from `giver` to the seat across. Where the giver cannot give them, the
/// hands come back as they were, with the reason.
fn pass_between(
    hands: PlayerMap<Vec<Option<Card>>>,
    giver: Player,
    cards: Option<[Card; 4]>,
) -> (passed: Result<PlayerMap<Vec<Option<Card>>>, (PlayerMap<Vec<Option<Card>>>, String)>)
    ensures
        match hands_after_pass(hands@, giver, chosen(cards)) {
            Some(after) => passed matches Ok(now) && now@ == after,
            None => passed matches Err((kept, why)) && kept@ == hands@ && why@
                == "Card not in hand to pass"@,
        },
{
    let src = giver;
    let dst = src.teammate();

    let mut hands = hands;
    let ghost before = hands@;

    match pass_cards(copy_of(hands.get_value(src)), copy_of(hands.get_value(dst)), cards) {
        Ok((new_src, new_dst)) => {
            *hands.get_value_mut(src) = new_src;
            *hands.get_value_mut(dst) = new_dst;
            proof {
                assert(hands@ == before.with(src, new_src@).with(dst, new_dst@));
            }
            Ok(hands)
        },
        Err(why) => Err((hands, why)),
    }
}

impl PassingCards {
    pub fn turn(&self) -> (seat: Player)
        ensures
            seat == self@.state.turn,
    {
        self.state.turn
    }

    pub fn trump(&self) -> (suit: Suit)
        ensures
            suit == self@.state.trump,
    {
        self.state.trump
    }

    /// The teammate of the bidder passes four cards to the bidder, who then passes four back.
    pub fn pass(self, cards: Option<[Card; 4]>) -> (passed: Result<ReturningCards, String>)
        ensures
            match passing_outcome(self@, chosen(cards)) {
                Some(next) => passed matches Ok(returning) && returning@ == next,
                None => passed matches Err(why) && why@ == "Card not in hand to pass"@,
            },
    {
        match self.try_pass(cards) {
            Ok(returning) => Ok(returning),
            Err((_, why)) => Err(why),
        }
    }

    /// As `pass`, but a round that cannot pass the cards comes back as it was.
    pub fn try_pass(self, cards: Option<[Card; 4]>) -> (passed: Result<
        ReturningCards,
        (PassingCards, String),
    >)
        ensures
            match passing_outcome(self@, chosen(cards)) {
                Some(next) => passed matches Ok(returning) && returning@ == next,
                None => passed matches Err((kept, why)) && kept@ == self@ && why@
                    == "Card not in hand to pass"@,
            },
    {
        proof {
            use_type_invariant(&self);
        }
        let Active { hands, scores, bids, initial_bidder, state } = self;
        match pass_between(hands, state.turn, cards) {
            Ok(hands) => Ok(
                Active {
                    scores,
                    bids,
                    hands,
                    initial_bidder,
                    state: ReturningCardsState { turn: state.turn.teammate(), trump: state.trump },
                },
            ),
            Err((hands, why)) => Err((Active { hands, scores, bids, initial_bidder, state }, why)),
        }
    }
}

/// The model of a round in which tricks are played.
pub struct Trick {
    /// The cards of the trick that is being played, in the order they were played.
    pub play_area: Seq<Card>,
    /// The cards of the tricks that each team has taken.
    pub taken: PerTeam<Seq<Card>>,
    pub trump: Suit,
    /// The seat that plays next.
    pub turn: Player,
}

/// Playing: the trick on the table, the tricks taken, and the seat to play.
#[derive(Debug, PartialEq)]
pub struct PlayingState {
    play_area: Vec<Card>,
    taken: [Vec<Card>; NUMBER_OF_TEAMS],
    trump: Suit,
    turn: Player,
}

impl View for PlayingState {
    type V = Trick;

    closed spec fn view(&self) -> Trick {
        Trick {
            play_area: self.play_area@,
            taken: PerTeam { ac: self.taken[0]@, bd: self.taken[1]@ },
            trump: self.trump,
            turn: self.turn,
        }
    }
}

impl PlayingState {
    /// A trick of four cards is resolved before anything else happens.
    #[verifier::type_invariant]
    spec fn trick_is_open(self) -> bool {
        self.play_area@.len() < NUMBER_OF_PLAYERS
    }
}

impl Project for PlayingState {
    open spec fn projection(v: Trick, viewer: Player) -> Trick {
        v
    }

    fn project(&self, _player: Player) -> (seen: Self) {
        proof {
            use_type_invariant(self);
        }
        Self {
            turn: self.turn,
            play_area: copy_of(&self.play_area),
            taken: [copy_of(&self.taken[0]), copy_of(&self.taken[1])],
            trump: self.trump,
        }
    }
}

impl Phase for PlayingState {
    open spec fn score_limit() -> nat {
        WINNING_SCORE as nat
    }

    fn duplicate(&self) -> (copy: Self) {
        proof {
            use_type_invariant(self);
        }
        Self {
            turn: self.turn,
            play_area: copy_of(&self.play_area),
            taken: [copy_of(&self.taken[0]), copy_of(&self.taken[1])],
            trump: self.trump,
        }
    }
}

impl Clone for PlayingState {
    fn clone(&self) -> (copy: Self)
        ensures
            copy@ == self@,
    {
        self.duplicate()
    }
}

/// The model of a round that has been played out.
pub struct Tally {
    /// The cards of the tricks that each team has taken.
    pub taken: PerTeam<Seq<Card>>,
    pub trump: Suit,
}

/// Finished round: the tricks that each team has taken.
#[derive(Debug, PartialEq)]
pub struct FinishedRoundState {
    taken: [Vec<Card>; NUMBER_OF_TEAMS],
    trump: Suit,
}

impl View for FinishedRoundState {
    type V = Tally;

    closed spec fn view(&self) -> Tally {
        Tally { taken: PerTeam { ac: self.taken[0]@, bd: self.taken[1]@ }, trump: self.trump }
    }
}

impl Project for FinishedRoundState {
    open spec fn projection(v: Tally, viewer: Player) -> Tally {
        v
    }

    fn project(&self, _player: Player) -> (seen: Self) {
        Self {
            taken: [copy_of(&self.taken[0]), copy_of(&self.taken[1])],
            trump: self.trump,
        }
    }
}

impl Phase for FinishedRoundState {
    /// The round that has just been scored may have taken a team past the winning score.
    open spec fn score_limit() -> nat {
        (WINNING_SCORE + 1) as nat
    }

    fn duplicate(&self) -> (copy: Self) {
        Self {
            taken: [copy_of(&self.taken[0]), copy_of(&self.taken[1])],
            trump: self.trump,
        }
    }
}

impl Clone for FinishedRoundState {
    fn clone(&self) -> (copy: Self)
        ensures
            copy@ == self@,
    {
        self.duplicate()
    }
}

pub type Playing = Active<PlayingState>;

pub type FinishedRound = Active<FinishedRoundState>;

impl ReturningCards {
    pub fn turn(&self) -> (seat: Player)
        ensures
            seat == self@.state.turn,
    {
        self.state.turn
    }

    pub fn trump(&self) -> (suit: Suit)
        ensures
            suit == self@.state.trump,
    {
        self.state.trump
    }

    /// The bidder passes four cards back to the teammate, and then leads the first trick.
    pub fn pass(self, cards: Option<[Card; 4]>) -> (passed: Result<Playing, String>)
        ensures
            match returning_outcome(self@, chosen(cards)) {
                Some(next) => passed matches Ok(playing) && playing@ == next,
                None => passed matches Err(why) && why@ == "Card not in hand to pass"@,
            },
    {
        match self.try_pass(cards) {
            Ok(playing) => Ok(playing),
            Err((_, why)) => Err(why),
        }
    }

    /// As `pass`, but a round that cannot pass the cards comes back as it was.
    pub fn try_pass(self, cards: Option<[Card; 4]>) -> (passed: Result<
        Playing,
        (ReturningCards, String),
    >)
        ensures
            match returning_outcome(self@, chosen(cards)) {
                Some(next) => passed matches Ok(playing) && playing@ == next,
                None => passed matches Err((kept, why)) && kept@ == self@ && why@
                    == "Card not in hand to pass"@,
            },
    {
        proof {
            use_type_invariant(&self);
        }
        let Active { hands, scores, bids, initial_bidder, state } = self;
        match pass_between(hands, state.turn, cards) {
            Ok(hands) => Ok(
                Active {
                    scores,
                    bids,
                    hands,
                    initial_bidder,
                    state: PlayingState {
                        turn: state.turn,
                        play_area: Vec::new(),
                        taken: [Vec::new(), Vec::new()],
                        trump: state.trump,
                    },
                },
            ),
            Err((hands, why)) => Err((Active { hands, scores, bids, initial_bidder, state }, why)),
        }
    }
}

/// The play of a round as it starts: nothing played, nothing taken, and the seat that
/// passed last to lead.
pub open spec fn first_trick(returning: Passing) -> Trick {
    Trick {
        play_area: Seq::empty(),
        taken: PerTeam { ac: Seq::empty(), bd: Seq::empty() },
        trump: returning.trump,
        turn: returning.turn,
    }
}


/// Why `card` may not be played by the holder of `hand` on the cards in `play_area`, or
/// `None` where it may. The seat that leads may play any card, a seat that holds the suit
/// that was led follows it, and a seat that does not, but holds trump, plays trump.
pub open spec fn play_refusal(
    play_area: Seq<Card>,
    hand: Seq<Option<Card>>,
    card: Card,
    trump: Suit,
) -> Option<Seq<char>> {
    if play_area.len() == 0 {
        None
    } else if holds_suit(hand, play_area[0].suit) {
        if card.suit == play_area[0].suit {
            None
        } else {
            Some("Must follow suit"@)
        }
    } else if holds_suit(hand, trump) {
        if card.suit == trump {
            None
        } else {
            Some("Must trump"@)
        }
    } else {
        None
    }
}

pub fn is_legal(play_area: &[Card], hand: &[Option<Card>], card: &Card, trump: Suit) -> (legal:
    Result<(), &'static str>)
    ensures
        match play_refusal(play_area@, hand@, *card, trump) {
            None => legal is Ok,
            Some(why) => legal matches Err(said) && said@ == why,
        },
{
    if play_area.len() == 0 {
        Result::Ok(())
    } else {
        let intial_suit = play_area[0].suit;

        if has_suit(hand, intial_suit) {
            if intial_suit == card.suit {
                Result::Ok(())
            } else {
                Result::Err("Must follow suit")
            }
        } else {
            if has_suit(hand, trump) {
                if trump == card.suit {
                    Result::Ok(())
                } else {
                    Result::Err("Must trump")
                }
            } else {
                Result::Ok(())
            }
        }
    }
}

/// Whether a seat has no card left.
pub open spec fn some_hand_is_empty(hands: PlayerMap<Seq<Option<Card>>>) -> bool {
    hands.a.len() == 0 || hands.b.len() == 0 || hands.c.len() == 0 || hands.d.len() == 0
}

/// The round after the cards in `trick.play_area`, a full trick that `leader` led, have gone
/// to the team of the seat that takes it. That seat leads the next trick, and where a seat
/// has no card left the round is over and is scored: one point to team AC.
pub open spec fn trick_outcome(
    round: Round<Trick>,
    leader: Player,
) -> Either<(Round<Trick>, Option<Seq<char>>), Round<Tally>> {
    let trick = round.state;
    let winner = leader.ahead(trick_winner(trick.play_area, trick.trump) as nat);
    let team = winner.spec_team();
    let taken = trick.taken.with(team, trick.taken.of(team) + trick.play_area);
    if some_hand_is_empty(round.hands) {
        Either::Right(
            Round {
                scores: PerTeam { ac: (round.scores.ac + 1) as usize, bd: round.scores.bd },
                ..round.enter(Tally { taken, trump: trick.trump })
            },
        )
    } else {
        Either::Left(
            (
                round.enter(
                    Trick { play_area: Seq::empty(), taken, trump: trick.trump, turn: winner },
                ),
                None,
            ),
        )
    }
}

/// What playing `card` makes of a round in which tricks are played: the round as it was
/// with the reason, where the card may not be played or the seat to play cannot give it;
/// else the round with the card moved from the hand to the trick and the turn passed to
/// the left, and, where that was the fourth card, with the trick resolved.
pub open spec fn play_outcome(round: Round<Trick>, card: Card) -> Either<
    (Round<Trick>, Option<Seq<char>>),
    Round<Tally>,
> {
    let trick = round.state;
    let hand = round.hands.get(trick.turn);
    match play_refusal(trick.play_area, hand, card, trick.trump) {
        Some(why) => Either::Left((round, Some(why))),
        None => match give(hand, card) {
            None => Either::Left((round, Some("Card not in hand"@))),
            Some(rest) => {
                let next = trick.turn.spec_next();
                let played = Round {
                    hands: round.hands.with(trick.turn, rest),
                    state: Trick { play_area: trick.play_area.push(card), turn: next, ..trick },
                    ..round
                };
                if played.state.play_area.len() == NUMBER_OF_PLAYERS {
                    trick_outcome(played, next)
                } else {
                    Either::Left((played, None))
                }
            },
        },
    }
}

/// The model of what `Playing::play` returns.
pub open spec fn play_outcome_view(
    outcome: Either<(Playing, Option<&'static str>), FinishedRound>,
) -> Either<(Round<Trick>, Option<Seq<char>>), Round<Tally>> {
    match outcome {
        Either::Left((playing, None)) => Either::Left((playing@, None)),
        Either::Left((playing, Some(why))) => Either::Left((playing@, Some(why@))),
        Either::Right(finished) => Either::Right(finished@),
    }
}

/// The seat that takes the trick, where the seat that played `cards[i]` sits `i` places to
/// the left of `first`.
fn trick_taker(cards: &Vec<Card>, first: Player, trump: Suit) -> (winner: Player)
    requires
        cards@.len() > 0,
    ensures
        winner == first.ahead(trick_winner(cards@, trump) as nat),
{
    let led_suit = cards[0].suit;
    let mut winner = first;
    let mut seat = first.next();
    let mut best: usize = 0;
    let mut i: usize = 1;
    proof {
        reveal_with_fuel(Player::ahead, 2);
    }
    while i < cards.len()
        invariant
            1 <= i <= cards@.len(),
            led_suit == cards@[0].suit,
            best == trick_winner(cards@.take(i as int), trump),
            0 <= best < i,
            winner == first.ahead(best as nat),
            seat == first.ahead(i as nat),
        decreases cards@.len() - i,
    {
        proof {
            assert(cards@.take(i + 1).drop_last() =~= cards@.take(i as int));
        }
        // a card takes the trick only from a card that it beats: the first of two equal
        // cards keeps it
        if takes_trick(&cards[i], &cards[best], &led_suit, &trump) {
            best = i;
            winner = seat;
        }
        seat = seat.next();
        i += 1;
    }
    proof {
        assert(cards@.take(cards@.len() as int) =~= cards@);
    }
    winner
}

impl Playing {
    pub fn play_area(&self) -> (cards: &[Card])
        ensures
            cards@ == self@.state.play_area,
            cards@.len() < NUMBER_OF_PLAYERS,
    {
        proof {
            use_type_invariant(&self.state);
        }
        self.state.play_area.as_slice()
    }

    pub fn trump(&self) -> (suit: Suit)
        ensures
            suit == self@.state.trump,
    {
        self.state.trump
    }

    pub fn turn(&self) -> (seat: Player)
        ensures
            seat == self@.state.turn,
    {
        self.state.turn
    }

    /// The cards of the tricks that a team has taken so far.
    pub fn taken(&self, team: Team) -> (cards: &[Card])
        ensures
            cards@ == self@.state.taken.of(team),
    {
        self.state.taken[team.index()].as_slice()
    }

    /// The seat whose turn it is plays `card`. A fourth card resolves the trick at once, so
    /// a round that goes on never shows a full trick.
    pub fn play(self, card: Card) -> (outcome: Either<
        (Playing, Option<&'static str>),
        FinishedRound,
    >)
        ensures
            play_outcome_view(outcome) == play_outcome(self@, card),
            outcome matches Either::Left((playing, _)) ==> playing@.state.play_area.len()
                < NUMBER_OF_PLAYERS,
    {
        proof {
            use_type_invariant(&self);
            use_type_invariant(&self.state);
        }
        match is_legal(
            self.state.play_area.as_slice(),
            self.hand(self.state.turn),
            &card,
            self.state.trump,
        ) {
            Ok(_) => (),
            Err(x) => return Either::Left((self, Some(x))),
        }

        let ghost before = self@;
        let Active { mut hands, scores, bids, initial_bidder, state } = self;
        let PlayingState { mut play_area, mut taken, trump, turn } = state;

        if !take_card(hands.get_value_mut(turn), card) {
            let playing = Active {
                hands,
                scores,
                bids,
                initial_bidder,
                state: PlayingState { play_area, taken, trump, turn },
            };
            proof {
                assert(playing@.hands =~= before.hands);
            }
            return Either::Left((playing, Some("Card not in hand")));
        }
        play_area.push(card);
        let mut turn = turn.next();

        if play_area.len() == NUMBER_OF_PLAYERS {
            let first_player = turn;
            let winner = trick_taker(&play_area, first_player, trump);

            append(&mut taken[winner.team().index()], &play_area);
            play_area.clear();

            turn = winner;

            let playing = Active {
                hands,
                scores,
                bids,
                initial_bidder,
                state: PlayingState { play_area, taken, trump, turn },
            };
            if playing.any_hand_is_empty() {
                return Either::Right(playing.calculate_score());
            }
            return Either::Left((playing, None));
        }
        let playing = Active {
            hands,
            scores,
            bids,
            initial_bidder,
            state: PlayingState { play_area, taken, trump, turn },
        };
        Either::Left((playing, None))
    }

    /// Whether a seat has no card left.
    fn any_hand_is_empty(&self) -> (empty: bool)
        ensures
            empty == some_hand_is_empty(self@.hands),
    {
        self.hand(Player::A).len() == 0 || self.hand(Player::B).len() == 0 || self.hand(
            Player::C,
        ).len() == 0 || self.hand(Player::D).len() == 0
    }

    /// Scores the round that has been played out: one point to team AC.
    fn calculate_score(self) -> (finished: FinishedRound)
        ensures
            finished@ == (Round {
                scores: PerTeam { ac: (self@.scores.ac + 1) as usize, bd: self@.scores.bd },
                ..self@.enter(Tally { taken: self@.state.taken, trump: self@.state.trump })
            }),
    {
        proof {
            use_type_invariant(&self);
        }
        let Active { hands, scores, bids, initial_bidder, state } = self;
        let PlayingState { play_area: _, taken, trump, turn: _ } = state;
        Active {
            hands,
            initial_bidder,
            scores: [scores[0] + 1, scores[1]],
            bids,
            state: FinishedRoundState { taken, trump },
        }
    }
}

/// The final scores of a game that is over.
#[derive(Debug)]
pub struct Finished([usize; NUMBER_OF_TEAMS]);

impl View for Finished {
    type V = PerTeam<usize>;

    closed spec fn view(&self) -> PerTeam<usize> {
        PerTeam { ac: self.0[0], bd: self.0[1] }
    }
}

impl Finished {
    pub fn score(&self, team: Team) -> (score: usize)
        ensures
            score == self@.of(team),
    {
        self.0[team.index()]
    }
}

/// Whether a team has scored enough to end the game.
pub open spec fn is_over(scores: PerTeam<usize>) -> bool {
    scores.ac > WINNING_SCORE || scores.bd > WINNING_SCORE
}

/// The four hands with each of their cards known.
pub open spec fn known_hands(hands: PlayerMap<Seq<Card>>) -> PlayerMap<Seq<Option<Card>>> {
    PlayerMap { a: known(hands.a), b: known(hands.b), c: known(hands.c), d: known(hands.d) }
}

/// The round that follows a finished one, played with the hands `dealt`: the scores stay,
/// nothing is bid yet, and the seat to the left of the one that bid first bids first.
pub open spec fn next_round(finished: Round<Tally>, dealt: PlayerMap<Seq<Card>>) -> Round<Player> {
    Round {
        hands: known_hands(dealt),
        scores: finished.scores,
        bids: Seq::empty(),
        initial_bidder: finished.initial_bidder.spec_next(),
        state: finished.initial_bidder.spec_next(),
    }
}

impl FinishedRound {
    pub fn trump(&self) -> (suit: Suit)
        ensures
            suit == self@.state.trump,
    {
        self.state.trump
    }

    pub fn taken(&self) -> (piles: [Vec<Card>; NUMBER_OF_TEAMS])
        ensures
            piles[0]@ == self@.state.taken.ac,
            piles[1]@ == self@.state.taken.bd,
    {
        [copy_of(&self.state.taken[0]), copy_of(&self.state.taken[1])]
    }

    /// Whether the game is over with this round.
    pub fn is_last(&self) -> (over: bool)
        ensures
            over == is_over(self@.scores),
    {
        self.scores[0] > WINNING_SCORE || self.scores[1] > WINNING_SCORE
    }

    /// Goes on from a finished round: to the end of the game where a team has scored more
    /// than the winning score, else to a new round with freshly shuffled hands.
    pub fn next(self) -> (outcome: Either<Bidding, Finished>)
        ensures
            match outcome {
                Either::Left(bidding) => !is_over(self@.scores) && exists|dealt: PlayerMap<Seq<Card>>|
                    is_deal(dealt) && bidding@ == #[trigger] next_round(self@, dealt),
                Either::Right(finished) => is_over(self@.scores) && finished@ == self@.scores,
            },
    {
        if self.is_last() {
            Either::Right(self.finish())
        } else {
            let dealt = shuffle();
            let ghost hands = dealt@;
            let bidding = self.deal_next(dealt);
            proof {
                assert(is_deal(hands) && bidding@ == next_round(self@, hands));
            }
            Either::Left(bidding)
        }
    }

    /// As `next`, with the hands of the new round given.
    pub fn next_with(self, dealt: PlayerMap<Vec<Card>>) -> (outcome: Either<Bidding, Finished>)
        ensures
            match outcome {
                Either::Left(bidding) => !is_over(self@.scores) && bidding@ == next_round(
                    self@,
                    dealt@,
                ),
                Either::Right(finished) => is_over(self@.scores) && finished@ == self@.scores,
            },
    {
        if self.is_last() {
            Either::Right(self.finish())
        } else {
            Either::Left(self.deal_next(dealt))
        }
    }

    /// The end of the game.
    fn finish(self) -> (finished: Finished)
        ensures
            finished@ == self@.scores,
    {
        Finished(self.scores)
    }

    /// The next round, with the hands given.
    fn deal_next(self, dealt: PlayerMap<Vec<Card>>) -> (bidding: Bidding)
        requires
            !is_over(self@.scores),
        ensures
            bidding@ == next_round(self@, dealt@),
    {
        let Active { hands: _, scores, mut bids, initial_bidder, state: _ } = self;
        bids.clear();
        let initial_bidder = initial_bidder.next();
        Active {
            initial_bidder,
            hands: hands_to_option(dealt),
            bids,
            scores,
            state: BiddingState(initial_bidder),
        }
    }
}

pub fn hands_to_option(hands: PlayerMap<Vec<Card>>) -> (known: PlayerMap<Vec<Option<Card>>>)
    ensures
        known@ == known_hands(hands@),
{
    PlayerMap::new(
        reveal_hand(&hands.a),
        reveal_hand(&hands.b),
        reveal_hand(&hands.c),
        reveal_hand(&hands.d),
    )
}

} // verus!
