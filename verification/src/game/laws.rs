//! What holds of every game: the cards are never lost or made, the seats act in turn, and
//! what a seat is shown hides what it may not know.

use super::cards::{Card, Suit};
use super::deck::{copies, is_deal, DECK_SIZE};
use super::hands::{give, give_all, give_unknown, give_unknowns, holds_suit, known, slot_of, unknown};
use super::seats::{PerTeam, Player, PlayerMap};
use super::states::{
    bid_outcome, hands_after_pass, known_hands, next_round, play_outcome,
    play_refusal, returning_outcome, seen_hands, trick_outcome, Project, Round, Trick,
};
use super::{step, Game, GameView, Input, Step};
use either::Either;
use vstd::prelude::*;
use vstd::seq_lib::lemma_multiset_commutative;

verus! {

/// How often `slot` occurs in the four hands.
pub open spec fn held(hands: PlayerMap<Seq<Option<Card>>>, slot: Option<Card>) -> nat {
    hands.a.to_multiset().count(slot) + hands.b.to_multiset().count(slot)
        + hands.c.to_multiset().count(slot) + hands.d.to_multiset().count(slot)
}

/// How many slots the four hands have.
pub open spec fn hand_sizes(hands: PlayerMap<Seq<Option<Card>>>) -> nat {
    hands.a.len() + hands.b.len() + hands.c.len() + hands.d.len()
}

impl GameView {
    /// The cards on the table, in the phase that has a table.
    pub open spec fn play_area(self) -> Seq<Card> {
        match self {
            GameView::Playing(r) => r.state.play_area,
            _ => Seq::empty(),
        }
    }

    /// The tricks taken, in the phases that have them.
    pub open spec fn taken(self) -> PerTeam<Seq<Card>> {
        match self {
            GameView::Playing(r) => r.state.taken,
            GameView::FinishedRound(r) => r.state.taken,
            _ => PerTeam { ac: Seq::empty(), bd: Seq::empty() },
        }
    }

    /// The hands, and no hands for a game that is over.
    pub open spec fn dealt(self) -> PlayerMap<Seq<Option<Card>>> {
        match self.hands() {
            Some(hands) => hands,
            None => PlayerMap { a: Seq::empty(), b: Seq::empty(), c: Seq::empty(), d: Seq::empty() },
        }
    }

    /// How often `card` is seen in the game: as a known card of a hand, on the table, and
    /// among the tricks taken.
    pub open spec fn copies_of(self, card: Card) -> nat {
        held(self.dealt(), Some(card)) + copies(self.play_area(), card) + copies(
            self.taken().ac,
            card,
        ) + copies(self.taken().bd, card)
    }

    /// How many cards of the hands are hidden.
    pub open spec fn placeholders(self) -> nat {
        held(self.dealt(), None)
    }

    /// How many cards the game holds, known or hidden.
    pub open spec fn card_count(self) -> nat {
        hand_sizes(self.dealt()) + self.play_area().len() + self.taken().ac.len()
            + self.taken().bd.len()
    }

    /// Whether the game holds the double deck with every card known: 48 cards, each card twice.
    pub open spec fn holds_double_deck(self) -> bool {
        &&& self.card_count() == DECK_SIZE
        &&& self.placeholders() == 0
        &&& forall|card: Card| self.copies_of(card) == 2
    }
}

/// A sequence of one item holds that item once and nothing else.
proof fn lemma_single_count<A>(item: A, other: A)
    ensures
        seq![item].to_multiset().count(other) == (if item == other {
            1nat
        } else {
            0nat
        }),
        Seq::<A>::empty().to_multiset().count(other) == 0,
{
    let none = Seq::<A>::empty();
    none.to_multiset_ensures();
    assert(!none.contains(other));
    assert(none.push(item) =~= seq![item]);
    assert(none.push(item).to_multiset() =~= none.to_multiset().insert(item));
}

/// Cards put end to end are counted together.
pub proof fn lemma_count_of_joined<A>(first: Seq<A>, second: Seq<A>, item: A)
    ensures
        (first + second).to_multiset().count(item) == first.to_multiset().count(item)
            + second.to_multiset().count(item),
{
    lemma_multiset_commutative(first, second);
}

/// Known cards are counted as the cards they are, and none of them is a placeholder.
pub proof fn lemma_known_counts(cards: Seq<Card>, card: Card)
    ensures
        known(cards).to_multiset().count(Some(card)) == copies(cards, card),
        known(cards).to_multiset().count(None) == 0,
    decreases cards.len(),
{
    if cards.len() == 0 {
        assert(known(cards) =~= Seq::<Option<Card>>::empty());
        assert(cards =~= Seq::<Card>::empty());
        lemma_single_count::<Option<Card>>(None, Some(card));
        lemma_single_count::<Option<Card>>(None, None);
        lemma_single_count::<Card>(card, card);
    } else {
        let front = cards.drop_last();
        let last = cards.last();
        lemma_known_counts(front, card);
        assert(cards =~= front.push(last));
        assert(known(cards) =~= known(front).push(Some(last)));
        front.to_multiset_ensures();
        known(front).to_multiset_ensures();
        assert(front.push(last).to_multiset() =~= front.to_multiset().insert(last));
        assert(known(front).push(Some(last)).to_multiset() =~= known(front).to_multiset().insert(
            Some(last),
        ));
    }
}

/// Placeholders are counted as placeholders.
pub proof fn lemma_unknown_counts(count: nat, slot: Option<Card>)
    ensures
        unknown(count).to_multiset().count(slot) == (if slot is None {
            count
        } else {
            0nat
        }),
    decreases count,
{
    if count == 0 {
        assert(unknown(count) =~= Seq::<Option<Card>>::empty());
        lemma_single_count::<Option<Card>>(None, slot);
    } else {
        let fewer = (count - 1) as nat;
        lemma_unknown_counts(fewer, slot);
        assert(unknown(count) =~= unknown(fewer).push(None));
        unknown(fewer).to_multiset_ensures();
        assert(unknown(fewer).push(None).to_multiset() =~= unknown(fewer).to_multiset().insert(
            None,
        ));
    }
}

/// A hand that gives a card loses one slot: the card itself where it holds it, else a
/// placeholder. Every other slot is counted as before.
pub proof fn lemma_give_counts(hand: Seq<Option<Card>>, card: Card, slot: Option<Card>)
    requires
        give(hand, card) is Some,
    ensures
        ({
            let rest = give(hand, card)->0;
            let given = if hand.contains(Some(card)) {
                Some(card)
            } else {
                None
            };
            &&& rest.len() + 1 == hand.len()
            &&& hand.to_multiset().count(given) > 0
            &&& rest.to_multiset().count(slot) + (if slot == given {
                1nat
            } else {
                0nat
            }) == hand.to_multiset().count(slot)
        }),
{
    hand.index_of_first_ensures(Some(card));
    hand.index_of_first_ensures(None);
    hand.to_multiset_ensures();
    let i = slot_of(hand, card)->0;
    assert(hand.remove(i).to_multiset() =~= hand.to_multiset().remove(hand[i]));
}

/// A hand that gives a placeholder loses one, and every other slot is counted as before.
pub proof fn lemma_give_unknown_counts(hand: Seq<Option<Card>>, slot: Option<Card>)
    requires
        give_unknown(hand) is Some,
    ensures
        ({
            let rest = give_unknown(hand)->0;
            &&& rest.len() + 1 == hand.len()
            &&& rest.to_multiset().count(slot) + (if slot is None {
                1nat
            } else {
                0nat
            }) == hand.to_multiset().count(slot)
        }),
{
    hand.index_of_first_ensures(None);
    hand.to_multiset_ensures();
    let i = hand.index_of_first(None)->0;
    assert(hand.remove(i).to_multiset() =~= hand.to_multiset().remove(hand[i]));
}

/// A hand without placeholders that gives cards loses exactly these cards.
pub proof fn lemma_give_all_counts(hand: Seq<Option<Card>>, cards: Seq<Card>, slot: Option<Card>)
    requires
        give_all(hand, cards) is Some,
    ensures
        give_all(hand, cards)->0.len() + cards.len() == hand.len(),
        hand.to_multiset().count(None) == 0 ==> give_all(hand, cards)->0.to_multiset().count(slot)
            + known(cards).to_multiset().count(slot) == hand.to_multiset().count(slot),
    decreases cards.len(),
{
    if cards.len() == 0 {
        assert(known(cards) =~= Seq::<Option<Card>>::empty());
        lemma_single_count::<Option<Card>>(None, slot);
    } else {
        let first = cards[0];
        let rest = give(hand, first)->0;
        lemma_give_counts(hand, first, slot);
        lemma_give_counts(hand, first, None);
        lemma_give_all_counts(rest, cards.drop_first(), slot);
        assert(known(cards) =~= seq![Some(first)] + known(cards.drop_first()));
        lemma_count_of_joined(seq![Some(first)], known(cards.drop_first()), slot);
        lemma_single_count::<Option<Card>>(Some(first), slot);
        if hand.to_multiset().count(None) == 0 {
            hand.to_multiset_ensures();
            assert(!hand.contains(None));
            assert(hand.contains(Some(first)));
        }
    }
}

/// A hand that gives placeholders loses exactly these placeholders.
pub proof fn lemma_give_unknowns_counts(hand: Seq<Option<Card>>, count: nat, slot: Option<Card>)
    requires
        give_unknowns(hand, count) is Some,
    ensures
        give_unknowns(hand, count)->0.len() + count == hand.len(),
        give_unknowns(hand, count)->0.to_multiset().count(slot) + unknown(count).to_multiset().count(
            slot,
        ) == hand.to_multiset().count(slot),
    decreases count,
{
    lemma_unknown_counts(count, slot);
    if count > 0 {
        let rest = give_unknown(hand)->0;
        lemma_give_unknown_counts(hand, slot);
        lemma_give_unknowns_counts(rest, (count - 1) as nat, slot);
        lemma_unknown_counts((count - 1) as nat, slot);
    }
}

/// Passing cards moves slots from one hand to another: none is lost and none is made.
/// Where the giver names the cards and holds no placeholder, every slot is counted as before.
pub proof fn lemma_pass_keeps_cards(
    hands: PlayerMap<Seq<Option<Card>>>,
    giver: Player,
    cards: Option<Seq<Card>>,
    slot: Option<Card>,
)
    requires
        hands_after_pass(hands, giver, cards) is Some,
    ensures
        hand_sizes(hands_after_pass(hands, giver, cards)->0) == hand_sizes(hands),
        cards is None || hands.get(giver).to_multiset().count(None) == 0 ==> held(
            hands_after_pass(hands, giver, cards)->0,
            slot,
        ) == held(hands, slot),
{
    let from = hands.get(giver);
    let to = hands.get(giver.spec_teammate());
    match cards {
        Some(four) => {
            lemma_give_all_counts(from, four, slot);
            lemma_count_of_joined(to, known(four), slot);
        },
        None => {
            lemma_give_unknowns_counts(from, 4, slot);
            lemma_count_of_joined(to, unknown(4), slot);
        },
    }
}


/// Replacing one hand changes the counts by what that hand gained or lost.
proof fn lemma_held_with(
    hands: PlayerMap<Seq<Option<Card>>>,
    seat: Player,
    hand: Seq<Option<Card>>,
    slot: Option<Card>,
)
    ensures
        held(hands.with(seat, hand), slot) + hands.get(seat).to_multiset().count(slot) == held(
            hands,
            slot,
        ) + hand.to_multiset().count(slot),
        hand_sizes(hands.with(seat, hand)) + hands.get(seat).len() == hand_sizes(hands)
            + hand.len(),
{
}

/// A card that is played goes from a hand to the table, and a full trick goes from the
/// table to the tricks taken: no card is lost and none is made. Where the hands hold no
/// placeholder, every card is seen as often as before.
pub proof fn lemma_play_keeps_cards(round: Round<Trick>, card: Card, other: Card)
    ensures
        ({
            let before = GameView::Playing(round);
            let after = match play_outcome(round, card) {
                Either::Left((next, _)) => GameView::Playing(next),
                Either::Right(done) => GameView::FinishedRound(done),
            };
            &&& after.card_count() == before.card_count()
            &&& before.placeholders() == 0 ==> after.placeholders() == 0 && after.copies_of(other)
                == before.copies_of(other)
        }),
{
    let trick = round.state;
    let hand = round.hands.get(trick.turn);
    if play_refusal(trick.play_area, hand, card, trick.trump) is None && give(hand, card) is Some {
        let rest = give(hand, card)->0;
        let next = trick.turn.spec_next();
        let table = trick.play_area.push(card);
        let played = Round {
            hands: round.hands.with(trick.turn, rest),
            state: Trick { play_area: table, turn: next, ..trick },
            ..round
        };
        let before = GameView::Playing(round);
        let mid = GameView::Playing(played);
        lemma_give_counts(hand, card, Some(other));
        lemma_give_counts(hand, card, None);
        lemma_held_with(round.hands, trick.turn, rest, Some(other));
        lemma_held_with(round.hands, trick.turn, rest, None);
        trick.play_area.to_multiset_ensures();
        assert(table.to_multiset() =~= trick.play_area.to_multiset().insert(card));
        assert(mid.card_count() == before.card_count());
        if before.placeholders() == 0 {
            hand.to_multiset_ensures();
            assert(hand.to_multiset().count(None) == 0);
            assert(hand.contains(Some(card)));
            assert(mid.placeholders() == 0);
            assert(mid.copies_of(other) == before.copies_of(other));
        }
        if table.len() == 4 {
            let winner = next.ahead(super::tricks::trick_winner(table, trick.trump) as nat);
            let team = winner.spec_team();
            lemma_count_of_joined(trick.taken.of(team), table, other);
            lemma_single_count::<Card>(other, other);
            let after = match trick_outcome(played, next) {
                Either::Left((next, _)) => GameView::Playing(next),
                Either::Right(done) => GameView::FinishedRound(done),
            };
            assert(after.dealt() == mid.dealt());
            assert(after.play_area() =~= Seq::<Card>::empty());
            assert(after.card_count() == mid.card_count());
            assert(after.copies_of(other) == mid.copies_of(other));
        }
    }
}

/// Every move that is made leaves the cards of the game in the game, unless the game ends
/// with it. Where the hands hold no placeholder, every card is seen as often as before.
pub proof fn lemma_step_keeps_cards(game: GameView, player: Player, input: Input, card: Card)
    ensures
        step(game, player, input) matches Step::Moved(next) ==> next is Finished || {
            &&& next.card_count() == game.card_count()
            &&& game.placeholders() == 0 ==> next.placeholders() == 0 && next.copies_of(card)
                == game.copies_of(card)
        },
{
    if game.may_act(player) {
        match (game, input) {
            (GameView::PassingCards(round), Input::PassCards(cards)) => {
                if hands_after_pass(round.hands, round.state.turn, super::states::chosen(cards))
                    is Some {
                    lemma_pass_keeps_cards(
                        round.hands,
                        round.state.turn,
                        super::states::chosen(cards),
                        Some(card),
                    );
                    lemma_pass_keeps_cards(
                        round.hands,
                        round.state.turn,
                        super::states::chosen(cards),
                        None,
                    );
                    lemma_no_placeholder(round.hands, round.state.turn);
                    lemma_unknown_needs_placeholders(round.hands.get(round.state.turn));
                }
            },
            (GameView::ReturningCards(round), Input::PassCards(cards)) => {
                if hands_after_pass(round.hands, round.state.turn, super::states::chosen(cards))
                    is Some {
                    lemma_pass_keeps_cards(
                        round.hands,
                        round.state.turn,
                        super::states::chosen(cards),
                        Some(card),
                    );
                    lemma_pass_keeps_cards(
                        round.hands,
                        round.state.turn,
                        super::states::chosen(cards),
                        None,
                    );
                    lemma_no_placeholder(round.hands, round.state.turn);
                    lemma_unknown_needs_placeholders(round.hands.get(round.state.turn));
                    lemma_single_count::<Card>(card, card);
                }
            },
            (GameView::Playing(round), Input::Play(played)) => {
                lemma_play_keeps_cards(round, played, card);
            },
            _ => {},
        }
    }
}

/// Where the four hands hold no placeholder, no hand does.
proof fn lemma_no_placeholder(hands: PlayerMap<Seq<Option<Card>>>, seat: Player)
    ensures
        held(hands, None) == 0 ==> hands.get(seat).to_multiset().count(None) == 0,
{
}

/// A hand can give four placeholders only where it holds four.
proof fn lemma_unknown_needs_placeholders(hand: Seq<Option<Card>>)
    ensures
        give_unknowns(hand, 4) is Some ==> hand.to_multiset().count(None) >= 4,
{
    if give_unknowns(hand, 4) is Some {
        lemma_give_unknowns_counts(hand, 4, None);
        lemma_unknown_counts(4, None);
    }
}

/// A deal of the double deck, each card known, holds each card twice and no placeholder.
pub proof fn lemma_deal_counts(dealt: PlayerMap<Seq<Card>>, card: Card)
    requires
        is_deal(dealt),
    ensures
        held(known_hands(dealt), Some(card)) == 2,
        held(known_hands(dealt), None) == 0,
        hand_sizes(known_hands(dealt)) == DECK_SIZE,
{
    lemma_known_counts(dealt.a, card);
    lemma_known_counts(dealt.b, card);
    lemma_known_counts(dealt.c, card);
    lemma_known_counts(dealt.d, card);
}

/// A game that starts with a deal of the double deck holds the double deck.
pub proof fn lemma_new_game_holds_double_deck(game: GameView, dealt: PlayerMap<Seq<Card>>)
    requires
        is_deal(dealt),
        game matches GameView::Bidding(round) && round.hands == known_hands(dealt),
    ensures
        game.holds_double_deck(),
{
    assert forall|card: Card| game.copies_of(card) == 2 by {
        lemma_deal_counts(dealt, card);
        lemma_single_count::<Card>(card, card);
    }
    lemma_deal_counts(dealt, arbitrary());
}

/// A game that holds the double deck holds it after every move, until the game is over: a
/// move that is refused changes nothing, a move that is made keeps every card, and a new
/// round is played with a fresh deal of the double deck.
pub proof fn lemma_double_deck_stays(game: GameView, player: Player, input: Input)
    requires
        game.holds_double_deck(),
    ensures
        match step(game, player, input) {
            Step::Refused(_) => true,
            Step::Moved(next) => next is Finished || next.holds_double_deck(),
            Step::Redealt(finished) => forall|dealt: PlayerMap<Seq<Card>>|
                is_deal(dealt) ==> GameView::Bidding(
                    #[trigger] next_round(finished, dealt),
                ).holds_double_deck(),
        },
{
    match step(game, player, input) {
        Step::Refused(_) => {},
        Step::Moved(next) => {
            if !(next is Finished) {
                assert forall|card: Card| next.copies_of(card) == 2 by {
                    lemma_step_keeps_cards(game, player, input, card);
                }
                lemma_step_keeps_cards(game, player, input, arbitrary());
            }
        },
        Step::Redealt(finished) => {
            assert forall|dealt: PlayerMap<Seq<Card>>| is_deal(dealt) implies GameView::Bidding(
                #[trigger] next_round(finished, dealt),
            ).holds_double_deck() by {
                lemma_new_game_holds_double_deck(
                    GameView::Bidding(next_round(finished, dealt)),
                    dealt,
                );
            }
        },
    }
}


/// One where the condition holds, else nothing.
pub open spec fn one_if(held: bool) -> nat {
    if held {
        1
    } else {
        0
    }
}

/// How many of the seven phases a game is in.
pub open spec fn phases_held(game: GameView) -> nat {
    one_if(game is Bidding) + one_if(game is SelectingTrump) + one_if(game is PassingCards)
        + one_if(game is ReturningCards) + one_if(game is Playing) + one_if(game is FinishedRound)
        + one_if(game is Finished)
}

/// A game is in exactly one phase. In the phases in which the seats act in turn, exactly
/// one seat may act: the one whose turn it is. After a finished round every seat may act,
/// and in a game that is over none.
pub proof fn lemma_one_phase_one_turn(game: GameView, player: Player)
    ensures
        phases_held(game) == 1,
        game.turn_holder() is Some <==> !(game is FinishedRound || game is Finished),
        game.turn_holder() is Some ==> (game.may_act(player) <==> game.turn_holder() == Some(
            player,
        )),
        game is FinishedRound ==> game.may_act(player),
        game is Finished ==> !game.may_act(player),
{
}

/// The seat that leads a trick may play any card.
pub proof fn lemma_leading_is_legal(
    play_area: Seq<Card>,
    hand: Seq<Option<Card>>,
    card: Card,
    trump: Suit,
)
    requires
        play_area.len() == 0,
    ensures
        play_refusal(play_area, hand, card, trump) is None,
{
}

/// A seat that holds a card of the suit that was led may play the cards of that suit and
/// no others.
pub proof fn lemma_must_follow_suit(
    play_area: Seq<Card>,
    hand: Seq<Option<Card>>,
    card: Card,
    trump: Suit,
)
    requires
        play_area.len() > 0,
        holds_suit(hand, play_area[0].suit),
    ensures
        play_refusal(play_area, hand, card, trump) is None <==> card.suit == play_area[0].suit,
{
}

/// Masking hides the cards of a pass and nothing else: a pass of cards is masked to a pass
/// of cards that are not named, and every other move is masked to itself.
pub proof fn lemma_mask_hides_passed_cards(input: Input)
    ensures
        input is PassCards ==> input.masked() == Input::PassCards(None),
        !(input is PassCards) ==> input.masked() == input,
        input.masked().masked() == input.masked(),
{
}

/// What a seat is shown of what it is shown is what it is shown.
pub proof fn lemma_projection_is_idempotent(game: GameView, viewer: Player)
    ensures
        Game::projection(Game::projection(game, viewer), viewer) == Game::projection(game, viewer),
{
    match game.hands() {
        Some(hands) => {
            let once = seen_hands(hands, viewer);
            let twice = seen_hands(once, viewer);
            assert(twice.a =~= once.a);
            assert(twice.b =~= once.b);
            assert(twice.c =~= once.c);
            assert(twice.d =~= once.d);
        },
        None => {},
    }
}

/// What a seat is shown holds as many cards as the game does, and the seat's own hand as
/// it is.
pub proof fn lemma_projection_keeps_count(game: GameView, viewer: Player)
    ensures
        Game::projection(game, viewer).card_count() == game.card_count(),
        Game::projection(game, viewer).dealt().get(viewer) == game.dealt().get(viewer),
        Game::projection(game, viewer).turn_holder() == game.turn_holder(),
{
}

/// A bid below 250 is refused, and the round stays as it is.
pub proof fn lemma_low_bid_is_refused(round: Round<Player>, amount: usize)
    requires
        amount < 250,
    ensures
        bid_outcome(round, Some(amount)) matches Either::Left((same, Some(_))) && same == round,
{
}

/// A bid that is not 250 plus a multiple of 25 is refused, and the round stays as it is.
pub proof fn lemma_uneven_bid_is_refused(round: Round<Player>, amount: usize)
    requires
        amount >= 250,
        amount % 25 != 0,
    ensures
        (amount - 250) % 25 != 0,
        bid_outcome(round, Some(amount)) matches Either::Left((same, Some(_))) && same == round,
{
}

/// A bid that is not higher than a bid made before it is refused, whatever was bid or
/// passed between the two, and the round stays as it is.
pub proof fn lemma_bid_not_higher_is_refused(round: Round<Player>, amount: usize, earlier: int)
    requires
        0 <= earlier < round.bids.len(),
        round.bids[earlier] matches Some(bid) && bid >= amount,
    ensures
        bid_outcome(round, Some(amount)) matches Either::Left((same, Some(_))) && same == round,
{
}

/// A bid of 250 plus a multiple of 25 that is higher than every bid before it is made:
/// it is recorded behind the bids before it, nothing else of the round changes, and the
/// turn passes to the left unless it was the fourth bid.
pub proof fn lemma_higher_bid_is_accepted(round: Round<Player>, amount: usize)
    requires
        amount >= 250,
        amount % 25 == 0,
        forall|i: int|
            0 <= i < round.bids.len() && round.bids[i] is Some ==> (#[trigger] round.bids[i])->0
                < amount,
    ensures
        match bid_outcome(round, Some(amount)) {
            Either::Left((next, why)) => {
                &&& why is None
                &&& round.bids.len() < 3
                &&& next == (Round {
                    bids: round.bids.push(Some(amount)),
                    state: round.state.spec_next(),
                    ..round
                })
            },
            Either::Right(next) => {
                &&& round.bids.len() >= 3
                &&& next.bids == round.bids.push(Some(amount))
                &&& next.hands == round.hands
                &&& next.scores == round.scores
                &&& next.initial_bidder == round.initial_bidder
            },
        },
{
}

/// The first bidder must not pass: the pass is refused, and the round stays as it is.
pub proof fn lemma_first_bidder_must_not_pass(round: Round<Player>)
    requires
        round.bids.len() == 0,
    ensures
        bid_outcome(round, None) == Either::<
            (Round<Player>, Option<Seq<char>>),
            Round<Player>,
        >::Left((round, Some("First bidder must not pass"@))),
{
}

/// Every bidder after the first may pass, whatever was bid before, also where all of them
/// pass: the pass is recorded behind the bids before it, nothing else of the round
/// changes, and the turn passes to the left unless it was the fourth bid.
pub proof fn lemma_later_bidders_may_pass(round: Round<Player>)
    requires
        round.bids.len() >= 1,
    ensures
        match bid_outcome(round, None) {
            Either::Left((next, why)) => {
                &&& why is None
                &&& round.bids.len() < 3
                &&& next == (Round {
                    bids: round.bids.push(None),
                    state: round.state.spec_next(),
                    ..round
                })
            },
            Either::Right(next) => {
                &&& round.bids.len() >= 3
                &&& next.bids == round.bids.push(None)
                &&& next.hands == round.hands
                &&& next.scores == round.scores
                &&& next.initial_bidder == round.initial_bidder
            },
        },
{
}

/// How many cards the two teams have taken.
pub open spec fn cards_taken(taken: PerTeam<Seq<Card>>) -> nat {
    taken.ac.len() + taken.bd.len()
}

/// A trick never stays on the table: once the fourth card is played, the four cards are
/// among the tricks taken and the table is empty, before any other move is made.
pub proof fn lemma_fourth_card_resolves_trick(round: Round<Trick>, card: Card)
    requires
        round.state.play_area.len() < 4,
    ensures
        match play_outcome(round, card) {
            Either::Left((same, Some(_))) => same == round,
            Either::Left((next, None)) => if round.state.play_area.len() == 3 {
                &&& next.state.play_area.len() == 0
                &&& cards_taken(next.state.taken) == cards_taken(round.state.taken) + 4
            } else {
                &&& next.state.play_area == round.state.play_area.push(card)
                &&& next.state.taken == round.state.taken
            },
            Either::Right(done) => {
                &&& round.state.play_area.len() == 3
                &&& cards_taken(done.state.taken) == cards_taken(round.state.taken) + 4
            },
        },
{
}

/// The card that is the fourth of its trick and the last of its hand finishes the round:
/// the round is then scored, and the four cards of the trick are among the cards taken.
pub proof fn lemma_last_card_finishes_round(round: Round<Trick>, card: Card)
    requires
        round.state.play_area.len() == 3,
        play_refusal(
            round.state.play_area,
            round.hands.get(round.state.turn),
            card,
            round.state.trump,
        ) is None,
        give(round.hands.get(round.state.turn), card) matches Some(rest) && rest.len() == 0,
    ensures
        play_outcome(round, card) matches Either::Right(done) && {
            let trick = round.state.play_area.push(card);
            let winner = round.state.turn.spec_next().ahead(
                super::tricks::trick_winner(trick, round.state.trump) as nat,
            );
            &&& done.state.taken == round.state.taken.with(
                winner.spec_team(),
                round.state.taken.of(winner.spec_team()) + trick,
            )
            &&& cards_taken(done.state.taken) == cards_taken(round.state.taken) + 4
            &&& done.hands == round.hands.with(round.state.turn, Seq::empty())
        },
{
    let rest = give(round.hands.get(round.state.turn), card)->0;
    assert(rest =~= Seq::<Option<Card>>::empty());
}

/// Whether the hands of a round in play go with the trick on the table: the seats that
/// have not played to the trick hold equally many cards, at least one, and the seats that
/// have played hold one card less.
pub open spec fn hands_are_even(round: Round<Trick>) -> bool {
    let played = round.state.play_area.len();
    let first = round.state.turn;
    let second = first.spec_next();
    let third = second.spec_next();
    let fourth = third.spec_next();
    let each = round.hands.get(first).len();
    let one_less = (each - 1) as nat;
    &&& played < 4
    &&& each >= 1
    &&& round.hands.get(second).len() == (if played >= 3 {
        one_less
    } else {
        each
    })
    &&& round.hands.get(third).len() == (if played >= 2 {
        one_less
    } else {
        each
    })
    &&& round.hands.get(fourth).len() == (if played >= 1 {
        one_less
    } else {
        each
    })
}

/// Once the bidder has passed cards back, the hands are even where the four hands are
/// then equal and not empty.
pub proof fn lemma_play_starts_even(round: Round<super::states::Passing>, cards: Option<Seq<Card>>)
    requires
        returning_outcome(round, cards) matches Some(playing) && playing.hands.a.len() >= 1
            && playing.hands.a.len() == playing.hands.b.len() && playing.hands.a.len()
            == playing.hands.c.len() && playing.hands.a.len() == playing.hands.d.len(),
    ensures
        hands_are_even(returning_outcome(round, cards)->0),
{
}

/// The round ends with the trick that empties the hands, and with no other card: while
/// the hands are even they stay even as long as the round goes on, and the round is
/// finished exactly when the fourth card of a trick is the last card that a seat held.
/// No hand holds a card when the round is finished.
pub proof fn lemma_round_ends_with_last_trick(round: Round<Trick>, card: Card)
    requires
        hands_are_even(round),
    ensures
        match play_outcome(round, card) {
            Either::Left((same, Some(_))) => same == round,
            Either::Left((next, None)) => hands_are_even(next) && !(round.state.play_area.len()
                == 3 && round.hands.get(round.state.turn).len() == 1),
            Either::Right(done) => {
                &&& round.state.play_area.len() == 3
                &&& round.hands.get(round.state.turn).len() == 1
                &&& hand_sizes(done.hands) == 0
            },
        },
{
    let trick = round.state;
    let hand = round.hands.get(trick.turn);
    if play_refusal(trick.play_area, hand, card, trick.trump) is None && give(hand, card) is Some {
        lemma_give_counts(hand, card, None);
        let next = trick.turn.spec_next();
        let rest = give(hand, card)->0;
        let played = Round {
            hands: round.hands.with(trick.turn, rest),
            state: Trick { play_area: trick.play_area.push(card), turn: next, ..trick },
            ..round
        };
        if played.state.play_area.len() == 4 {
            let winner = next.ahead(
                super::tricks::trick_winner(played.state.play_area, trick.trump) as nat,
            );
            assert(played.hands.a.len() == rest.len());
            assert(played.hands.b.len() == rest.len());
            assert(played.hands.c.len() == rest.len());
            assert(played.hands.d.len() == rest.len());
        }
    }
}

/// While tricks are played with the double deck, fewer than twelve tricks have been
/// taken: the twelfth trick finishes the round.
pub proof fn lemma_twelfth_trick_finishes_round(round: Round<Trick>)
    requires
        hands_are_even(round),
        GameView::Playing(round).card_count() == DECK_SIZE,
    ensures
        cards_taken(round.state.taken) < DECK_SIZE,
        cards_taken(round.state.taken) + 4 * round.hands.get(round.state.turn).len() == DECK_SIZE,
{
}

} // verus!
