//! The four seats, the two teams, and maps keyed by seat.

use vstd::prelude::*;
use vstd::std_specs::cmp::PartialEqSpec;

verus! {

pub const NUMBER_OF_TEAMS: usize = 2;

pub const PLAYERS_PER_TEAM: usize = 2;

pub const NUMBER_OF_PLAYERS: usize = NUMBER_OF_TEAMS * PLAYERS_PER_TEAM;

/// The two partnerships: seats A and C against seats B and D.
#[derive(Clone, Copy, Debug, PartialEq, Eq, Structural)]
pub enum Team {
    TeamAC,
    TeamBD,
}

impl Team {
    pub open spec fn spec_other(self) -> Team {
        match self {
            Team::TeamAC => Team::TeamBD,
            Team::TeamBD => Team::TeamAC,
        }
    }

    /// The opposing team.
    #[verifier::when_used_as_spec(spec_other)]
    pub fn other(self) -> (t: Team)
        ensures
            t == self.spec_other(),
    {
        match self {
            Team::TeamAC => Team::TeamBD,
            Team::TeamBD => Team::TeamAC,
        }
    }

    pub open spec fn spec_index(self) -> usize {
        match self {
            Team::TeamAC => 0,
            Team::TeamBD => 1,
        }
    }

    /// Where a team stands in an array of per-team values.
    #[verifier::when_used_as_spec(spec_index)]
    pub fn index(self) -> (i: usize)
        ensures
            i == self.spec_index(),
            i < NUMBER_OF_TEAMS,
    {
        match self {
            Team::TeamAC => 0,
            Team::TeamBD => 1,
        }
    }
}

/// A seat at the table. The seats run clockwise: A, B, C, D, and A again.
#[derive(Clone, Copy, Debug, PartialEq, Eq, Structural)]
pub enum Player {
    A,
    B,
    C,
    D,
}

impl Player {
    pub open spec fn spec_team(self) -> Team {
        match self {
            Player::A | Player::C => Team::TeamAC,
            Player::B | Player::D => Team::TeamBD,
        }
    }

    #[verifier::when_used_as_spec(spec_team)]
    pub fn team(self) -> (t: Team)
        ensures
            t == self.spec_team(),
    {
        match self {
            Player::A => Team::TeamAC,
            Player::B => Team::TeamBD,
            Player::C => Team::TeamAC,
            Player::D => Team::TeamBD,
        }
    }

    pub open spec fn spec_next(self) -> Player {
        match self {
            Player::A => Player::B,
            Player::B => Player::C,
            Player::C => Player::D,
            Player::D => Player::A,
        }
    }

    /// The seat to the left, which plays next.
    #[verifier::when_used_as_spec(spec_next)]
    pub fn next(self) -> (p: Player)
        ensures
            p == self.spec_next(),
    {
        match self {
            Player::A => Player::B,
            Player::B => Player::C,
            Player::C => Player::D,
            Player::D => Player::A,
        }
    }

    pub open spec fn spec_teammate(self) -> Player {
        match self {
            Player::A => Player::C,
            Player::B => Player::D,
            Player::C => Player::A,
            Player::D => Player::B,
        }
    }

    /// The seat across the table.
    #[verifier::when_used_as_spec(spec_teammate)]
    pub fn teammate(self) -> (p: Player)
        ensures
            p == self.spec_teammate(),
    {
        match self {
            Player::A => Player::C,
            Player::B => Player::D,
            Player::C => Player::A,
            Player::D => Player::B,
        }
    }

    pub open spec fn spec_index(self) -> usize {
        match self {
            Player::A => 0,
            Player::B => 1,
            Player::C => 2,
            Player::D => 3,
        }
    }

    /// Where a seat stands in clockwise order from A.
    #[verifier::when_used_as_spec(spec_index)]
    pub fn index(self) -> (i: usize)
        ensures
            i == self.spec_index(),
            i < NUMBER_OF_PLAYERS,
    {
        match self {
            Player::A => 0,
            Player::B => 1,
            Player::C => 2,
            Player::D => 3,
        }
    }

    /// The seat reached from this one after `steps` moves to the left.
    pub open spec fn ahead(self, steps: nat) -> Player
        decreases steps,
    {
        if steps == 0 {
            self
        } else {
            self.ahead((steps - 1) as nat).spec_next()
        }
    }

    /// The first `count` seats of the clockwise walk that starts here and never ends.
    pub fn clockwise(self, count: usize) -> (seats: Vec<Player>)
        ensures
            seats@.len() == count,
            forall|i: int| 0 <= i < count ==> seats@[i] == self.ahead(i as nat),
    {
        let mut seats: Vec<Player> = Vec::new();
        let mut seat = self;
        while seats.len() < count
            invariant
                seats@.len() <= count,
                seat == self.ahead(seats@.len()),
                forall|i: int| 0 <= i < seats@.len() ==> seats@[i] == self.ahead(i as nat),
            decreases count - seats@.len(),
        {
            seats.push(seat);
            seat = seat.next();
        }
        seats
    }
}

/// Four moves to the left lead back to the seat one started from.
pub proof fn lemma_ahead_wraps(p: Player, steps: nat)
    ensures
        p.ahead(steps + 4) == p.ahead(steps),
        p.ahead(1) == p.spec_next(),
        p.ahead(2) == p.spec_teammate(),
        p.ahead(4) == p,
    decreases steps,
{
    reveal_with_fuel(Player::ahead, 5);
    if steps > 0 {
        lemma_ahead_wraps(p, (steps - 1) as nat);
    }
}

/// One value for each team.
pub struct PerTeam<T> {
    pub ac: T,
    pub bd: T,
}

impl<T> PerTeam<T> {
    /// The value held for a team.
    pub open spec fn of(self, team: Team) -> T {
        match team {
            Team::TeamAC => self.ac,
            Team::TeamBD => self.bd,
        }
    }

    /// The pair that holds `value` for `team` and is otherwise this one.
    pub open spec fn with(self, team: Team, value: T) -> PerTeam<T> {
        match team {
            Team::TeamAC => PerTeam { ac: value, ..self },
            Team::TeamBD => PerTeam { bd: value, ..self },
        }
    }
}

/// One value for each seat.
#[derive(Clone, Debug, PartialEq)]
pub struct PlayerMap<T> {
    pub a: T,
    pub b: T,
    pub c: T,
    pub d: T,
}

impl<T: View> View for PlayerMap<T> {
    type V = PlayerMap<T::V>;

    open spec fn view(&self) -> PlayerMap<T::V> {
        PlayerMap { a: self.a@, b: self.b@, c: self.c@, d: self.d@ }
    }
}

impl<T> PlayerMap<T> {
    /// The value held for a seat.
    pub open spec fn get(self, p: Player) -> T {
        match p {
            Player::A => self.a,
            Player::B => self.b,
            Player::C => self.c,
            Player::D => self.d,
        }
    }

    /// The map that holds `value` for seat `p` and is otherwise this one.
    pub open spec fn with(self, p: Player, value: T) -> PlayerMap<T> {
        match p {
            Player::A => PlayerMap { a: value, ..self },
            Player::B => PlayerMap { b: value, ..self },
            Player::C => PlayerMap { c: value, ..self },
            Player::D => PlayerMap { d: value, ..self },
        }
    }

    pub fn new(a: T, b: T, c: T, d: T) -> (m: PlayerMap<T>)
        ensures
            m == (PlayerMap { a, b, c, d }),
    {
        PlayerMap { a, b, c, d }
    }

    pub fn get_value(&self, p: Player) -> (value: &T)
        ensures
            *value == self.get(p),
    {
        match p {
            Player::A => &self.a,
            Player::B => &self.b,
            Player::C => &self.c,
            Player::D => &self.d,
        }
    }

    pub fn get_value_mut(&mut self, p: Player) -> (value: &mut T)
        ensures
            *value == old(self).get(p),
            *final(self) == old(self).with(p, *final(value)),
    {
        match p {
            Player::A => &mut self.a,
            Player::B => &mut self.b,
            Player::C => &mut self.c,
            Player::D => &mut self.d,
        }
    }

    /// The four seats in order from A, each with its value.
    pub fn iter(&self) -> (pairs: Vec<(Player, &T)>)
        ensures
            pairs@ == seq![
                (Player::A, &self.a),
                (Player::B, &self.b),
                (Player::C, &self.c),
                (Player::D, &self.d),
            ],
    {
        let mut pairs: Vec<(Player, &T)> = Vec::new();
        pairs.push((Player::A, &self.a));
        pairs.push((Player::B, &self.b));
        pairs.push((Player::C, &self.c));
        pairs.push((Player::D, &self.d));
        pairs
    }

    /// The four seats in order from A, each with its value.
    pub fn iter_all(&self) -> (pairs: Vec<(Player, &T)>)
        ensures
            pairs@ == seq![
                (Player::A, &self.a),
                (Player::B, &self.b),
                (Player::C, &self.c),
                (Player::D, &self.d),
            ],
    {
        self.iter()
    }

    /// Applies `f` to each seat and its value, in order from A.
    pub fn map<F, U>(&self, f: F) -> (m: PlayerMap<U>) where F: Fn(Player, &T) -> U
        requires
            forall|p: Player| call_requires(f, (p, &#[trigger] self.get(p))),
        ensures
            forall|p: Player| call_ensures(f, (p, &self.get(p)), #[trigger] m.get(p)),
    {
        assert(call_requires(f, (Player::A, &self.get(Player::A))));
        assert(call_requires(f, (Player::B, &self.get(Player::B))));
        assert(call_requires(f, (Player::C, &self.get(Player::C))));
        assert(call_requires(f, (Player::D, &self.get(Player::D))));
        let a = f(Player::A, &self.a);
        let b = f(Player::B, &self.b);
        let c = f(Player::C, &self.c);
        let d = f(Player::D, &self.d);
        PlayerMap::new(a, b, c, d)
    }

    /// Applies `f` to each seat and its value, in order from A, taking the values.
    pub fn map_move<F, U>(self, mut f: F) -> (m: PlayerMap<U>) where F: FnMut(Player, T) -> U
        requires
            forall|p: Player| call_requires(f, (p, #[trigger] self.get(p))),
        ensures
            forall|p: Player| call_ensures(f, (p, self.get(p)), #[trigger] m.get(p)),
    {
        assert(call_requires(f, (Player::A, self.get(Player::A))));
        assert(call_requires(f, (Player::B, self.get(Player::B))));
        assert(call_requires(f, (Player::C, self.get(Player::C))));
        assert(call_requires(f, (Player::D, self.get(Player::D))));
        let PlayerMap { a, b, c, d } = self;
        let a = f(Player::A, a);
        let b = f(Player::B, b);
        let c = f(Player::C, c);
        let d = f(Player::D, d);
        PlayerMap::new(a, b, c, d)
    }
}

impl<T> PlayerMap<Option<T>> {
    /// Whether every seat holds a value.
    pub open spec fn is_full(self) -> bool {
        self.a is Some && self.b is Some && self.c is Some && self.d is Some
    }

    pub fn unwrap(self) -> (m: PlayerMap<T>)
        requires
            self.is_full(),
        ensures
            self == (PlayerMap { a: Some(m.a), b: Some(m.b), c: Some(m.c), d: Some(m.d) }),
    {
        let PlayerMap { a, b, c, d } = self;
        PlayerMap::new(a.unwrap(), b.unwrap(), c.unwrap(), d.unwrap())
    }
}

impl<T> PlayerMap<T> where T: Eq {
    /// The first seat, in order from A, whose value `==` finds equal to `value`.
    pub open spec fn seat_of(self, value: T) -> Option<Player> {
        if self.a.eq_spec(&value) {
            Some(Player::A)
        } else if self.b.eq_spec(&value) {
            Some(Player::B)
        } else if self.c.eq_spec(&value) {
            Some(Player::C)
        } else if self.d.eq_spec(&value) {
            Some(Player::D)
        } else {
            None
        }
    }

    pub fn get_player(&self, value: &T) -> (seat: Option<Player>)
        ensures
            T::obeys_eq_spec() ==> seat == self.seat_of(*value),
    {
        if self.a == *value {
            Some(Player::A)
        } else if self.b == *value {
            Some(Player::B)
        } else if self.c == *value {
            Some(Player::C)
        } else if self.d == *value {
            Some(Player::D)
        } else {
            None
        }
    }
}

} // verus!
