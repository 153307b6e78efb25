//! Suits, ranks and cards.

use std::cmp::Ordering;
use vstd::prelude::*;
use vstd::std_specs::cmp::PartialOrdSpecImpl;
use vstd::string::StringExecFns;

verus! {

/// The four suits of the deck.
#[derive(Clone, Copy, Debug, PartialEq, Eq, Structural)]
pub enum Suit {
    Diamond,
    Club,
    Heart,
    Spade,
}

impl Suit {
    /// The symbol a suit is printed with.
    pub open spec fn glyph(self) -> Seq<char> {
        match self {
            Suit::Diamond => seq!['♦'],
            Suit::Club => seq!['♣'],
            Suit::Heart => seq!['♥'],
            Suit::Spade => seq!['♠'],
        }
    }

    pub fn to_string(&self) -> (s: &str)
        ensures
            s@ == self.glyph(),
    {
        proof {
            reveal_strlit("♦");
            reveal_strlit("♣");
            reveal_strlit("♥");
            reveal_strlit("♠");
        }
        let s = match self {
            Suit::Diamond => "♦",
            Suit::Club => "♣",
            Suit::Heart => "♥",
            Suit::Spade => "♠",
        };
        assert(s@ =~= self.glyph());
        s
    }
}

/// The six ranks, weakest first. A ten outranks a king.
#[derive(Clone, Copy, Debug, PartialEq, Eq, Structural, Ord)]
pub enum Rank {
    Nine,
    Jack,
    Queen,
    King,
    Ten,
    Ace,
}

impl Rank {
    /// Position of a rank in trick-taking order, from 0 for the nine to 5 for the ace.
    pub open spec fn strength(self) -> nat {
        match self {
            Rank::Nine => 0,
            Rank::Jack => 1,
            Rank::Queen => 2,
            Rank::King => 3,
            Rank::Ten => 4,
            Rank::Ace => 5,
        }
    }

    pub fn ordinal(&self) -> (n: u8)
        ensures
            n == self.strength(),
    {
        match self {
            Rank::Nine => 0,
            Rank::Jack => 1,
            Rank::Queen => 2,
            Rank::King => 3,
            Rank::Ten => 4,
            Rank::Ace => 5,
        }
    }

    /// The label a rank is printed with.
    pub open spec fn label(self) -> Seq<char> {
        match self {
            Rank::Nine => seq!['9'],
            Rank::Jack => seq!['J'],
            Rank::Queen => seq!['Q'],
            Rank::King => seq!['K'],
            Rank::Ten => seq!['1', '0'],
            Rank::Ace => seq!['A'],
        }
    }

    pub fn to_string(&self) -> (s: &str)
        ensures
            s@ == self.label(),
    {
        proof {
            reveal_strlit("9");
            reveal_strlit("J");
            reveal_strlit("Q");
            reveal_strlit("K");
            reveal_strlit("10");
            reveal_strlit("A");
        }
        let s = match self {
            Rank::Nine => "9",
            Rank::Jack => "J",
            Rank::Queen => "Q",
            Rank::King => "K",
            Rank::Ten => "10",
            Rank::Ace => "A",
        };
        assert(s@ =~= self.label());
        s
    }
}

impl PartialOrd for Rank {
    fn partial_cmp(&self, other: &Rank) -> (o: Option<Ordering>) {
        let mine: u8 = self.ordinal();
        let theirs: u8 = other.ordinal();
        if mine < theirs {
            Some(Ordering::Less)
        } else if mine == theirs {
            Some(Ordering::Equal)
        } else {
            Some(Ordering::Greater)
        }
    }
}

impl PartialOrdSpecImpl for Rank {
    open spec fn obeys_partial_cmp_spec() -> bool {
        true
    }

    open spec fn partial_cmp_spec(&self, other: &Rank) -> Option<Ordering> {
        if self.strength() < other.strength() {
            Some(Ordering::Less)
        } else if self.strength() == other.strength() {
            Some(Ordering::Equal)
        } else {
            Some(Ordering::Greater)
        }
    }
}

/// A card of the double deck. Two cards of the same suit and rank are equal:
/// the deck holds each of them twice.
#[derive(Clone, Copy, Debug, PartialEq, Eq, Structural)]
pub struct Card {
    pub suit: Suit,
    pub rank: Rank,
}

impl Card {
    /// A card printed: its rank, then its suit.
    pub open spec fn text(self) -> Seq<char> {
        self.rank.label() + self.suit.glyph()
    }

    pub fn to_string(&self) -> (s: String)
        ensures
            s@ == self.text(),
    {
        String::from_str(self.rank.to_string()).concat(self.suit.to_string())
    }
}

} // verus!
