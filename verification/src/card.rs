//! Playing cards: suits, ranks and the comparison that drives eliminations.

use core::cmp::Ordering;
use vstd::prelude::*;
use vstd::std_specs::cmp::PartialOrdSpec;

verus! {

/// The four suits of a deck.
#[derive(Clone, Copy, Debug, PartialEq, Eq, Hash, Structural)]
pub enum Suit {
    Diamonds,
    Clubs,
    Hearts,
    Spades,
}

/// The thirteen ranks of a suit, lowest first: the ace, the number cards,
/// then knight, queen and king.
#[derive(Clone, Copy, Debug, PartialEq, Eq, Ord, Hash, Structural)]
pub enum Rank {
    Ace,
    Num(u32),
    Knight,
    Queen,
    King,
}

impl Suit {
    /// The number of a suit: suits are numbered in the order in which they
    /// are listed.
    pub open spec fn number(self) -> int {
        match self {
            Suit::Diamonds => 0,
            Suit::Clubs => 1,
            Suit::Hearts => 2,
            Suit::Spades => 3,
        }
    }

    /// The number of a suit, computed.
    pub(crate) fn ordinal(&self) -> (n: u8)
        ensures
            n == self.number(),
    {
        match self {
            Suit::Diamonds => 0,
            Suit::Clubs => 1,
            Suit::Hearts => 2,
            Suit::Spades => 3,
        }
    }

    /// Hearts and diamonds are red; spades and clubs are black.
    pub open spec fn red(self) -> bool {
        self == Suit::Hearts || self == Suit::Diamonds
    }

    /// Tells the red suits from the black ones.
    pub fn is_red(&self) -> (red: bool)
        ensures
            red == self.red(),
    {
        match self {
            Suit::Hearts => true,
            Suit::Diamonds => true,
            Suit::Spades => false,
            Suit::Clubs => false,
        }
    }
}

impl Rank {
    /// Position of a rank on the number line: ranks are ordered as their
    /// positions are. Every number card lies between the ace and the knight.
    pub open spec fn position(self) -> int {
        match self {
            Rank::Ace => 0,
            Rank::Num(n) => n + 1,
            Rank::Knight => 0x1_0000_0001,
            Rank::Queen => 0x1_0000_0002,
            Rank::King => 0x1_0000_0003,
        }
    }

    /// The position of a rank, computed.
    fn ordinal(&self) -> (n: u64)
        ensures
            n == self.position(),
    {
        match self {
            Rank::Ace => 0,
            Rank::Num(n) => *n as u64 + 1,
            Rank::Knight => 0x1_0000_0001,
            Rank::Queen => 0x1_0000_0002,
            Rank::King => 0x1_0000_0003,
        }
    }

    /// `self` is strictly lower than `other`.
    pub open spec fn below(self, other: Rank) -> bool {
        self.position() < other.position()
    }

    /// How `self` compares with `other`.
    pub open spec fn compared_with(self, other: Rank) -> Ordering {
        if self.position() < other.position() {
            Ordering::Less
        } else if self.position() == other.position() {
            Ordering::Equal
        } else {
            Ordering::Greater
        }
    }
}

impl PartialOrd for Rank {
    fn partial_cmp(&self, other: &Rank) -> (r: Option<Ordering>) {
        let a: u64 = self.ordinal();
        let b: u64 = other.ordinal();
        if a < b {
            Some(Ordering::Less)
        } else if a == b {
            Some(Ordering::Equal)
        } else {
            Some(Ordering::Greater)
        }
    }
}

impl vstd::std_specs::cmp::PartialOrdSpecImpl for Rank {
    open spec fn obeys_partial_cmp_spec() -> bool {
        true
    }

    open spec fn partial_cmp_spec(&self, other: &Rank) -> Option<Ordering> {
        Some(self.compared_with(*other))
    }
}

/// A playing card.
#[derive(Clone, Copy, Debug, PartialEq, Eq, Hash, Structural)]
pub struct Card {
    pub suit: Suit,
    pub rank: Rank,
}

impl Card {
    /// What `greater` answers: nothing for cards of different suits, else
    /// whether `self` has the strictly higher rank.
    pub open spec fn greater_spec(self, other: Card) -> Option<bool> {
        if self.suit == other.suit {
            Some(other.rank.below(self.rank))
        } else {
            None
        }
    }

    /// The card of the given suit and rank.
    pub fn new(suit: Suit, rank: Rank) -> (card: Card)
        ensures
            card == (Card { suit, rank }),
    {
        Card { suit, rank }
    }

    /// The suit of the card.
    pub fn suit(&self) -> (suit: &Suit)
        ensures
            *suit == self.suit,
    {
        &self.suit
    }

    /// The rank of the card.
    pub fn rank(&self) -> (rank: &Rank)
        ensures
            *rank == self.rank,
    {
        &self.rank
    }

    /// Compares two cards of one suit by rank; cards of different suits are
    /// incomparable.
    pub fn greater(&self, other: &Card) -> (r: Option<bool>)
        ensures
            r == self.greater_spec(*other),
    {
        if self.suit == other.suit {
            Some(self.rank > other.rank)
        } else {
            None
        }
    }
}

/// The order of the ranks is strict and total: no rank is below itself, of
/// two different ranks exactly one is below the other, and what is below a
/// rank is below all that the rank is below. The ace is the lowest rank;
/// the number cards follow in the order of their numbers; knight, queen and
/// king follow in this order. `<` on ranks tells which rank is below which.
pub proof fn lemma_rank_order(a: Rank, b: Rank, c: Rank)
    ensures
        !a.below(a),
        a.below(b) ==> !b.below(a),
        a != b ==> a.below(b) || b.below(a),
        a.below(b) && b.below(c) ==> a.below(c),
        forall|n: u32| #[trigger] Rank::Ace.below(Rank::Num(n)),
        forall|n: u32| #[trigger] Rank::Num(n).below(Rank::Knight),
        forall|m: u32, n: u32| #[trigger] Rank::Num(m).below(Rank::Num(n)) <==> m < n,
        Rank::Knight.below(Rank::Queen),
        Rank::Queen.below(Rank::King),
        a.partial_cmp_spec(&b) == Some(Ordering::Less) <==> a.below(b),
        a.partial_cmp_spec(&b) == Some(Ordering::Greater) <==> b.below(a),
        a.partial_cmp_spec(&b) == Some(Ordering::Equal) <==> a == b,
{
}

/// Cards of different suits are never compared. Of two cards of one suit,
/// the first is greater exactly when the rank of the second is below its
/// rank; so no card is greater than itself, and of two cards at most one is
/// greater than the other.
pub proof fn lemma_greater(a: Card, b: Card)
    ensures
        a.suit != b.suit ==> a.greater_spec(b) is None,
        a.suit == b.suit ==> a.greater_spec(b) == Some(b.rank.below(a.rank)),
        a.greater_spec(a) == Some(false),
        !(a.greater_spec(b) == Some(true) && b.greater_spec(a) == Some(true)),
{
}

} // verus!
