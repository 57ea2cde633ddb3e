//! Cards as text, for a screen that shows letters only.

use crate::card::Card;
use crate::card::Rank;
use crate::card::Suit;
use vstd::prelude::*;

verus! {

/// `String::push_str`: the text grows by the characters of `more`, in
/// their order, at its end.
#[verifier::external_body]
fn push_text(text: &mut String, more: &str)
    ensures
        final(text)@ == old(text)@ + more@,
{
    text.push_str(more)
}

/// The two letters that stand for a suit.
pub open spec fn suit_text(suit: Suit) -> Seq<char> {
    match suit {
        Suit::Spades => seq!['<', '<'],
        Suit::Hearts => seq!['<', '3'],
        Suit::Clubs => seq!['c', 'c'],
        Suit::Diamonds => seq!['<', '>'],
    }
}

/// The character of a decimal digit.
pub open spec fn digit(d: int) -> char {
    if d == 0 {
        '0'
    } else if d == 1 {
        '1'
    } else if d == 2 {
        '2'
    } else if d == 3 {
        '3'
    } else if d == 4 {
        '4'
    } else if d == 5 {
        '5'
    } else if d == 6 {
        '6'
    } else if d == 7 {
        '7'
    } else if d == 8 {
        '8'
    } else {
        '9'
    }
}

/// A number in decimal notation, without leading zeros.
pub open spec fn decimal(n: nat) -> Seq<char>
    decreases n,
{
    if n < 10 {
        seq![digit(n as int)]
    } else {
        decimal(n / 10).push(digit((n % 10) as int))
    }
}

/// The letters that stand for a rank: the number of a number card, a
/// letter or two for the others.
pub open spec fn rank_text(rank: Rank) -> Seq<char> {
    match rank {
        Rank::Ace => seq!['A'],
        Rank::Num(n) => decimal(n as nat),
        Rank::Knight => seq!['K', 'n'],
        Rank::Queen => seq!['Q'],
        Rank::King => seq!['K'],
    }
}

/// The text of a card: its rank, then its suit.
pub open spec fn card_text(card: Card) -> Seq<char> {
    rank_text(card.rank) + suit_text(card.suit)
}

/// The text of a decimal digit.
fn digit_text(d: u32) -> (text: &'static str)
    requires
        d < 10,
    ensures
        text@ == seq![digit(d as int)],
{
    proof {
        reveal_strlit("0");
        reveal_strlit("1");
        reveal_strlit("2");
        reveal_strlit("3");
        reveal_strlit("4");
        reveal_strlit("5");
        reveal_strlit("6");
        reveal_strlit("7");
        reveal_strlit("8");
        reveal_strlit("9");
    }
    match d {
        0 => "0",
        1 => "1",
        2 => "2",
        3 => "3",
        4 => "4",
        5 => "5",
        6 => "6",
        7 => "7",
        8 => "8",
        _ => "9",
    }
}

/// Appends a number in decimal notation.
fn push_decimal(text: &mut String, n: u32)
    ensures
        final(text)@ == old(text)@ + decimal(n as nat),
    decreases n,
{
    if n >= 10 {
        push_decimal(text, n / 10);
    }
    push_text(text, digit_text(n % 10));
}

/// The text of a suit.
fn suit_str(suit: &Suit) -> (text: &'static str)
    ensures
        text@ == suit_text(*suit),
{
    proof {
        reveal_strlit("<<");
        reveal_strlit("<3");
        reveal_strlit("cc");
        reveal_strlit("<>");
    }
    match suit {
        Suit::Spades => "<<",
        Suit::Hearts => "<3",
        Suit::Clubs => "cc",
        Suit::Diamonds => "<>",
    }
}

impl From<&Suit> for String {
    fn from(suit: &Suit) -> (text: String)
        ensures
            text@ == suit_text(*suit),
    {
        suit_str(suit).to_owned()
    }
}

/// Two pieces of text with the same characters need not be the same
/// `String`, so no spec function gives the result of the conversion: the
/// contract of `from` states its characters.
impl vstd::std_specs::convert::FromSpecImpl<&Suit> for String {
    open spec fn obeys_from_spec() -> bool {
        false
    }

    open spec fn from_spec(suit: &Suit) -> String {
        choose|text: String| text@ == suit_text(*suit)
    }
}

impl From<&Rank> for String {
    fn from(rank: &Rank) -> (text: String)
        ensures
            text@ == rank_text(*rank),
    {
        proof {
            reveal_strlit("A");
            reveal_strlit("Kn");
            reveal_strlit("Q");
            reveal_strlit("K");
        }
        let mut text = String::new();
        match rank {
            Rank::Ace => push_text(&mut text, "A"),
            Rank::Num(n) => push_decimal(&mut text, *n),
            Rank::Knight => push_text(&mut text, "Kn"),
            Rank::Queen => push_text(&mut text, "Q"),
            Rank::King => push_text(&mut text, "K"),
        }
        text
    }
}

impl vstd::std_specs::convert::FromSpecImpl<&Rank> for String {
    open spec fn obeys_from_spec() -> bool {
        false
    }

    open spec fn from_spec(rank: &Rank) -> String {
        choose|text: String| text@ == rank_text(*rank)
    }
}

impl From<&Card> for String {
    fn from(card: &Card) -> (text: String)
        ensures
            text@ == card_text(*card),
    {
        let mut text = String::from(card.rank());
        push_text(&mut text, suit_str(card.suit()));
        text
    }
}

impl vstd::std_specs::convert::FromSpecImpl<&Card> for String {
    open spec fn obeys_from_spec() -> bool {
        false
    }

    open spec fn from_spec(card: &Card) -> String {
        choose|text: String| text@ == card_text(*card)
    }
}

} // verus!
