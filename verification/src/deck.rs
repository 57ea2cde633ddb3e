//! The deck: a stack of cards that is built complete, shuffled, and drawn
//! from the top.

use crate::card::Card;
use crate::card::Rank;
use crate::card::Suit;
use rand::Rng;
use vstd::prelude::*;

verus! {

/// `rand::rngs::ThreadRng`, the handle of a thread's random number
/// generator. It is passed on as it comes; nothing is known of its inside.
#[verifier::external_type_specification]
#[verifier::external_body]
pub struct ExThreadRng(rand::rngs::ThreadRng);

/// `rand::thread_rng`: hands out the calling thread's random number
/// generator. Nothing is claimed of it. It fails only where the system has
/// no randomness to seed the generator with.
pub assume_specification[ rand::thread_rng ]() -> (rng: rand::rngs::ThreadRng);

/// `rand::Rng::gen_range` on the half-open range from `low` to `high`: the
/// index drawn is at least `low` and below `high`. Which index it is
/// depends on the generator and is left open. The range must not be empty,
/// or the call panics.
#[verifier::external_body]
fn random_index(rng: &mut rand::rngs::ThreadRng, low: usize, high: usize) -> (index: usize)
    requires
        low < high,
    ensures
        low <= index < high,
{
    rng.gen_range(low..high)
}

/// The suit of the `k`-th block of thirteen cards in a fresh deck: the
/// suit whose number is `k`.
pub open spec fn suit_at(k: int) -> Suit {
    if k == 0 {
        Suit::Diamonds
    } else if k == 1 {
        Suit::Clubs
    } else if k == 2 {
        Suit::Hearts
    } else {
        Suit::Spades
    }
}

/// The rank of the `k`-th card within its suit in a fresh deck.
pub open spec fn rank_at(k: int) -> Rank {
    if k == 0 {
        Rank::Ace
    } else if k == 10 {
        Rank::Knight
    } else if k == 11 {
        Rank::Queen
    } else if k == 12 {
        Rank::King
    } else {
        Rank::Num((k + 1) as u32)
    }
}

/// The card at position `i` of a fresh deck: suits in blocks, each block in
/// rising rank.
pub open spec fn fresh_card(i: int) -> Card {
    Card { suit: suit_at(i / 13), rank: rank_at(i % 13) }
}

/// The position of a rank within its block of a fresh deck.
pub open spec fn rank_slot(rank: Rank) -> int {
    match rank {
        Rank::Ace => 0,
        Rank::Num(n) => n - 1,
        Rank::Knight => 10,
        Rank::Queen => 11,
        Rank::King => 12,
    }
}

/// The ranks that a deck holds: number cards run from 2 to 10.
pub open spec fn playable(card: Card) -> bool {
    card.rank matches Rank::Num(n) ==> 2 <= n <= 10
}

/// The 52 cards in the order in which a new deck holds them.
pub open spec fn fresh_cards() -> Seq<Card> {
    Seq::new(52, |i: int| fresh_card(i))
}

/// A fresh deck holds each playable card exactly once: 52 cards, no two
/// alike, every one playable, and every playable card among them.
pub proof fn lemma_fresh_cards_complete()
    ensures
        fresh_cards().len() == 52,
        fresh_cards().no_duplicates(),
        forall|card: Card| playable(card) <==> #[trigger] fresh_cards().contains(card),
{
    let cards = fresh_cards();
    // Every playable card lies at the position that its suit and rank give.
    assert forall|card: Card| playable(card) implies #[trigger] cards.contains(card) by {
        let i = 13 * card.suit.number() + rank_slot(card.rank);
        assert(cards[i] == card);
    }
}

/// The cards with those at positions `i` and `j` exchanged.
pub open spec fn swapped(cards: Seq<Card>, i: int, j: int) -> Seq<Card> {
    cards.update(i, cards[j]).update(j, cards[i])
}

/// What a shuffle makes of the cards in as many steps as there are picks:
/// step `i` exchanges the card at position `i` with the card at position
/// `picks[i]`.
pub open spec fn shuffled_by(cards: Seq<Card>, picks: Seq<int>) -> Seq<Card>
    decreases picks.len(),
{
    if picks.len() == 0 {
        cards
    } else {
        swapped(shuffled_by(cards, picks.drop_last()), picks.len() - 1, picks.last())
    }
}

/// The picks serve to shuffle `len` cards: there is one for each position,
/// and each names a position that is not below its own.
pub open spec fn picks_fit(picks: Seq<int>, len: nat) -> bool {
    picks.len() == len && forall|i: int| 0 <= i < picks.len() ==> i <= #[trigger] picks[i] < len
}

/// Exchanging two cards of a sequence changes neither which cards it holds
/// nor how often.
pub proof fn lemma_swap_keeps_cards(cards: Seq<Card>, i: int, j: int)
    requires
        0 <= i < cards.len(),
        0 <= j < cards.len(),
    ensures
        swapped(cards, i, j).len() == cards.len(),
        swapped(cards, i, j).to_multiset() == cards.to_multiset(),
{
    broadcast use vstd::multiset::group_multiset_axioms;

    let once = cards.update(i, cards[j]);
    vstd::seq_lib::to_multiset_update(cards, i, cards[j]);
    vstd::seq_lib::to_multiset_update(once, j, cards[i]);
    cards.to_multiset_ensures();
}

/// A shuffle rearranges: whatever the picks, as long as each names a
/// position of the deck, the shuffled cards are the same cards, each as
/// often as before.
pub proof fn lemma_shuffle_keeps_cards(cards: Seq<Card>, picks: Seq<int>)
    requires
        picks.len() <= cards.len(),
        forall|i: int| 0 <= i < picks.len() ==> 0 <= #[trigger] picks[i] < cards.len(),
    ensures
        shuffled_by(cards, picks).len() == cards.len(),
        shuffled_by(cards, picks).to_multiset() == cards.to_multiset(),
    decreases picks.len(),
{
    if picks.len() > 0 {
        lemma_shuffle_keeps_cards(cards, picks.drop_last());
        lemma_swap_keeps_cards(
            shuffled_by(cards, picks.drop_last()),
            picks.len() - 1,
            picks.last(),
        );
    }
}

/// Two sequences that hold the same cards, each as often as the other, hold
/// a card or lack it together, and where no card comes twice in the one,
/// none comes twice in the other.
pub proof fn lemma_same_cards(cards: Seq<Card>, others: Seq<Card>)
    requires
        cards.to_multiset() == others.to_multiset(),
    ensures
        cards.len() == others.len(),
        forall|card: Card| cards.contains(card) <==> others.contains(card),
        others.no_duplicates() ==> cards.no_duplicates(),
{
    cards.to_multiset_ensures();
    others.to_multiset_ensures();
    assert forall|card: Card| cards.contains(card) <==> others.contains(card) by {
        assert(cards.contains(card) <==> cards.to_multiset().count(card) > 0);
    }
    if others.no_duplicates() {
        others.lemma_multiset_has_no_duplicates();
        cards.lemma_multiset_has_no_duplicates_conv();
    }
}

/// A stack of cards; the last card is the top.
#[derive(Debug)]
pub struct Deck(Vec<Card>);

impl View for Deck {
    type V = Seq<Card>;

    closed spec fn view(&self) -> Seq<Card> {
        self.0@
    }
}

impl Deck {
    /// Creates a new deck: all 52 cards, suit by suit, each suit in rising
    /// rank.
    pub fn new() -> (deck: Deck)
        ensures
            deck@ == fresh_cards(),
            deck@.len() == 52,
            deck@.no_duplicates(),
            forall|card: Card| playable(card) <==> #[trigger] deck@.contains(card),
    {
        let suits = [Suit::Diamonds, Suit::Clubs, Suit::Hearts, Suit::Spades];
        let ranks = [
            Rank::Ace,
            Rank::Num(2),
            Rank::Num(3),
            Rank::Num(4),
            Rank::Num(5),
            Rank::Num(6),
            Rank::Num(7),
            Rank::Num(8),
            Rank::Num(9),
            Rank::Num(10),
            Rank::Knight,
            Rank::Queen,
            Rank::King,
        ];
        let mut cards: Vec<Card> = Vec::new();
        let mut s: usize = 0;
        while s < 4
            invariant
                s <= 4,
                cards@.len() == 13 * s,
                forall|i: int| 0 <= i < cards@.len() ==> cards@[i] == fresh_card(i),
                forall|k: int| 0 <= k < 4 ==> suits@[k] == suit_at(k),
                forall|k: int| 0 <= k < 13 ==> ranks@[k] == rank_at(k),
            decreases 4 - s,
        {
            let mut r: usize = 0;
            while r < 13
                invariant
                    s < 4,
                    r <= 13,
                    cards@.len() == 13 * s + r,
                    forall|i: int| 0 <= i < cards@.len() ==> cards@[i] == fresh_card(i),
                    forall|k: int| 0 <= k < 4 ==> suits@[k] == suit_at(k),
                    forall|k: int| 0 <= k < 13 ==> ranks@[k] == rank_at(k),
                decreases 13 - r,
            {
                cards.push(Card::new(suits[s], ranks[r]));
                r += 1;
            }
            s += 1;
        }
        proof {
            lemma_fresh_cards_complete();
        }
        Deck(cards)
    }

    /// Exchanges the cards at two positions.
    pub fn swap(&mut self, i: usize, j: usize)
        requires
            i < old(self)@.len(),
            j < old(self)@.len(),
        ensures
            final(self)@ == swapped(old(self)@, i as int, j as int),
    {
        let a = self.0[i];
        let b = self.0[j];
        self.0[i] = b;
        self.0[j] = a;
    }

    /// Shuffles the deck in place: every position in turn, from the bottom
    /// up, gets a card picked at random from those at or above it. Which
    /// cards are picked is left to chance; whatever they are, the deck holds
    /// the same cards afterwards.
    pub fn shuffle(&mut self)
        ensures
            exists|picks: Seq<int>|
                picks_fit(picks, old(self)@.len()) && final(self)@ == #[trigger] shuffled_by(
                    old(self)@,
                    picks,
                ),
            final(self)@.len() == old(self)@.len(),
            final(self)@.to_multiset() == old(self)@.to_multiset(),
    {
        let mut rng = rand::thread_rng();
        let len = self.0.len();
        let ghost mut picks: Seq<int> = Seq::empty();
        let mut i: usize = 0;
        while i < len
            invariant
                i <= len,
                len == self@.len(),
                len == old(self)@.len(),
                picks.len() == i,
                forall|k: int| 0 <= k < i ==> k <= #[trigger] picks[k] < len,
                self@ == shuffled_by(old(self)@, picks),
            decreases len - i,
        {
            let j = random_index(&mut rng, i, len);
            proof {
                assert(picks.push(j as int).drop_last() =~= picks);
                picks = picks.push(j as int);
            }
            self.swap(i, j);
            i += 1;
        }
        proof {
            lemma_shuffle_keeps_cards(old(self)@, picks);
        }
    }

    /// Creates a new shuffled deck.
    pub fn shuffled() -> (deck: Deck)
        ensures
            exists|picks: Seq<int>|
                picks_fit(picks, 52) && deck@ == #[trigger] shuffled_by(fresh_cards(), picks),
            deck@.len() == 52,
            deck@.no_duplicates(),
            forall|card: Card| playable(card) <==> #[trigger] deck@.contains(card),
    {
        let mut deck = Deck::new();
        deck.shuffle();
        proof {
            lemma_same_cards(deck@, fresh_cards());
        }
        deck
    }

    /// Draws the top card, if any. The top is the last card of the deck, so
    /// a new deck is drawn in the reverse of the order it was built in.
    pub fn draw(&mut self) -> (card: Option<Card>)
        ensures
            old(self)@.len() == 0 ==> card is None && final(self)@ == old(self)@,
            old(self)@.len() > 0 ==> card == Some(old(self)@.last())
                && final(self)@ == old(self)@.drop_last(),
    {
        self.0.pop()
    }

    /// Amount of cards remaining in the deck.
    pub fn len(&self) -> (n: usize)
        ensures
            n == self@.len(),
    {
        self.0.len()
    }

    /// True if there are no more cards to draw in the deck.
    pub fn is_empty(&self) -> (empty: bool)
        ensures
            empty <==> self@.len() == 0,
    {
        self.len() == 0
    }
}

} // verus!
