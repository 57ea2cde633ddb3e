//! The game: a deck, a table of four rows, a discard pile and the history
//! of the moves, with the rules that say which moves are legal and when the
//! game is over.

use crate::card::Card;
use crate::card::Rank;
use crate::deck::Deck;
use crate::history::deal_of;
use crate::history::Event;
use crate::history::History;
use crate::history::HistoryView;
pub use crate::history::RowIndex;
use crate::history::Timestamp;
use std::collections::HashSet;
use vstd::multiset::Multiset;
use vstd::prelude::*;

verus! {

/// The four rows of the table; the last card of a row is its top.
pub type Table = [Vec<Card>; 4];

/// The cards that were eliminated.
pub type DiscardPile = Vec<Card>;

/// Errors that can occur during a game.
#[derive(Clone, Copy, Debug, PartialEq, Eq, Structural)]
pub enum GameError {
    /// A deal takes four cards, and the deck holds three or fewer.
    DealFromDeckWithInsufficientCards,
    /// Two rows show cards of one suit, which must go before a deal.
    DealWithSameColoredCardsOnTable,
    /// The row has no card to eliminate.
    EliminateEmptyRow,
    /// No row shows a greater card of the suit.
    EliminateNoGreaterCard,
    /// The row to take a card from holds one card or none.
    PlaceFromSingleCardRow,
    /// The row to place the card on holds a card.
    PlaceToNonEmptyRow,
}

/// How a game ended.
#[derive(Clone, Copy, Debug, PartialEq, Eq, Structural)]
pub enum GameResult {
    /// The table shows the four kings and nothing else.
    Win,
    /// No move is left, and the table shows more than the four kings.
    Lose,
}

/// A check that failed with `error`.
pub open spec fn failed(error: GameError) -> Result<(), GameError> {
    Err(error)
}

/// The top card of a row, if the row has one.
pub open spec fn top_of(row: Seq<Card>) -> Option<Card> {
    if row.len() > 0 {
        Some(row.last())
    } else {
        None
    }
}

/// What a game holds: the deck, the four rows of the table, the discard
/// pile and the history.
pub ghost struct GameView {
    pub deck: Seq<Card>,
    pub rows: Seq<Seq<Card>>,
    pub discard: Seq<Card>,
    pub history: HistoryView,
}

impl GameView {
    /// Row `i` shows the suit of the given number: the top card of the row
    /// has it.
    pub open spec fn shows(self, i: int, suit: int) -> bool {
        self.rows[i].len() > 0 && self.rows[i].last().suit.number() == suit
    }

    /// The tops of rows `i` and `j` have one suit.
    pub open spec fn share_suit(self, i: int, j: int) -> bool {
        self.rows[i].len() > 0 && self.rows[j].len() > 0 && self.rows[i].last().suit
            == self.rows[j].last().suit
    }

    /// The tops of two different rows have one suit.
    pub open spec fn suits_collide(self) -> bool {
        ||| self.share_suit(0, 1)
        ||| self.share_suit(0, 2)
        ||| self.share_suit(0, 3)
        ||| self.share_suit(1, 2)
        ||| self.share_suit(1, 3)
        ||| self.share_suit(2, 3)
    }

    /// Whether cards can be dealt, and if not, why not. The size of the deck
    /// is looked at first.
    pub open spec fn deal_check(self) -> Result<(), GameError> {
        if self.deck.len() <= 3 {
            Err(GameError::DealFromDeckWithInsufficientCards)
        } else if self.suits_collide() {
            Err(GameError::DealWithSameColoredCardsOnTable)
        } else {
            Ok(())
        }
    }

    /// The top of row `j` is greater than `card`.
    pub open spec fn beats(self, j: int, card: Card) -> bool {
        self.rows[j].len() > 0 && self.rows[j].last().greater_spec(card) == Some(true)
    }

    /// The top of some row is greater than `card`.
    pub open spec fn beaten(self, card: Card) -> bool {
        self.beats(0, card) || self.beats(1, card) || self.beats(2, card) || self.beats(3, card)
    }

    /// Whether the top card of row `index` can be eliminated, and if not,
    /// why not.
    pub open spec fn eliminate_check(self, index: int) -> Result<(), GameError> {
        if self.rows[index].len() == 0 {
            Err(GameError::EliminateEmptyRow)
        } else if !self.beaten(self.rows[index].last()) {
            Err(GameError::EliminateNoGreaterCard)
        } else {
            Ok(())
        }
    }

    /// Whether the top card of row `from` can be placed on row `to`, and if
    /// not, why not. The row to take from is looked at first.
    pub open spec fn place_check(self, from: int, to: int) -> Result<(), GameError> {
        if self.rows[from].len() <= 1 {
            Err(GameError::PlaceFromSingleCardRow)
        } else if self.rows[to].len() > 0 {
            Err(GameError::PlaceToNonEmptyRow)
        } else {
            Ok(())
        }
    }

    /// Some row is empty while some row holds more than one card: a card
    /// can be placed.
    pub open spec fn place_possible(self) -> bool {
        (self.rows[0].len() == 0 || self.rows[1].len() == 0 || self.rows[2].len() == 0
            || self.rows[3].len() == 0) && (self.rows[0].len() > 1 || self.rows[1].len() > 1
            || self.rows[2].len() > 1 || self.rows[3].len() > 1)
    }

    /// Some row's top card can be eliminated.
    pub open spec fn eliminate_possible(self) -> bool {
        self.eliminate_check(0) is Ok || self.eliminate_check(1) is Ok || self.eliminate_check(2)
            is Ok || self.eliminate_check(3) is Ok
    }

    /// The game has come to rest: the deck is empty, and no card can be
    /// eliminated or placed.
    pub open spec fn quiescent(self) -> bool {
        self.deck.len() == 0 && !self.eliminate_possible() && !self.place_possible()
    }

    /// Row `index` holds a king and nothing else.
    pub open spec fn lone_king(self, index: int) -> bool {
        self.rows[index].len() == 1 && self.rows[index][0].rank == Rank::King
    }

    /// Every row holds a king and nothing else.
    pub open spec fn solved(self) -> bool {
        self.lone_king(0) && self.lone_king(1) && self.lone_king(2) && self.lone_king(3)
    }

    /// How the game ended, if it has: a game at rest is won where the table
    /// shows four lone kings, and lost otherwise.
    pub open spec fn result(self) -> Option<GameResult> {
        if !self.quiescent() {
            None
        } else if self.solved() {
            Some(GameResult::Win)
        } else {
            Some(GameResult::Lose)
        }
    }

    /// All the cards of the game, each as often as it occurs: those in the
    /// deck, those on the table and those on the discard pile.
    pub open spec fn all_cards(self) -> Multiset<Card> {
        self.deck.to_multiset().add(self.rows[0].to_multiset()).add(
            self.rows[1].to_multiset(),
        ).add(self.rows[2].to_multiset()).add(self.rows[3].to_multiset()).add(
            self.discard.to_multiset(),
        )
    }

    /// The event of a deal: the four cards on top of the deck, the topmost
    /// first.
    pub open spec fn deal_event(self) -> Event {
        let n = self.deck.len() as int;
        deal_of(self.deck[n - 1], self.deck[n - 2], self.deck[n - 3], self.deck[n - 4])
    }

    /// The game after a deal: the four cards on top of the deck have gone,
    /// the topmost first, onto rows 0 to 3, and the history tells of it.
    pub open spec fn dealt(self) -> GameView {
        let n = self.deck.len() as int;
        GameView {
            deck: self.deck.subrange(0, n - 4),
            rows: Seq::new(4, |i: int| self.rows[i].push(self.deck[n - 1 - i])),
            discard: self.discard,
            history: self.history.with(self.deal_event()),
        }
    }

    /// The game after the top card of row `index` was eliminated: the card
    /// lies on the discard pile, and the history tells of it.
    pub open spec fn eliminated(self, index: int) -> GameView {
        let row = self.rows[index];
        GameView {
            deck: self.deck,
            rows: self.rows.update(index, row.drop_last()),
            discard: self.discard.push(row.last()),
            history: self.history.with(Event::Eliminate(index as RowIndex)),
        }
    }

    /// The game after the top card of row `from` was placed on row `to`,
    /// with the history telling of it.
    pub open spec fn placed(self, from: int, to: int) -> GameView {
        let card = self.rows[from].last();
        GameView {
            deck: self.deck,
            rows: self.rows.update(from, self.rows[from].drop_last()).update(
                to,
                self.rows[to].push(card),
            ),
            discard: self.discard,
            history: self.history.with(Event::Place(from as RowIndex, to as RowIndex)),
        }
    }
}

/// A deck of three cards or fewer lets nothing be dealt, whatever the table
/// shows; with more cards in the deck, two rows whose tops have one suit do
/// the same. Any other game lets cards be dealt.
pub proof fn lemma_deal_legality(game: GameView)
    ensures
        game.deck.len() <= 3 ==> game.deal_check() == failed(
            GameError::DealFromDeckWithInsufficientCards,
        ),
        game.deck.len() > 3 && game.suits_collide() ==> game.deal_check() == failed(
            GameError::DealWithSameColoredCardsOnTable,
        ),
        game.deck.len() > 3 && !game.suits_collide() ==> game.deal_check() is Ok,
{
}

/// An empty row has nothing to eliminate. The top card of a row can be
/// eliminated exactly when the top card of some row has its suit and a
/// higher rank.
pub proof fn lemma_eliminate_legality(game: GameView, index: int)
    requires
        0 <= index < 4,
    ensures
        game.rows[index].len() == 0 ==> game.eliminate_check(index) == failed(
            GameError::EliminateEmptyRow,
        ),
        game.rows[index].len() > 0 ==> (game.eliminate_check(index) is Ok <==> exists|j: int|
            0 <= j < 4 && (#[trigger] game.rows[j]).len() > 0 && game.rows[j].last().suit
                == game.rows[index].last().suit && game.rows[index].last().rank.below(
                game.rows[j].last().rank,
            )),
        game.rows[index].len() > 0 && game.eliminate_check(index) is Err
            ==> game.eliminate_check(index) == failed(GameError::EliminateNoGreaterCard),
{
}

/// A row that holds a single card, or none, never gives a card away,
/// wherever it should go. From a row that holds more, a card goes to an
/// empty row and to no other. So no card is ever placed on a row that holds
/// one.
pub proof fn lemma_place_legality(game: GameView, from: int, to: int)
    ensures
        game.rows[from].len() <= 1 ==> game.place_check(from, to) == failed(
            GameError::PlaceFromSingleCardRow,
        ),
        game.rows[from].len() > 1 && game.rows[to].len() > 0 ==> game.place_check(from, to)
            == failed(GameError::PlaceToNonEmptyRow),
        game.rows[from].len() > 1 && game.rows[to].len() == 0 ==> game.place_check(from, to) is Ok,
        game.rows[to].len() > 0 ==> game.place_check(from, to) is Err,
{
}

/// A card can be placed somewhere exactly when some row is empty while some
/// row holds more than one card.
pub proof fn lemma_place_possible(game: GameView)
    ensures
        game.place_possible() <==> exists|from: int, to: int|
            0 <= from < 4 && 0 <= to < 4 && #[trigger] game.place_check(from, to) is Ok,
{
    if game.place_possible() {
        let to = if game.rows[0].len() == 0 {
            0int
        } else if game.rows[1].len() == 0 {
            1int
        } else if game.rows[2].len() == 0 {
            2int
        } else {
            3int
        };
        let from = if game.rows[0].len() > 1 {
            0int
        } else if game.rows[1].len() > 1 {
            1int
        } else if game.rows[2].len() > 1 {
            2int
        } else {
            3int
        };
        assert(game.place_check(from, to) is Ok);
    }
}

/// No card is greater than a king.
pub proof fn lemma_king_is_highest(king: Card, other: Card)
    requires
        king.rank == Rank::King,
    ensures
        other.greater_spec(king) != Some(true),
{
}

/// A game has a result exactly when it is at rest. With an empty deck, four
/// rows that hold a king each and nothing else are a win, whatever the
/// kings' suits. A game at rest with any other table is lost. While cards
/// are left in the deck, or a card can be eliminated or placed, there is no
/// result.
pub proof fn lemma_result(game: GameView)
    ensures
        game.result() is Some <==> game.quiescent(),
        game.deck.len() == 0 && game.solved() ==> game.result() == Some(GameResult::Win),
        game.result() == Some(GameResult::Win) ==> game.solved(),
        game.quiescent() && !game.solved() ==> game.result() == Some(GameResult::Lose),
        game.deck.len() > 0 || game.eliminate_possible() || game.place_possible()
            ==> game.result() is None,
{
}

/// A sequence without its last card holds that card once less, and every
/// other card as often as before.
proof fn lemma_drop_last_cards(cards: Seq<Card>)
    requires
        cards.len() > 0,
    ensures
        cards.to_multiset() == cards.drop_last().to_multiset().insert(cards.last()),
{
    cards.drop_last().to_multiset_ensures();
    assert(cards.drop_last().push(cards.last()) =~= cards);
}

/// A sequence with one more card holds that card once more, and every other
/// card as often as before.
proof fn lemma_push_cards(cards: Seq<Card>, card: Card)
    ensures
        cards.push(card).to_multiset() == cards.to_multiset().insert(card),
{
    cards.to_multiset_ensures();
}

/// No move makes a card or loses one: after a deal, an elimination or a
/// placement the deck, the table and the discard pile together hold the
/// cards that they held before, each as often.
pub proof fn lemma_moves_keep_the_cards(game: GameView, index: int, from: int, to: int)
    requires
        game.rows.len() == 4,
        0 <= index < 4,
        0 <= from < 4,
        0 <= to < 4,
    ensures
        game.deal_check() is Ok ==> game.dealt().all_cards() == game.all_cards(),
        game.eliminate_check(index) is Ok ==> game.eliminated(index).all_cards()
            == game.all_cards(),
        game.place_check(from, to) is Ok ==> game.placed(from, to).all_cards() == game.all_cards(),
{
    broadcast use vstd::multiset::group_multiset_axioms;

    if game.deal_check() is Ok {
        let n = game.deck.len() as int;
        let d1 = game.deck.drop_last();
        let d2 = d1.drop_last();
        let d3 = d2.drop_last();
        let d4 = d3.drop_last();
        lemma_drop_last_cards(game.deck);
        lemma_drop_last_cards(d1);
        lemma_drop_last_cards(d2);
        lemma_drop_last_cards(d3);
        assert(d4 =~= game.deck.subrange(0, n - 4));
        lemma_push_cards(game.rows[0], game.deck[n - 1]);
        lemma_push_cards(game.rows[1], game.deck[n - 2]);
        lemma_push_cards(game.rows[2], game.deck[n - 3]);
        lemma_push_cards(game.rows[3], game.deck[n - 4]);
    }
    if game.eliminate_check(index) is Ok {
        lemma_drop_last_cards(game.rows[index]);
        lemma_push_cards(game.discard, game.rows[index].last());
    }
    if game.place_check(from, to) is Ok {
        lemma_drop_last_cards(game.rows[from]);
        lemma_push_cards(game.rows[to], game.rows[from].last());
    }
}

/// A game at rest allows no move: nothing can be dealt, no row has a card to
/// eliminate, and no card can be placed anywhere.
pub proof fn lemma_rest_allows_no_move(game: GameView, index: int, from: int, to: int)
    requires
        game.quiescent(),
        0 <= index < 4,
        0 <= from < 4,
        0 <= to < 4,
    ensures
        game.deal_check() is Err,
        game.eliminate_check(index) is Err,
        game.place_check(from, to) is Err,
{
}

/// The history of a game that is going on: it has not ended, so it takes
/// every event.
struct Log(History);

impl View for Log {
    type V = HistoryView;

    closed spec fn view(&self) -> HistoryView {
        self.0@
    }
}

impl Log {
    #[verifier::type_invariant]
    spec fn live(self) -> bool {
        self.0@.live()
    }

    /// A log that starts now.
    fn new() -> (log: Log)
        ensures
            log@.start is Some,
            log@ == HistoryView::starting_at(log@.start.unwrap()),
    {
        Log(History::new())
    }

    /// Appends an event and hands it back as the log holds it.
    fn record(&mut self, event: Event) -> (last: &Event)
        ensures
            final(self)@ == old(self)@.with(event),
            *last == event,
    {
        proof {
            use_type_invariant(&*self);
        }
        // The history is taken out while it grows and put back at once; an
        // empty one holds its place.
        let mut history = History::starting_at(Timestamp { secs: 0, nanos: 0 });
        core::mem::swap(&mut history, &mut self.0);
        history.push(event).unwrap();
        core::mem::swap(&mut history, &mut self.0);
        self.0.last().unwrap()
    }

    /// The history that the log has kept.
    fn into_history(self) -> (history: History)
        ensures
            history@ == self@,
            history@.live(),
    {
        proof {
            use_type_invariant(&self);
        }
        self.0
    }
}

/// A game of patience.
pub struct Game {
    deck: Deck,
    table: Table,
    discard_pile: DiscardPile,
    history: Log,
}

impl View for Game {
    type V = GameView;

    closed spec fn view(&self) -> GameView {
        GameView {
            deck: self.deck@,
            rows: Seq::new(4, |i: int| self.table@[i]@),
            discard: self.discard_pile@,
            history: self.history@,
        }
    }
}

/// The top card of a row, computed.
fn top(row: &Vec<Card>) -> (card: Option<Card>)
    ensures
        card == top_of(row@),
{
    let n = row.len();
    if n == 0 {
        None
    } else {
        Some(row[n - 1])
    }
}

impl Game {
    /// The table of every game has four rows.
    pub proof fn lemma_four_rows(&self)
        ensures
            self@.rows.len() == 4,
    {
    }

    /// Creates a new game: the given deck, an empty table, an empty discard
    /// pile and a history that starts now.
    pub fn new(deck: Deck) -> (game: Game)
        ensures
            game@.deck == deck@,
            game@.rows == Seq::new(4, |i: int| Seq::<Card>::empty()),
            game@.discard == Seq::<Card>::empty(),
            game@.history.start is Some,
            game@.history == HistoryView::starting_at(game@.history.start.unwrap()),
    {
        Game::with_table(deck, [Vec::new(), Vec::new(), Vec::new(), Vec::new()])
    }

    /// Creates a game that is under way: the given deck and table, an empty
    /// discard pile and a history that starts now.
    pub fn with_table(deck: Deck, table: Table) -> (game: Game)
        ensures
            game@.deck == deck@,
            game@.rows == Seq::new(4, |i: int| table@[i]@),
            game@.discard == Seq::<Card>::empty(),
            game@.history.start is Some,
            game@.history == HistoryView::starting_at(game@.history.start.unwrap()),
    {
        Game { deck, table, discard_pile: Vec::new(), history: Log::new() }
    }

    /// The deck.
    pub fn deck(&self) -> (deck: &Deck)
        ensures
            deck@ == self@.deck,
    {
        &self.deck
    }

    /// The discard pile; the card eliminated last is its last.
    pub fn discard_pile(&self) -> (pile: &DiscardPile)
        ensures
            pile@ == self@.discard,
    {
        &self.discard_pile
    }

    /// The table.
    pub fn table(&self) -> (table: &Table)
        ensures
            table@.len() == 4,
            forall|i: int| 0 <= i < 4 ==> (#[trigger] table@[i])@ == self@.rows[i],
    {
        &self.table
    }

    /// Checks if it is possible to deal cards on the current table: the deck
    /// must hold more than three cards, and no two rows may show one suit.
    pub fn check_deal(&self) -> (r: Result<(), GameError>)
        ensures
            r == self@.deal_check(),
    {
        broadcast use vstd::std_specs::hash::group_hash_axioms;

        if self.deck.len() <= 3 {
            return Err(GameError::DealFromDeckWithInsufficientCards);
        }
        // The suits that the rows before row `i` show, by their numbers.
        let mut suits: HashSet<u8> = HashSet::new();
        let mut i: usize = 0;
        while i < 4
            invariant
                i <= 4,
                self@.deck.len() > 3,
                forall|suit: u8|
                    suits@.contains(suit) <==> exists|k: int|
                        0 <= k < i && #[trigger] self@.shows(k, suit as int),
                forall|a: int, b: int| 0 <= a < b < i ==> !#[trigger] self@.share_suit(a, b),
            decreases 4 - i,
        {
            if let Some(card) = top(&self.table[i]) {
                let suit = card.suit.ordinal();
                assert(self@.shows(i as int, suit as int));
                if !suits.insert(suit) {
                    return Err(GameError::DealWithSameColoredCardsOnTable);
                }
                assert forall|a: int| 0 <= a < i implies !self@.share_suit(a, i as int) by {
                    assert(!self@.shows(a, suit as int));
                }
            }
            i += 1;
        }
        Ok(())
    }

    /// Checks if it is possible to eliminate the card at `index`.
    pub fn check_eliminate(&self, index: RowIndex) -> (r: Result<(), GameError>)
        requires
            index < 4,
        ensures
            r == self@.eliminate_check(index as int),
    {
        let card = match top(&self.table[index]) {
            Some(card) => card,
            None => {
                return Err(GameError::EliminateEmptyRow);
            },
        };
        let mut j: usize = 0;
        while j < 4
            invariant
                j <= 4,
                index < 4,
                top_of(self@.rows[index as int]) == Some(card),
                forall|a: int| 0 <= a < j ==> !#[trigger] self@.beats(a, card),
            decreases 4 - j,
        {
            if let Some(other) = top(&self.table[j]) {
                if let Some(true) = other.greater(&card) {
                    return Ok(());
                }
            }
            j += 1;
        }
        Err(GameError::EliminateNoGreaterCard)
    }

    /// Checks if it is possible to place a card from the row with index
    /// `from` to the row with index `to`.
    pub fn check_place(&self, from: RowIndex, to: RowIndex) -> (r: Result<(), GameError>)
        requires
            from < 4,
            to < 4,
        ensures
            r == self@.place_check(from as int, to as int),
    {
        if self.table[from].len() <= 1 {
            return Err(GameError::PlaceFromSingleCardRow);
        }
        if self.table[to].len() > 0 {
            return Err(GameError::PlaceToNonEmptyRow);
        }
        Ok(())
    }

    /// Draws cards from the deck and places them on the table.
    pub fn deal(&mut self) -> (r: Result<&Event, GameError>)
        ensures
            match r {
                Ok(event) => old(self)@.deal_check() is Ok
                    && final(self)@ == old(self)@.dealt()
                    && *event == old(self)@.deal_event(),
                Err(error) => old(self)@.deal_check() == failed(error)
                    && final(self)@ == old(self)@,
            },
    {
        match self.check_deal() {
            Err(error) => {
                return Err(error);
            },
            Ok(()) => {},
        }
        let ghost before = self@;
        let ghost n = before.deck.len() as int;
        let mut i: usize = 0;
        while i < 4
            invariant
                i <= 4,
                n == before.deck.len(),
                n > 3,
                self@.deck == before.deck.subrange(0, n - i),
                self@.rows.len() == 4,
                before.rows.len() == 4,
                forall|k: int|
                    0 <= k < i ==> #[trigger] self@.rows[k] == before.rows[k].push(
                        before.deck[n - 1 - k],
                    ),
                forall|k: int| i <= k < 4 ==> #[trigger] self@.rows[k] == before.rows[k],
                self@.discard == before.discard,
                self@.history == before.history,
            decreases 4 - i,
        {
            let ghost rows = self@.rows;
            let card = self.deck.draw().unwrap();
            self.table[i].push(card);
            assert(self@.rows =~= rows.update(i as int, rows[i as int].push(card)));
            i += 1;
        }
        assert(self@.rows[0] == self.table@[0]@ && self@.rows[1] == self.table@[1]@);
        assert(self@.rows[2] == self.table@[2]@ && self@.rows[3] == self.table@[3]@);
        let event = Event::Deal(
            [
                top(&self.table[0]).unwrap(),
                top(&self.table[1]).unwrap(),
                top(&self.table[2]).unwrap(),
                top(&self.table[3]).unwrap(),
            ],
        );
        assert(self@.rows =~= before.dealt().rows);
        Ok(self.history.record(event))
    }

    /// Eliminates the card at `index` if there is a greater card on the
    /// table.
    pub fn eliminate(&mut self, index: RowIndex) -> (r: Result<&Event, GameError>)
        requires
            index < 4,
        ensures
            match r {
                Ok(event) => old(self)@.eliminate_check(index as int) is Ok
                    && final(self)@ == old(self)@.eliminated(index as int)
                    && *event == Event::Eliminate(index),
                Err(error) => old(self)@.eliminate_check(index as int) == failed(error)
                    && final(self)@ == old(self)@,
            },
    {
        match self.check_eliminate(index) {
            Err(error) => {
                return Err(error);
            },
            Ok(()) => {},
        }
        let ghost before = self@;
        let card = self.table[index].pop().unwrap();
        self.discard_pile.push(card);
        assert(self@.rows =~= before.eliminated(index as int).rows);
        Ok(self.history.record(Event::Eliminate(index)))
    }

    /// Checks if any card can be placed: some row is empty and some row
    /// holds more than one card.
    pub fn can_place(&self) -> (possible: bool)
        ensures
            possible == self@.place_possible(),
    {
        let mut any_empty = false;
        let mut any_long = false;
        let mut i: usize = 0;
        while i < 4
            invariant
                i <= 4,
                any_empty <==> exists|k: int| 0 <= k < i && (#[trigger] self@.rows[k]).len() == 0,
                any_long <==> exists|k: int| 0 <= k < i && (#[trigger] self@.rows[k]).len() > 1,
            decreases 4 - i,
        {
            let row = &self.table[i];
            assert(row@ == self@.rows[i as int]);
            if row.len() == 0 {
                any_empty = true;
            }
            if row.len() > 1 {
                any_long = true;
            }
            i += 1;
        }
        any_empty && any_long
    }

    /// Places a card to an empty row.
    pub fn place(&mut self, from: RowIndex, to: RowIndex) -> (r: Result<&Event, GameError>)
        requires
            from < 4,
            to < 4,
        ensures
            match r {
                Ok(event) => old(self)@.place_check(from as int, to as int) is Ok
                    && final(self)@ == old(self)@.placed(from as int, to as int)
                    && *event == Event::Place(from, to),
                Err(error) => old(self)@.place_check(from as int, to as int) == failed(error)
                    && final(self)@ == old(self)@,
            },
    {
        match self.check_place(from, to) {
            Err(error) => {
                return Err(error);
            },
            Ok(()) => {},
        }
        let ghost before = self@;
        let card = self.table[from].pop().unwrap();
        self.table[to].push(card);
        assert(self@.rows =~= before.placed(from as int, to as int).rows);
        Ok(self.history.record(Event::Place(from, to)))
    }

    /// Ends the game and hands out its history, ended now.
    pub fn end(self) -> (history: History)
        ensures
            history@.end is Some,
            history@ == self@.history.ended_at(history@.end.unwrap()),
    {
        self.history.into_history().end()
    }

    /// Tells how the game ended, or nothing while it goes on.
    pub fn game_result(&self) -> (r: Option<GameResult>)
        ensures
            r == self@.result(),
    {
        if !self.deck.is_empty() {
            return None;
        }
        let mut all_kings = true;
        let mut i: usize = 0;
        while i < 4
            invariant
                i <= 4,
                self@.deck.len() == 0,
                forall|k: int| 0 <= k < i ==> !(#[trigger] self@.eliminate_check(k) is Ok),
                all_kings <==> forall|k: int| 0 <= k < i ==> #[trigger] self@.lone_king(k),
            decreases 4 - i,
        {
            if self.check_eliminate(i).is_ok() {
                return None;
            }
            let row = &self.table[i];
            if !(row.len() == 1 && is_king(&row[0])) {
                assert(!self@.lone_king(i as int));
                all_kings = false;
            }
            i += 1;
        }
        if self.can_place() {
            return None;
        }
        if all_kings {
            Some(GameResult::Win)
        } else {
            Some(GameResult::Lose)
        }
    }
}

/// Tells a king from the other cards.
fn is_king(card: &Card) -> (king: bool)
    ensures
        king <==> card.rank == Rank::King,
{
    match card.rank {
        Rank::King => true,
        _ => false,
    }
}

} // verus!
