//! How the player picks moves: rows are chosen one at a time, and the mode
//! says what a chosen row means.

use crate::game::GameView;
use crate::history::RowIndex;
use vstd::prelude::*;

verus! {

/// What choosing a row means.
#[derive(Clone, Copy, Debug, PartialEq, Eq, Structural)]
pub enum Mode {
    /// The top card of the chosen row is to be eliminated.
    Eliminate,
    /// The top card of the chosen row is to be placed elsewhere.
    PlaceFrom,
    /// The card picked before is to be placed on the chosen row.
    PlaceTo,
}

/// A move that the player has asked for.
#[derive(Clone, Copy, Debug, PartialEq, Eq, Structural)]
pub enum Command {
    Eliminate(RowIndex),
    Place(RowIndex, RowIndex),
}

/// What follows from choosing a row.
#[derive(Clone, Copy, Debug, PartialEq, Eq, Structural)]
pub struct Choice {
    /// The move to make, if the choice completes one.
    pub command: Option<Command>,
    /// The mode from now on.
    pub mode: Mode,
    /// The row picked to take a card from, while its target is not chosen.
    pub from: Option<RowIndex>,
}

impl Mode {
    /// Whether a row of `cards` cards can be chosen: to eliminate, it must
    /// hold a card; to take a card from it, more than one; to place a card
    /// on it, none.
    pub open spec fn accepts(self, cards: nat) -> bool {
        match self {
            Mode::Eliminate => cards > 0,
            Mode::PlaceFrom => cards > 1,
            Mode::PlaceTo => cards == 0,
        }
    }

    /// The mode after the switch between eliminating and placing was
    /// pressed: placing starts from eliminating, and is given up otherwise.
    pub open spec fn switched(self) -> Mode {
        match self {
            Mode::Eliminate => Mode::PlaceFrom,
            Mode::PlaceFrom => Mode::Eliminate,
            Mode::PlaceTo => Mode::Eliminate,
        }
    }

    /// What follows from choosing row `index` while row `from`, if any, is
    /// picked. A row chosen to eliminate is a move at once. A row chosen to
    /// take a card from is picked, and its target is asked for. A row chosen
    /// as the target completes the move, if a row was picked, and in any case
    /// ends the placing.
    pub open spec fn chosen(self, from: Option<RowIndex>, index: RowIndex) -> Choice {
        match self {
            Mode::Eliminate => Choice {
                command: Some(Command::Eliminate(index)),
                mode: Mode::Eliminate,
                from,
            },
            Mode::PlaceFrom => Choice { command: None, mode: Mode::PlaceTo, from: Some(index) },
            Mode::PlaceTo => Choice {
                command: match from {
                    Some(source) => Some(Command::Place(source, index)),
                    None => None,
                },
                mode: Mode::Eliminate,
                from: None,
            },
        }
    }

    /// Tells whether a row of `cards` cards can be chosen.
    pub fn accepts_row(&self, cards: usize) -> (accepted: bool)
        ensures
            accepted == self.accepts(cards as nat),
    {
        match self {
            Mode::Eliminate => cards > 0,
            Mode::PlaceFrom => cards > 1,
            Mode::PlaceTo => cards == 0,
        }
    }

    /// Tells whether a placement is being made.
    pub fn is_placing(&self) -> (placing: bool)
        ensures
            placing <==> *self != Mode::Eliminate,
    {
        match self {
            Mode::Eliminate => false,
            Mode::PlaceFrom => true,
            Mode::PlaceTo => true,
        }
    }

    /// Gives the mode after the switch between eliminating and placing was
    /// pressed.
    pub fn switch(&self) -> (mode: Mode)
        ensures
            mode == self.switched(),
    {
        match self {
            Mode::Eliminate => Mode::PlaceFrom,
            Mode::PlaceFrom => Mode::Eliminate,
            Mode::PlaceTo => Mode::Eliminate,
        }
    }

    /// Tells what follows from choosing row `index` while row `from`, if
    /// any, is picked.
    pub fn choose_row(&self, from: Option<RowIndex>, index: RowIndex) -> (choice: Choice)
        ensures
            choice == self.chosen(from, index),
    {
        match self {
            Mode::Eliminate => Choice {
                command: Some(Command::Eliminate(index)),
                mode: Mode::Eliminate,
                from,
            },
            Mode::PlaceFrom => Choice { command: None, mode: Mode::PlaceTo, from: Some(index) },
            Mode::PlaceTo => Choice {
                command: match from {
                    Some(source) => Some(Command::Place(source, index)),
                    None => None,
                },
                mode: Mode::Eliminate,
                from: None,
            },
        }
    }
}

/// A placement made by choosing two rows in turn takes the card from the
/// first and puts it on the second, and eliminating is the mode again. If
/// each row could be chosen when it was, the placement is legal.
pub proof fn lemma_placing_in_two_steps(
    game: GameView,
    picked: Option<RowIndex>,
    from: RowIndex,
    to: RowIndex,
)
    requires
        from < 4,
        to < 4,
    ensures
        ({
            let first = Mode::PlaceFrom.chosen(picked, from);
            let second = first.mode.chosen(first.from, to);
            &&& first.command is None
            &&& second.command == Some(Command::Place(from, to))
            &&& second.mode == Mode::Eliminate
            &&& second.from is None
        }),
        Mode::PlaceFrom.accepts(game.rows[from as int].len()) && Mode::PlaceTo.accepts(
            game.rows[to as int].len(),
        ) <==> game.place_check(from as int, to as int) is Ok,
{
}

/// A row can be chosen to eliminate exactly when it is not empty: whether
/// its top card can go is for the game to say.
pub proof fn lemma_eliminating_needs_a_card(game: GameView, index: RowIndex)
    requires
        index < 4,
    ensures
        Mode::Eliminate.accepts(game.rows[index as int].len()) <==> game.eliminate_check(
            index as int,
        ) != crate::game::failed(crate::game::GameError::EliminateEmptyRow),
        Mode::Eliminate.chosen(None, index).command == Some(Command::Eliminate(index)),
{
}

} // verus!
