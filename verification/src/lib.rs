//! Rule engine of the "idiot" patience: a deck of cards, a table of four
//! rows, the legality checks for dealing, eliminating and placing cards,
//! win/lose detection and the log of moves.

pub mod card;
pub mod deck;
pub mod game;
pub mod history;
pub mod mode;
pub mod text;

pub use card::Card;
pub use card::Rank;
pub use card::Suit;
pub use deck::Deck;
pub use game::DiscardPile;
pub use game::Game;
pub use game::GameError;
pub use game::GameResult;
pub use game::Table;
pub use history::Event;
pub use history::History;
pub use history::HistoryEndedError;
pub use history::RowIndex;
pub use history::Timestamp;
pub use mode::Mode;
