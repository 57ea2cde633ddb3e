use idiot_solitaire::card::Card;
use idiot_solitaire::card::Rank;
use idiot_solitaire::card::Suit;
use idiot_solitaire::deck::Deck;
use idiot_solitaire::game::Game;
use idiot_solitaire::game::GameError;
use idiot_solitaire::game::GameResult;
use idiot_solitaire::history::Event;

fn empty_deck() -> Deck {
    let mut deck = Deck::new();

    while deck.draw().is_some() {}
    deck
}

/// A deck of the `n` cards that a new deck is drawn last.
fn deck_of(n: usize) -> Deck {
    let mut deck = Deck::new();
    while deck.len() > n {
        deck.draw();
    }
    deck
}

fn card(suit: Suit, rank: Rank) -> Card {
    Card::new(suit, rank)
}

fn rows(game: &Game) -> Vec<Vec<Card>> {
    game.table().iter().cloned().collect()
}

#[test]
fn game_result_win() {
    let game = Game::with_table(
        empty_deck(),
        [
            vec![Card::new(Suit::Spades, Rank::King)],
            vec![Card::new(Suit::Hearts, Rank::King)],
            vec![Card::new(Suit::Clubs, Rank::King)],
            vec![Card::new(Suit::Diamonds, Rank::King)],
        ],
    );

    assert_eq!(game.game_result(), Some(GameResult::Win));
}

#[test]
fn new_game_has_an_empty_table() {
    let game = Game::new(Deck::new());
    assert_eq!(game.deck().len(), 52);
    assert_eq!(rows(&game), vec![vec![], vec![], vec![], vec![]]);
    assert!(game.discard_pile().is_empty());
    assert_eq!(game.game_result(), None);
    assert!(game.check_deal().is_ok());
    let history = game.end();
    assert!(history.last().is_none());
    assert!(history.events().is_empty());
}

#[test]
fn deal_puts_one_card_on_each_row() {
    let mut game = Game::new(Deck::new());
    let event = *game.deal().unwrap();
    let dealt = [
        card(Suit::Spades, Rank::King),
        card(Suit::Spades, Rank::Queen),
        card(Suit::Spades, Rank::Knight),
        card(Suit::Spades, Rank::Num(10)),
    ];
    assert_eq!(event, Event::Deal(dealt));
    assert_eq!(game.deck().len(), 48);
    assert!(game.discard_pile().is_empty());
    assert_eq!(
        rows(&game),
        vec![vec![dealt[0]], vec![dealt[1]], vec![dealt[2]], vec![dealt[3]]]
    );
    let history = game.end();
    assert_eq!(history.events(), &vec![Event::Deal(dealt)]);
}

#[test]
fn deal_goes_on_top_of_what_lies_there() {
    let below = card(Suit::Clubs, Rank::Num(4));
    let other = card(Suit::Hearts, Rank::Num(4));
    let mut game = Game::with_table(deck_of(5), [vec![below], vec![], vec![], vec![below, other]]);
    assert_eq!(game.check_deal(), Ok(()));
    let event = *game.deal().unwrap();
    let dealt = [
        card(Suit::Diamonds, Rank::Num(5)),
        card(Suit::Diamonds, Rank::Num(4)),
        card(Suit::Diamonds, Rank::Num(3)),
        card(Suit::Diamonds, Rank::Num(2)),
    ];
    assert_eq!(event, Event::Deal(dealt));
    assert_eq!(game.deck().len(), 1);
    assert_eq!(
        rows(&game),
        vec![
            vec![below, dealt[0]],
            vec![dealt[1]],
            vec![dealt[2]],
            vec![below, other, dealt[3]]
        ]
    );
}

#[test]
fn deal_needs_more_than_three_cards() {
    for n in 0..=3 {
        let table = [
            vec![card(Suit::Hearts, Rank::Num(2))],
            vec![],
            vec![card(Suit::Clubs, Rank::Num(3))],
            vec![],
        ];
        let mut game = Game::with_table(deck_of(n), table.clone());
        assert_eq!(game.check_deal(), Err(GameError::DealFromDeckWithInsufficientCards));
        assert_eq!(game.deal().err(), Some(GameError::DealFromDeckWithInsufficientCards));
        assert_eq!(rows(&game), table.to_vec());
        assert_eq!(game.deck().len(), n);
        assert!(game.discard_pile().is_empty());
        assert!(game.end().events().is_empty());
    }
    let mut game = Game::new(deck_of(4));
    assert!(game.deal().is_ok());
    assert!(game.deck().is_empty());
}

#[test]
fn deal_needs_tops_of_different_suits() {
    let table = [
        vec![card(Suit::Hearts, Rank::Num(2))],
        vec![card(Suit::Clubs, Rank::Num(3))],
        vec![],
        vec![card(Suit::Spades, Rank::Ace), card(Suit::Hearts, Rank::King)],
    ];
    let mut game = Game::with_table(Deck::new(), table.clone());
    assert_eq!(game.check_deal(), Err(GameError::DealWithSameColoredCardsOnTable));
    assert_eq!(game.deal().err(), Some(GameError::DealWithSameColoredCardsOnTable));
    assert_eq!(rows(&game), table.to_vec());
    assert_eq!(game.deck().len(), 52);
    assert!(game.discard_pile().is_empty());
    assert!(game.end().events().is_empty());
}

#[test]
fn only_the_tops_count_for_a_deal() {
    let table = [
        vec![card(Suit::Hearts, Rank::Num(2)), card(Suit::Spades, Rank::Num(2))],
        vec![card(Suit::Hearts, Rank::Num(3))],
        vec![card(Suit::Hearts, Rank::Num(4)), card(Suit::Clubs, Rank::Num(2))],
        vec![card(Suit::Hearts, Rank::Num(5)), card(Suit::Diamonds, Rank::Num(2))],
    ];
    let game = Game::with_table(Deck::new(), table);
    assert_eq!(game.check_deal(), Ok(()));
}

#[test]
fn any_two_rows_can_collide() {
    for i in 0..4 {
        for j in 0..4 {
            if i == j {
                continue;
            }
            let mut table = [vec![], vec![], vec![], vec![]];
            table[i].push(card(Suit::Clubs, Rank::Num(9)));
            table[j].push(card(Suit::Clubs, Rank::Ace));
            let game = Game::with_table(Deck::new(), table);
            assert_eq!(game.check_deal(), Err(GameError::DealWithSameColoredCardsOnTable));
        }
    }
}

#[test]
fn short_deck_is_reported_before_colliding_suits() {
    let table = [
        vec![card(Suit::Hearts, Rank::Num(2))],
        vec![card(Suit::Hearts, Rank::Num(3))],
        vec![],
        vec![],
    ];
    let mut game = Game::with_table(deck_of(2), table);
    assert_eq!(game.check_deal(), Err(GameError::DealFromDeckWithInsufficientCards));
    assert_eq!(game.deal().err(), Some(GameError::DealFromDeckWithInsufficientCards));
}

fn hearts_and_clubs() -> [Vec<Card>; 4] {
    [
        vec![card(Suit::Hearts, Rank::Num(2))],
        vec![card(Suit::Hearts, Rank::Num(5))],
        vec![card(Suit::Clubs, Rank::Num(3))],
        vec![],
    ]
}

#[test]
fn eliminate_takes_the_lower_card_of_a_suit() {
    let mut game = Game::with_table(Deck::new(), hearts_and_clubs());
    assert_eq!(game.check_eliminate(0), Ok(()));
    let event = *game.eliminate(0).unwrap();
    assert_eq!(event, Event::Eliminate(0));
    assert_eq!(
        rows(&game),
        vec![
            vec![],
            vec![card(Suit::Hearts, Rank::Num(5))],
            vec![card(Suit::Clubs, Rank::Num(3))],
            vec![]
        ]
    );
    assert_eq!(game.deck().len(), 52);
    assert_eq!(game.discard_pile(), &vec![card(Suit::Hearts, Rank::Num(2))]);
    assert_eq!(game.end().events(), &vec![Event::Eliminate(0)]);
}

#[test]
fn eliminate_of_an_empty_row_fails() {
    let mut game = Game::with_table(Deck::new(), hearts_and_clubs());
    assert_eq!(game.check_eliminate(3), Err(GameError::EliminateEmptyRow));
    assert_eq!(game.eliminate(3).err(), Some(GameError::EliminateEmptyRow));
    assert_eq!(rows(&game), hearts_and_clubs().to_vec());
    assert_eq!(game.deck().len(), 52);
    assert!(game.discard_pile().is_empty());
    assert!(game.end().events().is_empty());
}

#[test]
fn eliminate_needs_a_greater_card_of_the_suit() {
    let mut game = Game::with_table(Deck::new(), hearts_and_clubs());
    assert_eq!(game.check_eliminate(1), Err(GameError::EliminateNoGreaterCard));
    assert_eq!(game.check_eliminate(2), Err(GameError::EliminateNoGreaterCard));
    assert_eq!(game.eliminate(1).err(), Some(GameError::EliminateNoGreaterCard));
    assert_eq!(game.eliminate(2).err(), Some(GameError::EliminateNoGreaterCard));
    assert_eq!(rows(&game), hearts_and_clubs().to_vec());
    assert_eq!(game.deck().len(), 52);
    assert!(game.discard_pile().is_empty());
    assert!(game.end().events().is_empty());
}

#[test]
fn eliminate_looks_at_tops_only() {
    let table = [
        vec![card(Suit::Hearts, Rank::Num(2))],
        vec![card(Suit::Hearts, Rank::Num(5)), card(Suit::Spades, Rank::Num(5))],
        vec![card(Suit::Hearts, Rank::Num(9)), card(Suit::Hearts, Rank::Ace)],
        vec![],
    ];
    let game = Game::with_table(Deck::new(), table);
    assert_eq!(game.check_eliminate(0), Err(GameError::EliminateNoGreaterCard));
    assert_eq!(game.check_eliminate(2), Ok(()));
}

#[test]
fn equal_cards_do_not_eliminate_each_other() {
    let table = [
        vec![card(Suit::Hearts, Rank::King)],
        vec![card(Suit::Hearts, Rank::King)],
        vec![],
        vec![],
    ];
    let game = Game::with_table(Deck::new(), table);
    assert_eq!(game.check_eliminate(0), Err(GameError::EliminateNoGreaterCard));
    assert_eq!(game.check_eliminate(1), Err(GameError::EliminateNoGreaterCard));
}

#[test]
fn the_greater_card_may_lie_on_any_row() {
    for low in 0..4 {
        for high in 0..4 {
            if low == high {
                continue;
            }
            let mut table = [vec![], vec![], vec![], vec![]];
            table[low].push(card(Suit::Spades, Rank::Num(10)));
            table[high].push(card(Suit::Spades, Rank::Knight));
            let mut game = Game::with_table(Deck::new(), table);
            assert_eq!(game.check_eliminate(high), Err(GameError::EliminateNoGreaterCard));
            assert_eq!(*game.eliminate(low).unwrap(), Event::Eliminate(low));
            assert!(game.table()[low].is_empty());
            assert_eq!(game.table()[high], vec![card(Suit::Spades, Rank::Knight)]);
        }
    }
}

fn one_long_row() -> [Vec<Card>; 4] {
    [
        vec![card(Suit::Hearts, Rank::Num(2)), card(Suit::Spades, Rank::Num(7))],
        vec![card(Suit::Hearts, Rank::Num(5))],
        vec![],
        vec![card(Suit::Clubs, Rank::Num(3)), card(Suit::Clubs, Rank::Queen)],
    ]
}

#[test]
fn place_moves_a_top_card_to_an_empty_row() {
    let mut game = Game::with_table(Deck::new(), one_long_row());
    assert_eq!(game.check_place(0, 2), Ok(()));
    let event = *game.place(0, 2).unwrap();
    assert_eq!(event, Event::Place(0, 2));
    assert_eq!(
        rows(&game),
        vec![
            vec![card(Suit::Hearts, Rank::Num(2))],
            vec![card(Suit::Hearts, Rank::Num(5))],
            vec![card(Suit::Spades, Rank::Num(7))],
            vec![card(Suit::Clubs, Rank::Num(3)), card(Suit::Clubs, Rank::Queen)]
        ]
    );
    assert_eq!(game.deck().len(), 52);
    assert!(game.discard_pile().is_empty());
    assert_eq!(game.end().events(), &vec![Event::Place(0, 2)]);
}

#[test]
fn place_from_a_single_card_row_fails() {
    let mut game = Game::with_table(Deck::new(), one_long_row());
    for to in 0..4 {
        assert_eq!(game.check_place(1, to), Err(GameError::PlaceFromSingleCardRow));
        assert_eq!(game.place(1, to).err(), Some(GameError::PlaceFromSingleCardRow));
    }
    assert_eq!(rows(&game), one_long_row().to_vec());
    assert!(game.end().events().is_empty());
}

#[test]
fn place_from_an_empty_row_fails() {
    let mut game = Game::with_table(Deck::new(), one_long_row());
    for to in 0..4 {
        assert_eq!(game.check_place(2, to), Err(GameError::PlaceFromSingleCardRow));
        assert_eq!(game.place(2, to).err(), Some(GameError::PlaceFromSingleCardRow));
    }
    assert_eq!(rows(&game), one_long_row().to_vec());
}

#[test]
fn place_to_a_row_with_cards_fails() {
    let mut game = Game::with_table(Deck::new(), one_long_row());
    for to in [0, 1, 3] {
        assert_eq!(game.check_place(0, to), Err(GameError::PlaceToNonEmptyRow));
        assert_eq!(game.place(3, to).err(), Some(GameError::PlaceToNonEmptyRow));
    }
    assert_eq!(rows(&game), one_long_row().to_vec());
    assert_eq!(game.deck().len(), 52);
    assert!(game.discard_pile().is_empty());
    assert!(game.end().events().is_empty());
}

#[test]
fn placing_is_possible_with_an_empty_and_a_long_row() {
    assert!(Game::with_table(Deck::new(), one_long_row()).can_place());
    assert!(!Game::with_table(Deck::new(), hearts_and_clubs()).can_place());
    assert!(!Game::new(Deck::new()).can_place());
    let full = [
        vec![card(Suit::Hearts, Rank::Num(2)), card(Suit::Spades, Rank::Num(7))],
        vec![card(Suit::Hearts, Rank::Num(5))],
        vec![card(Suit::Hearts, Rank::Num(6))],
        vec![card(Suit::Clubs, Rank::Num(3))],
    ];
    assert!(!Game::with_table(Deck::new(), full).can_place());
}

#[test]
fn game_result_lose() {
    let game = Game::with_table(
        empty_deck(),
        [
            vec![card(Suit::Spades, Rank::King)],
            vec![card(Suit::Hearts, Rank::King)],
            vec![card(Suit::Clubs, Rank::King)],
            vec![card(Suit::Diamonds, Rank::Queen)],
        ],
    );
    assert_eq!(game.game_result(), Some(GameResult::Lose));

    let stuck = Game::with_table(
        empty_deck(),
        [
            vec![card(Suit::Spades, Rank::King), card(Suit::Hearts, Rank::Num(2))],
            vec![card(Suit::Hearts, Rank::King), card(Suit::Clubs, Rank::Num(2))],
            vec![card(Suit::Clubs, Rank::King), card(Suit::Diamonds, Rank::Num(2))],
            vec![card(Suit::Diamonds, Rank::King), card(Suit::Spades, Rank::Num(2))],
        ],
    );
    assert_eq!(stuck.game_result(), Some(GameResult::Lose));
}

#[test]
fn game_result_with_an_empty_table() {
    assert_eq!(Game::new(empty_deck()).game_result(), Some(GameResult::Lose));
}

#[test]
fn game_result_with_kings_below_other_cards() {
    let game = Game::with_table(
        empty_deck(),
        [
            vec![card(Suit::Spades, Rank::King)],
            vec![card(Suit::Hearts, Rank::King)],
            vec![card(Suit::Clubs, Rank::King)],
            vec![card(Suit::Diamonds, Rank::Num(2)), card(Suit::Diamonds, Rank::King)],
        ],
    );
    assert_eq!(game.game_result(), Some(GameResult::Lose));
}

#[test]
fn game_result_while_cards_are_in_the_deck() {
    let kings = [
        vec![card(Suit::Spades, Rank::King)],
        vec![card(Suit::Hearts, Rank::King)],
        vec![card(Suit::Clubs, Rank::King)],
        vec![card(Suit::Diamonds, Rank::King)],
    ];
    assert_eq!(Game::with_table(deck_of(1), kings.clone()).game_result(), None);
    assert_eq!(Game::with_table(deck_of(4), kings).game_result(), None);
    assert_eq!(Game::new(Deck::new()).game_result(), None);
}

#[test]
fn game_result_while_a_card_can_be_eliminated() {
    let game = Game::with_table(
        empty_deck(),
        [
            vec![card(Suit::Spades, Rank::King)],
            vec![card(Suit::Hearts, Rank::King)],
            vec![card(Suit::Clubs, Rank::King)],
            vec![card(Suit::Clubs, Rank::Queen)],
        ],
    );
    assert_eq!(game.game_result(), None);
}

#[test]
fn game_result_while_a_card_can_be_placed() {
    let game = Game::with_table(
        empty_deck(),
        [
            vec![card(Suit::Spades, Rank::King), card(Suit::Hearts, Rank::Num(2))],
            vec![card(Suit::Hearts, Rank::King)],
            vec![card(Suit::Clubs, Rank::King)],
            vec![],
        ],
    );
    assert_eq!(game.game_result(), None);
}

#[test]
fn one_empty_row_is_enough_to_go_on() {
    // Three rows are full and only one is empty: a card can still be placed.
    let game = Game::with_table(
        empty_deck(),
        [
            vec![],
            vec![card(Suit::Hearts, Rank::King)],
            vec![card(Suit::Clubs, Rank::King), card(Suit::Spades, Rank::Num(4))],
            vec![card(Suit::Diamonds, Rank::King)],
        ],
    );
    assert_eq!(game.game_result(), None);
    // An empty row without a row to take from ends the game.
    let game = Game::with_table(
        empty_deck(),
        [
            vec![],
            vec![card(Suit::Hearts, Rank::King)],
            vec![card(Suit::Clubs, Rank::King)],
            vec![card(Suit::Diamonds, Rank::King)],
        ],
    );
    assert_eq!(game.game_result(), Some(GameResult::Lose));
    // So does a row to take from without an empty row.
    let game = Game::with_table(
        empty_deck(),
        [
            vec![card(Suit::Spades, Rank::Num(3))],
            vec![card(Suit::Hearts, Rank::King)],
            vec![card(Suit::Diamonds, Rank::Num(2)), card(Suit::Clubs, Rank::King)],
            vec![card(Suit::Diamonds, Rank::King)],
        ],
    );
    assert_eq!(game.game_result(), Some(GameResult::Lose));
}

#[test]
fn four_kings_of_one_suit_win_too() {
    let king = card(Suit::Hearts, Rank::King);
    let game = Game::with_table(empty_deck(), [vec![king], vec![king], vec![king], vec![king]]);
    assert_eq!(game.game_result(), Some(GameResult::Win));
}

#[test]
fn a_game_played_through_its_first_moves() {
    let mut game = Game::new(Deck::new());
    assert!(game.deal().is_ok());
    // All four cards are spades, the king on row 0.
    assert_eq!(game.check_deal(), Err(GameError::DealWithSameColoredCardsOnTable));
    assert_eq!(game.eliminate(0).err(), Some(GameError::EliminateNoGreaterCard));
    assert_eq!(*game.eliminate(1).unwrap(), Event::Eliminate(1));
    assert_eq!(*game.eliminate(2).unwrap(), Event::Eliminate(2));
    assert_eq!(*game.eliminate(3).unwrap(), Event::Eliminate(3));
    assert_eq!(game.eliminate(1).err(), Some(GameError::EliminateEmptyRow));
    assert_eq!(game.place(0, 1).err(), Some(GameError::PlaceFromSingleCardRow));
    assert!(game.deal().is_ok());
    // Row 0 holds the king below the nine; rows 1 to 3 hold 8, 7 and 6.
    assert_eq!(*game.eliminate(3).unwrap(), Event::Eliminate(3));
    assert_eq!(*game.place(0, 3).unwrap(), Event::Place(0, 3));
    assert_eq!(
        rows(&game),
        vec![
            vec![card(Suit::Spades, Rank::King)],
            vec![card(Suit::Spades, Rank::Num(8))],
            vec![card(Suit::Spades, Rank::Num(7))],
            vec![card(Suit::Spades, Rank::Num(9))]
        ]
    );
    assert_eq!(game.deck().len(), 44);
    assert_eq!(
        game.discard_pile(),
        &vec![
            card(Suit::Spades, Rank::Queen),
            card(Suit::Spades, Rank::Knight),
            card(Suit::Spades, Rank::Num(10)),
            card(Suit::Spades, Rank::Num(6))
        ]
    );
    assert_eq!(game.game_result(), None);
    let history = game.end();
    assert_eq!(history.events().len(), 7);
    assert_eq!(history.last(), Some(&Event::Place(0, 3)));
    assert_eq!(history.events()[1], Event::Eliminate(1));
}

#[test]
fn ending_a_game_ends_its_history() {
    let mut game = Game::new(Deck::new());
    game.deal().unwrap();
    let mut history = game.end();
    assert!(history.start_date().is_some());
    assert!(history.end_date().is_some());
    assert!(history.push(Event::Eliminate(0)).is_err());
    assert_eq!(history.events().len(), 1);
}
