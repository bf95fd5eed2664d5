use ignite::{
    initialize_game, join_due, join_game, GameState, GameStatus, Identity, IgniteError,
    InitializeGame, JoinGame, PlayerState, Tile,
};

fn id(n: u8) -> Identity {
    Identity { bytes: [n; 32] }
}

fn founded_by(n: u8, created_at: i64) -> InitializeGame {
    InitializeGame { authority: id(n), created_at }
}

fn paid() -> JoinGame {
    JoinGame { payment_collected: true }
}

fn unpaid() -> JoinGame {
    JoinGame { payment_collected: false }
}

fn fresh(buy_in: u64, size: u8) -> GameState {
    initialize_game(founded_by(0, 1000), [1; 16], buy_in, size).unwrap()
}

/// A waiting game with `n` players in the top row, as storage might hand it over.
fn waiting_with(n: u8, buy_in: u64) -> GameState {
    let mut game = fresh(buy_in, 10);
    for i in 0..n {
        game.players.push(PlayerState { pubkey: id(100 + i), x: i, y: 0, alive: true });
    }
    game.prize_pool = buy_in * n as u64;
    assert!(game.is_well_formed());
    game
}

#[test]
fn first_join_adds_player_and_buy_in() {
    let mut game = fresh(100, 5);
    assert_eq!(join_game(&mut game, paid(), id(1), 2, 3), Ok(()));
    assert_eq!(game.players, vec![PlayerState { pubkey: id(1), x: 2, y: 3, alive: true }]);
    assert_eq!(game.prize_pool, 100);
    assert_eq!(game.status, GameStatus::Waiting);
    assert!(game.grid.iter().all(|t| *t == Tile::Safe));
    assert!(game.is_well_formed());
}

#[test]
fn second_join_activates_the_game_at_once() {
    let mut game = fresh(100, 5);
    join_game(&mut game, paid(), id(1), 0, 0).unwrap();
    assert_eq!(game.status, GameStatus::Waiting);
    join_game(&mut game, paid(), id(2), 4, 4).unwrap();
    assert_eq!(game.status, GameStatus::Active);
    assert_eq!(game.players.len(), 2);
    assert_eq!(game.prize_pool, 200);
    assert_eq!(game.players[1], PlayerState { pubkey: id(2), x: 4, y: 4, alive: true });
}

#[test]
fn third_join_finds_the_game_no_longer_joinable() {
    let mut game = fresh(100, 5);
    join_game(&mut game, paid(), id(1), 0, 0).unwrap();
    join_game(&mut game, paid(), id(2), 1, 0).unwrap();
    let before = game.clone();
    assert_eq!(join_game(&mut game, paid(), id(3), 2, 0), Err(IgniteError::GameNotJoinable));
    assert_eq!(game, before);
}

#[test]
fn fifth_player_brings_pool_to_five_buy_ins() {
    let mut game = waiting_with(4, 100);
    assert_eq!(game.prize_pool, 400);
    assert_eq!(join_game(&mut game, paid(), id(5), 5, 5), Ok(()));
    assert_eq!(game.players.len(), 5);
    assert_eq!(game.prize_pool, 500);
    assert_eq!(game.status, GameStatus::Active);
    assert!(game.is_well_formed());
}

#[test]
fn second_join_on_same_tile_is_occupied() {
    let mut game = fresh(100, 5);
    join_game(&mut game, paid(), id(1), 2, 2).unwrap();
    let before = game.clone();
    assert_eq!(join_game(&mut game, paid(), id(2), 2, 2), Err(IgniteError::TileOccupied));
    assert_eq!(game, before);
    assert_eq!(game.prize_pool, 100);
}

#[test]
fn tile_of_an_eliminated_player_is_free() {
    let mut game = waiting_with(1, 100);
    game.players[0].alive = false;
    assert!(game.is_well_formed());
    assert_eq!(join_game(&mut game, paid(), id(9), 0, 0), Ok(()));
    assert_eq!(game.players.len(), 2);
}

#[test]
fn duplicate_identity_on_another_tile_is_accepted() {
    let mut game = fresh(100, 5);
    join_game(&mut game, paid(), id(1), 0, 0).unwrap();
    assert_eq!(join_game(&mut game, paid(), id(1), 1, 1), Ok(()));
    assert_eq!(game.players.len(), 2);
    assert_eq!(game.prize_pool, 200);
}

#[test]
fn join_full_roster_is_game_full() {
    let mut game = waiting_with(10, 100);
    let before = game.clone();
    assert_eq!(join_game(&mut game, paid(), id(11), 5, 5), Err(IgniteError::GameFull));
    assert_eq!(game, before);
}

#[test]
fn tenth_player_still_fits() {
    let mut game = waiting_with(9, 100);
    assert_eq!(join_game(&mut game, paid(), id(10), 9, 9), Ok(()));
    assert_eq!(game.players.len(), 10);
    assert_eq!(game.prize_pool, 1000);
}

#[test]
fn join_outside_the_grid_is_out_of_bounds() {
    let mut game = fresh(100, 3);
    let before = game.clone();
    assert_eq!(join_game(&mut game, paid(), id(1), 3, 0), Err(IgniteError::OutOfBounds));
    assert_eq!(join_game(&mut game, paid(), id(1), 0, 3), Err(IgniteError::OutOfBounds));
    assert_eq!(join_game(&mut game, paid(), id(1), 255, 255), Err(IgniteError::OutOfBounds));
    assert_eq!(game, before);
}

#[test]
fn join_past_the_row_end_is_out_of_bounds_even_if_the_index_fits() {
    let mut game = fresh(100, 3);
    assert_eq!(join_game(&mut game, paid(), id(1), 5, 0), Err(IgniteError::OutOfBounds));
    assert_eq!(join_game(&mut game, paid(), id(1), 2, 2), Ok(()));
}

#[test]
fn join_on_a_hazard_is_tile_is_lava() {
    let mut game = fresh(100, 3);
    game.grid[1 * 3 + 2] = Tile::Hazard;
    let before = game.clone();
    assert_eq!(join_game(&mut game, paid(), id(1), 2, 1), Err(IgniteError::TileIsLava));
    assert_eq!(game, before);
    assert_eq!(join_game(&mut game, paid(), id(1), 1, 2), Ok(()));
}

#[test]
fn join_without_payment_is_collaborator_failure() {
    let mut game = fresh(100, 3);
    let before = game.clone();
    assert_eq!(join_game(&mut game, unpaid(), id(1), 1, 1), Err(IgniteError::CollaboratorFailure));
    assert_eq!(game, before);
}

#[test]
fn join_that_would_overflow_the_pool_fails_closed() {
    let mut game = waiting_with(1, u64::MAX);
    assert_eq!(game.prize_pool, u64::MAX);
    let before = game.clone();
    assert_eq!(join_game(&mut game, paid(), id(2), 5, 5), Err(IgniteError::ArithmeticOverflow));
    assert_eq!(game, before);
}

#[test]
fn join_checks_run_in_order() {
    // not waiting comes before everything else
    let mut active = waiting_with(10, 100);
    active.status = GameStatus::Active;
    assert_eq!(
        join_game(&mut active, unpaid(), id(1), 200, 200),
        Err(IgniteError::GameNotJoinable)
    );
    // a full roster comes before the tile checks
    let mut full = waiting_with(10, 100);
    assert_eq!(join_game(&mut full, unpaid(), id(1), 200, 200), Err(IgniteError::GameFull));
    // the tile checks come before the payment
    let mut game = waiting_with(1, u64::MAX);
    assert_eq!(join_game(&mut game, unpaid(), id(1), 10, 0), Err(IgniteError::OutOfBounds));
    game.grid[99] = Tile::Hazard;
    assert_eq!(join_game(&mut game, unpaid(), id(1), 9, 9), Err(IgniteError::TileIsLava));
    assert_eq!(join_game(&mut game, unpaid(), id(1), 0, 0), Err(IgniteError::TileOccupied));
    // the payment comes before the overflow
    assert_eq!(join_game(&mut game, unpaid(), id(1), 5, 5), Err(IgniteError::CollaboratorFailure));
    assert_eq!(join_game(&mut game, paid(), id(1), 5, 5), Err(IgniteError::ArithmeticOverflow));
}

#[test]
fn join_due_quotes_the_buy_in() {
    let game = fresh(125, 4);
    assert_eq!(join_due(&game, 3, 3), Ok(125));
}

#[test]
fn join_due_reports_what_would_fail() {
    let mut game = fresh(125, 4);
    assert_eq!(join_due(&game, 4, 0), Err(IgniteError::OutOfBounds));
    join_game(&mut game, paid(), id(1), 1, 1).unwrap();
    assert_eq!(join_due(&game, 1, 1), Err(IgniteError::TileOccupied));
    join_game(&mut game, paid(), id(2), 2, 2).unwrap();
    assert_eq!(join_due(&game, 3, 3), Err(IgniteError::GameNotJoinable));
    let rich = waiting_with(1, u64::MAX);
    assert_eq!(join_due(&rich, 5, 5), Err(IgniteError::ArithmeticOverflow));
}
