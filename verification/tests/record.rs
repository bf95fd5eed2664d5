use ignite::{
    declare_winner, initialize_game, join_game, submit_move, trigger_collapse, DeclareWinner,
    GameState, GameStatus, Identity, InitializeGame, JoinGame, PlayerState, SubmitMove, Tile,
    TriggerCollapse,
};

fn id(n: u8) -> Identity {
    Identity { bytes: [n; 32] }
}

fn founded_by(n: u8, created_at: i64) -> InitializeGame {
    InitializeGame { authority: id(n), created_at }
}

fn paid() -> JoinGame {
    JoinGame { payment_collected: true }
}

fn signed_by(n: u8) -> SubmitMove {
    SubmitMove { player: id(n) }
}

fn ordered_by(n: u8) -> TriggerCollapse {
    TriggerCollapse { authority: id(n) }
}

fn settled_by(n: u8, payout_confirmed: bool) -> DeclareWinner {
    DeclareWinner { authority: id(n), payout_confirmed }
}

const AUTHORITY: u8 = 200;

fn active() -> GameState {
    let mut game = initialize_game(founded_by(AUTHORITY, 1000), [1; 16], 100, 5).unwrap();
    join_game(&mut game, paid(), id(1), 2, 1).unwrap();
    join_game(&mut game, paid(), id(2), 3, 3).unwrap();
    game
}

/// Writes a record out field by field, as a store would.
fn to_bytes(game: &GameState) -> Vec<u8> {
    let mut out = Vec::new();
    out.extend_from_slice(&game.game_id);
    out.extend_from_slice(&game.authority.bytes);
    out.push(match game.status {
        GameStatus::Waiting => 0,
        GameStatus::Active => 1,
        GameStatus::Resolved => 2,
    });
    out.push(game.grid_size);
    out.push(game.grid.len() as u8);
    for tile in &game.grid {
        out.push(if *tile == Tile::Hazard { 1 } else { 0 });
    }
    out.push(game.players.len() as u8);
    for p in &game.players {
        out.extend_from_slice(&p.pubkey.bytes);
        out.push(p.x);
        out.push(p.y);
        out.push(p.alive as u8);
    }
    out.extend_from_slice(&game.buy_in.to_le_bytes());
    out.extend_from_slice(&game.prize_pool.to_le_bytes());
    match game.winner {
        None => out.push(0),
        Some(w) => {
            out.push(1);
            out.extend_from_slice(&w.bytes);
        }
    }
    out.extend_from_slice(&game.created_at.to_le_bytes());
    out.push(game.collapse_round);
    out
}

fn take<const N: usize>(bytes: &[u8], at: &mut usize) -> [u8; N] {
    let mut out = [0u8; N];
    out.copy_from_slice(&bytes[*at..*at + N]);
    *at += N;
    out
}

/// Reads back what `to_bytes` wrote.
fn from_bytes(bytes: &[u8]) -> GameState {
    let mut at = 0;
    let game_id = take::<16>(bytes, &mut at);
    let authority = Identity { bytes: take::<32>(bytes, &mut at) };
    let status = match take::<1>(bytes, &mut at)[0] {
        0 => GameStatus::Waiting,
        1 => GameStatus::Active,
        _ => GameStatus::Resolved,
    };
    let grid_size = take::<1>(bytes, &mut at)[0];
    let tiles = take::<1>(bytes, &mut at)[0];
    let mut grid = Vec::new();
    for _ in 0..tiles {
        grid.push(if take::<1>(bytes, &mut at)[0] == 1 { Tile::Hazard } else { Tile::Safe });
    }
    let count = take::<1>(bytes, &mut at)[0];
    let mut players = Vec::new();
    for _ in 0..count {
        let pubkey = Identity { bytes: take::<32>(bytes, &mut at) };
        let x = take::<1>(bytes, &mut at)[0];
        let y = take::<1>(bytes, &mut at)[0];
        let alive = take::<1>(bytes, &mut at)[0] == 1;
        players.push(PlayerState { pubkey, x, y, alive });
    }
    let buy_in = u64::from_le_bytes(take::<8>(bytes, &mut at));
    let prize_pool = u64::from_le_bytes(take::<8>(bytes, &mut at));
    let winner = match take::<1>(bytes, &mut at)[0] {
        0 => None,
        _ => Some(Identity { bytes: take::<32>(bytes, &mut at) }),
    };
    let created_at = i64::from_le_bytes(take::<8>(bytes, &mut at));
    let collapse_round = take::<1>(bytes, &mut at)[0];
    assert_eq!(at, bytes.len());
    GameState {
        game_id,
        authority,
        status,
        grid_size,
        grid,
        players,
        buy_in,
        prize_pool,
        winner,
        created_at,
        collapse_round,
    }
}

/// Runs one command on a record and on its stored-and-restored copy and compares both the
/// answers and the bytes of the records afterwards.
fn same_after_round_trip<T: PartialEq + std::fmt::Debug>(
    game: &GameState,
    command: impl Fn(&mut GameState) -> T,
) {
    let mut direct = game.clone();
    let mut restored = from_bytes(&to_bytes(game));
    assert_eq!(restored, *game);
    assert!(restored.is_well_formed());
    assert_eq!(command(&mut direct), command(&mut restored));
    assert_eq!(to_bytes(&direct), to_bytes(&restored));
}

#[test]
fn stored_and_restored_record_answers_alike_at_every_stage() {
    let created = initialize_game(founded_by(AUTHORITY, 1000), [1; 16], 100, 5).unwrap();
    same_after_round_trip(&created, |g| join_game(g, paid(), id(1), 2, 1));
    same_after_round_trip(&created, |g| join_game(g, paid(), id(1), 9, 9));

    let mut waiting = created.clone();
    join_game(&mut waiting, paid(), id(1), 2, 1).unwrap();
    same_after_round_trip(&waiting, |g| join_game(g, paid(), id(2), 3, 3));
    same_after_round_trip(&waiting, |g| join_game(g, paid(), id(2), 2, 1));

    let game = active();
    same_after_round_trip(&game, |g| submit_move(g, signed_by(1), 2, 2));
    same_after_round_trip(&game, |g| submit_move(g, signed_by(1), 4, 4));
    same_after_round_trip(&game, |g| {
        trigger_collapse(g, ordered_by(AUTHORITY), vec![(2, 1), (9, 9)])
    });
    same_after_round_trip(&game, |g| declare_winner(g, settled_by(AUTHORITY, true)));

    let mut late = game.clone();
    trigger_collapse(&mut late, ordered_by(AUTHORITY), vec![(2, 1)]).unwrap();
    same_after_round_trip(&late, |g| declare_winner(g, settled_by(AUTHORITY, true)));
    same_after_round_trip(&late, |g| declare_winner(g, settled_by(AUTHORITY, false)));

    let mut resolved = late.clone();
    declare_winner(&mut resolved, settled_by(AUTHORITY, true)).unwrap();
    same_after_round_trip(&resolved, |g| declare_winner(g, settled_by(AUTHORITY, true)));
    same_after_round_trip(&resolved, |g| join_game(g, paid(), id(3), 0, 0));
}

#[test]
fn records_made_by_commands_are_well_formed() {
    let mut game = active();
    assert!(game.is_well_formed());
    submit_move(&mut game, signed_by(1), 2, 2).unwrap();
    assert!(game.is_well_formed());
    trigger_collapse(&mut game, ordered_by(AUTHORITY), vec![(2, 2)]).unwrap();
    assert!(game.is_well_formed());
    declare_winner(&mut game, settled_by(AUTHORITY, true)).unwrap();
    assert!(game.is_well_formed());
}

#[test]
fn grid_of_the_wrong_length_is_not_well_formed() {
    let mut game = active();
    game.grid.pop();
    assert!(!game.is_well_formed());
    let mut game = active();
    game.grid.push(Tile::Safe);
    assert!(!game.is_well_formed());
}

#[test]
fn grid_size_out_of_range_is_not_well_formed() {
    let mut game = initialize_game(founded_by(AUTHORITY, 0), [1; 16], 100, 1).unwrap();
    game.grid_size = 0;
    game.grid.clear();
    assert!(!game.is_well_formed());
    let mut game = initialize_game(founded_by(AUTHORITY, 0), [1; 16], 100, 10).unwrap();
    game.grid_size = 11;
    game.grid.resize(121, Tile::Safe);
    assert!(!game.is_well_formed());
}

#[test]
fn player_off_the_grid_is_not_well_formed() {
    let mut game = active();
    game.players[1].x = 5;
    assert!(!game.is_well_formed());
    let mut game = active();
    game.players[0].y = 200;
    assert!(!game.is_well_formed());
}

#[test]
fn living_player_on_a_hazard_is_not_well_formed() {
    let mut game = active();
    game.grid[1 * 5 + 2] = Tile::Hazard;
    assert!(!game.is_well_formed());
    game.players[0].alive = false;
    assert!(game.is_well_formed());
}

#[test]
fn pool_that_does_not_match_the_roster_is_not_well_formed() {
    let mut game = active();
    game.prize_pool = 199;
    assert!(!game.is_well_formed());
    game.prize_pool = 200;
    assert!(game.is_well_formed());
}

#[test]
fn winner_and_status_must_agree() {
    let mut game = active();
    game.winner = Some(id(1));
    assert!(!game.is_well_formed());
    let mut game = active();
    game.status = GameStatus::Resolved;
    game.prize_pool = 0;
    assert!(!game.is_well_formed());
    game.winner = Some(id(1));
    assert!(game.is_well_formed());
    game.prize_pool = 1;
    assert!(!game.is_well_formed());
}

#[test]
fn roster_of_eleven_is_not_well_formed() {
    let mut game = initialize_game(founded_by(AUTHORITY, 0), [1; 16], 0, 10).unwrap();
    for i in 0..10u8 {
        game.players.push(PlayerState { pubkey: id(i), x: i, y: 0, alive: true });
    }
    assert!(game.is_well_formed());
    game.players.push(PlayerState { pubkey: id(10), x: 0, y: 1, alive: true });
    assert!(!game.is_well_formed());
}

#[test]
fn pool_check_does_not_wrap_for_large_buy_ins() {
    let mut game = initialize_game(founded_by(AUTHORITY, 0), [1; 16], u64::MAX, 10).unwrap();
    game.players.push(PlayerState { pubkey: id(1), x: 0, y: 0, alive: true });
    game.players.push(PlayerState { pubkey: id(2), x: 1, y: 0, alive: true });
    // two buy-ins do not fit the counter; the wrapped product must not be taken for them
    game.prize_pool = u64::MAX.wrapping_mul(2);
    assert!(!game.is_well_formed());
}

#[test]
fn status_and_tile_codes_read_back_as_written() {
    assert_eq!(GameStatus::Waiting.code(), 0);
    assert_eq!(GameStatus::Active.code(), 1);
    assert_eq!(GameStatus::Resolved.code(), 2);
    assert_eq!(Tile::Safe.code(), 0);
    assert_eq!(Tile::Hazard.code(), 1);
    for status in [GameStatus::Waiting, GameStatus::Active, GameStatus::Resolved] {
        assert_eq!(GameStatus::from_code(status.code()), Some(status));
    }
    for tile in [Tile::Safe, Tile::Hazard] {
        assert_eq!(Tile::from_code(tile.code()), Some(tile));
    }
}

#[test]
fn unknown_codes_stand_for_nothing() {
    assert_eq!(GameStatus::from_code(3), None);
    assert_eq!(GameStatus::from_code(255), None);
    assert_eq!(Tile::from_code(2), None);
    assert_eq!(Tile::from_code(255), None);
}
