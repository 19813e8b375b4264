use anchor_lang::prelude::Pubkey;
use tokens_test::{
    address_bytes, check_authority, game_address, minter_signer_seeds, pda_minter, same_address,
    Game, Ledger, PanchoGameError, Table, GAME_LEN, REWARD_AMOUNT, WINNING_NUMBER,
};

const PROGRAM: [u8; 32] = [7u8; 32];
const PLAYER: [u8; 32] = [42u8; 32];

fn ready_ledger() -> Ledger {
    let mut ledger = Ledger::new(PROGRAM);
    assert_eq!(ledger.initialize(), Ok(()));
    ledger
}

#[test]
fn constants_have_reference_values() {
    assert_eq!(WINNING_NUMBER, 10);
    assert_eq!(REWARD_AMOUNT, 1);
    assert_eq!(GAME_LEN, 9);
}

#[test]
fn new_game_starts_at_zero() {
    let g = Game::new();
    assert_eq!(g.counter, 0);
    assert!(!g.is_over());
}

#[test]
fn game_play_counts_and_wins_on_tenth() {
    let mut g = Game::new();
    for expected in 1..=9u8 {
        assert_eq!(g.play(), Ok(false));
        assert_eq!(g.counter, expected);
    }
    assert_eq!(g.play(), Ok(true));
    assert_eq!(g.counter, 10);
    assert!(g.is_over());
}

#[test]
fn finished_game_refuses_play() {
    let mut g = Game { counter: 10 };
    assert_eq!(g.play(), Err(PanchoGameError::GameIsOver));
    assert_eq!(g.counter, 10);
    let mut beyond = Game { counter: 200 };
    assert_eq!(beyond.play(), Err(PanchoGameError::GameIsOver));
    assert_eq!(beyond.counter, 200);
}

#[test]
fn threshold_scenario() {
    let mut ledger = ready_ledger();
    assert_eq!(ledger.create_game(&PLAYER), Ok(()));
    assert_eq!(ledger.game(&PLAYER), Some(Game { counter: 0 }));
    for expected in 1..=9u8 {
        assert_eq!(ledger.play_game(&PLAYER), Ok(false));
        assert_eq!(ledger.game(&PLAYER), Some(Game { counter: expected }));
        assert_eq!(ledger.balance(&PLAYER), 0);
    }
    assert_eq!(ledger.play_game(&PLAYER), Ok(true));
    assert_eq!(ledger.game(&PLAYER), Some(Game { counter: 10 }));
    assert_eq!(ledger.balance(&PLAYER), 1);
    assert_eq!(ledger.play_game(&PLAYER), Err(PanchoGameError::GameIsOver));
    assert_eq!(ledger.game(&PLAYER), Some(Game { counter: 10 }));
    assert_eq!(ledger.balance(&PLAYER), 1);
}

#[test]
fn foreign_authority_blocks_reward_and_increment() {
    let mut ledger = ready_ledger();
    assert_eq!(ledger.create_game(&PLAYER), Ok(()));
    ledger.set_reward_authority([9u8; 32]);
    for _ in 0..9 {
        assert_eq!(ledger.play_game(&PLAYER), Ok(false));
    }
    assert_eq!(ledger.play_game(&PLAYER), Err(PanchoGameError::AuthorityMismatch));
    assert_eq!(ledger.game(&PLAYER), Some(Game { counter: 9 }));
    assert_eq!(ledger.balance(&PLAYER), 0);
}

#[test]
fn restoring_authority_lets_reward_through() {
    let mut ledger = ready_ledger();
    let bound = ledger.reward_authority().unwrap();
    assert_eq!(ledger.create_game(&PLAYER), Ok(()));
    ledger.set_reward_authority([9u8; 32]);
    for _ in 0..9 {
        assert_eq!(ledger.play_game(&PLAYER), Ok(false));
    }
    assert_eq!(ledger.play_game(&PLAYER), Err(PanchoGameError::AuthorityMismatch));
    ledger.set_reward_authority(bound);
    assert_eq!(ledger.play_game(&PLAYER), Ok(true));
    assert_eq!(ledger.balance(&PLAYER), 1);
}

#[test]
fn create_game_twice_fails() {
    let mut ledger = ready_ledger();
    assert_eq!(ledger.create_game(&PLAYER), Ok(()));
    assert_eq!(ledger.create_game(&PLAYER), Err(PanchoGameError::AlreadyExists));
    assert_eq!(ledger.play_game(&PLAYER), Ok(false));
    assert_eq!(ledger.create_game(&PLAYER), Err(PanchoGameError::AlreadyExists));
    assert_eq!(ledger.game(&PLAYER), Some(Game { counter: 1 }));
}

#[test]
fn players_are_independent() {
    let other = [3u8; 32];
    let mut ledger = ready_ledger();
    assert_eq!(ledger.create_game(&PLAYER), Ok(()));
    assert_eq!(ledger.create_game(&other), Ok(()));
    for _ in 0..10 {
        assert!(ledger.play_game(&PLAYER).is_ok());
    }
    assert_eq!(ledger.game(&other), Some(Game { counter: 0 }));
    assert_eq!(ledger.balance(&other), 0);
    assert_eq!(ledger.balance(&PLAYER), 1);
}

#[test]
fn initialize_twice_fails() {
    let mut ledger = ready_ledger();
    let bound = ledger.reward_authority();
    assert_eq!(ledger.initialize(), Err(PanchoGameError::AlreadyInitialized));
    assert_eq!(ledger.reward_authority(), bound);
}

#[test]
fn initialize_binds_delegated_signer() {
    let ledger = ready_ledger();
    let (minter, _bump) = pda_minter(&PROGRAM).unwrap();
    assert_eq!(ledger.reward_authority(), Some(minter));
    assert_eq!(ledger.program_id(), PROGRAM);
}

#[test]
fn play_without_record_fails() {
    let mut ledger = ready_ledger();
    assert_eq!(ledger.play_game(&PLAYER), Err(PanchoGameError::GameNotFound));
    assert_eq!(ledger.game(&PLAYER), None);
}

#[test]
fn winning_play_before_initialize_fails() {
    let mut ledger = Ledger::new(PROGRAM);
    assert_eq!(ledger.reward_authority(), None);
    assert_eq!(ledger.create_game(&PLAYER), Ok(()));
    for _ in 0..9 {
        assert_eq!(ledger.play_game(&PLAYER), Ok(false));
    }
    assert_eq!(ledger.play_game(&PLAYER), Err(PanchoGameError::NotInitialized));
    assert_eq!(ledger.game(&PLAYER), Some(Game { counter: 9 }));
    assert_eq!(ledger.balance(&PLAYER), 0);
}

#[test]
fn minter_matches_ledger_derivation() {
    let program = Pubkey::new_from_array(PROGRAM);
    let (expected, expected_bump) = Pubkey::find_program_address(&[b"pda-minter"], &program);
    let (minter, bump) = pda_minter(&PROGRAM).unwrap();
    assert_eq!(minter, expected.to_bytes());
    assert_eq!(bump, expected_bump);
    assert_ne!(minter, PROGRAM);
    assert_eq!(pda_minter(&PROGRAM), Ok((minter, bump)));
}

#[test]
fn game_slot_matches_ledger_derivation() {
    let program = Pubkey::new_from_array(PROGRAM);
    let (expected, expected_bump) =
        Pubkey::find_program_address(&[b"game", &PLAYER], &program);
    let (slot, bump) = game_address(&PROGRAM, &PLAYER).unwrap();
    assert_eq!(slot, expected.to_bytes());
    assert_eq!(bump, expected_bump);
    assert_ne!(slot, PLAYER);
    let (other_slot, _) = game_address(&PROGRAM, &[3u8; 32]).unwrap();
    assert_ne!(slot, other_slot);
}

#[test]
fn signer_seeds_recreate_minter() {
    let (minter, bump) = pda_minter(&PROGRAM).unwrap();
    let seeds = minter_signer_seeds(bump);
    assert_eq!(seeds, vec![b"pda-minter".to_vec(), vec![bump]]);
    let slices: Vec<&[u8]> = seeds.iter().map(|s| s.as_slice()).collect();
    let recreated =
        Pubkey::create_program_address(&slices, &Pubkey::new_from_array(PROGRAM)).unwrap();
    assert_eq!(recreated.to_bytes(), minter);
}

#[test]
fn authority_check_outcomes() {
    let (minter, bump) = pda_minter(&PROGRAM).unwrap();
    assert_eq!(check_authority(&PROGRAM, &minter), Ok(bump));
    assert_eq!(check_authority(&PROGRAM, &PLAYER), Err(PanchoGameError::AuthorityMismatch));
}

#[test]
fn address_helpers() {
    let mut a = [0u8; 32];
    a[31] = 5;
    assert_eq!(address_bytes(&a), a.to_vec());
    assert!(same_address(&a, &a));
    assert!(!same_address(&a, &[0u8; 32]));
}

#[test]
fn table_stores_one_value_per_key() {
    let mut t: Table<u64> = Table::new();
    assert_eq!(t.get(&PLAYER), None);
    t.set(&PLAYER, 4);
    t.set(&[1u8; 32], 8);
    t.set(&PLAYER, 5);
    assert_eq!(t.get(&PLAYER), Some(5));
    assert_eq!(t.get(&[1u8; 32]), Some(8));
}

