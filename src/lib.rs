pub mod authority;
pub mod errors;
pub mod laws;
pub mod ledger;
pub mod state;
pub mod table;

pub use authority::{
    address_bytes, check_authority, game_address, minter_signer_seeds, pda_minter, same_address,
    Address,
};
pub use errors::PanchoGameError;
pub use ledger::{Ledger, LedgerView};
pub use state::{Game, GAME_LEN, REWARD_AMOUNT, WINNING_NUMBER};
pub use table::Table;
