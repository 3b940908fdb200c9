//! An escrow-backed commitment ledger: users lock funds against a habit goal,
//! and a single authority resolves each commitment as won (funds returned) or
//! lost (funds sent to the treasury).

mod pubkey;
mod state;
mod ledger;
pub mod habits_escrow;
pub mod laws;

pub use pubkey::{Pubkey, program_address};
pub use state::{Bet, BetStatus, Config, ErrorCode};
pub use ledger::{Ledger, lemma_balance_defined, bet_address, bet_label, config_address, config_label, pay, pay_overflows, transfer_all, transfer_overflows};
pub use habits_escrow::{
    CompleteBet, CreateBet, ForfeitBet, Initialize, UpdateConfig, complete_bet, create_bet, forfeit_bet,
    initialize, update_config,
};
