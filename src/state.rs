//! The records the ledger keeps, and the errors its operations report.

use vstd::prelude::*;
use crate::pubkey::Pubkey;

verus! {

/// The singleton configuration: who resolves bets and where forfeits go.
#[derive(Clone, Copy, Debug)]
pub struct Config {
    pub admin: Pubkey,
    pub treasury: Pubkey,
    /// Bump seed of the configuration's derived address.
    pub bump: u8,
}

/// One escrowed commitment, stored at the address derived from its user and id.
#[derive(Debug)]
pub struct Bet {
    pub user: Pubkey,
    pub bet_id: [u8; 32],
    pub amount: u64,
    pub habit_id: String,
    pub start_date: i64,
    pub end_date: i64,
    pub target_streak: u32,
    pub status: BetStatus,
    /// Bump seed of the record's derived address.
    pub bump: u8,
    pub created_at: i64,
}

#[derive(Clone, Copy, Debug, PartialEq, Eq, Structural)]
pub enum BetStatus {
    Active,
    Won,
    Lost,
}

impl Default for BetStatus {
    fn default() -> (r: BetStatus)
        ensures
            r == BetStatus::Active,
    {
        BetStatus::Active
    }
}

/// Why an operation was refused. Every refusal leaves the ledger unchanged.
#[derive(Clone, Copy, Debug, PartialEq, Eq, Structural)]
pub enum ErrorCode {
    /// The caller is not the configured admin.
    Unauthorized,
    /// A bet must escrow a positive amount.
    InvalidAmount,
    /// A bet must end after it starts.
    InvalidDates,
    /// A habit label holds at most 64 bytes.
    HabitIdTooLong,
    /// A bet's target streak must be positive.
    InvalidTargetStreak,
    /// The bet has already been resolved.
    BetNotActive,
    /// The account given as the bet's user is not the bet's user.
    InvalidUser,
    /// The account given as the treasury is not the configured treasury.
    InvalidTreasury,
    /// A balance would exceed the range of `u64`.
    Overflow,
    /// The configuration or the bet record does not exist.
    AccountNotInitialized,
    /// A record already exists at that address.
    AccountAlreadyInUse,
    /// The given address is not the one derived from the record's seeds.
    ConstraintSeeds,
    /// No bump seed yields a derived address for the record's seeds.
    NoViableAddress,
    /// The payer's balance is below the amount to escrow.
    InsufficientFunds,
}

impl ErrorCode {
    /// A human-readable description of the error.
    pub fn message(&self) -> (r: String) {
        let s = match self {
            ErrorCode::Unauthorized => "Unauthorized: Only admin can perform this action",
            ErrorCode::InvalidAmount => "Invalid amount: Must be greater than 0",
            ErrorCode::InvalidDates => "Invalid dates: End date must be after start date",
            ErrorCode::HabitIdTooLong => "Habit ID too long: Maximum 64 characters",
            ErrorCode::InvalidTargetStreak => "Invalid target streak: Must be greater than 0",
            ErrorCode::BetNotActive => "Bet not active: Already resolved",
            ErrorCode::InvalidUser => "Invalid user: Account does not match bet user",
            ErrorCode::InvalidTreasury => "Invalid treasury: Account does not match config treasury",
            ErrorCode::Overflow => "Arithmetic overflow",
            ErrorCode::AccountNotInitialized => "Account not initialized",
            ErrorCode::AccountAlreadyInUse => "Account already in use",
            ErrorCode::ConstraintSeeds => "Address does not match its seeds",
            ErrorCode::NoViableAddress => "Unable to find a viable program address bump seed",
            ErrorCode::InsufficientFunds => "Insufficient funds",
        };
        s.to_string()
    }
}

} // verus!
