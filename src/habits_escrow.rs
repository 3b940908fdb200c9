//! The operations: configuration, bet creation and bet resolution. Each one
//! checks every condition before it changes anything, so a refused operation
//! leaves the ledger as it was.

use vstd::prelude::*;
use crate::ledger::{Ledger, bet_address, config_address, pay, pay_overflows, transfer_all, transfer_overflows};
use crate::pubkey::Pubkey;
use crate::state::{Bet, BetStatus, Config, ErrorCode};

verus! {

broadcast use crate::ledger::lemma_balance_defined;

/// Accounts of `initialize`: the signer who becomes admin.
#[derive(Clone, Copy, Debug)]
pub struct Initialize {
    pub admin: Pubkey,
}

/// Accounts of `update_config`: the signing caller.
#[derive(Clone, Copy, Debug)]
pub struct UpdateConfig {
    pub admin: Pubkey,
}

/// Accounts of `create_bet`: the address of the new record and its funding signer.
#[derive(Clone, Copy, Debug)]
pub struct CreateBet {
    pub bet: Pubkey,
    pub user: Pubkey,
}

/// Accounts of `complete_bet`: the record, the account refunded, the signing caller.
#[derive(Clone, Copy, Debug)]
pub struct CompleteBet {
    pub bet: Pubkey,
    pub user: Pubkey,
    pub admin: Pubkey,
}

/// Accounts of `forfeit_bet`: the record, the account credited, the signing caller.
#[derive(Clone, Copy, Debug)]
pub struct ForfeitBet {
    pub bet: Pubkey,
    pub treasury: Pubkey,
    pub admin: Pubkey,
}

/// Byte length of a habit label.
pub open spec fn label_len(s: Seq<char>) -> nat {
    vstd::utf8::encode_utf8(s).len()
}

/// The error `initialize` reports, if any.
pub open spec fn initialize_error(l: Ledger) -> Option<ErrorCode> {
    if l.config_state() is Some {
        Some(ErrorCode::AccountAlreadyInUse)
    } else if config_address(l.program_id()) is None {
        Some(ErrorCode::NoViableAddress)
    } else {
        None
    }
}

/// The error `update_config` reports, if any.
pub open spec fn update_config_error(l: Ledger, caller: Seq<u8>) -> Option<ErrorCode> {
    match l.config_state() {
        None => Some(ErrorCode::AccountNotInitialized),
        Some(c) => if c.admin@ != caller {
            Some(ErrorCode::Unauthorized)
        } else {
            None
        },
    }
}

/// The error `create_bet` reports, if any: the inputs are checked first, then
/// the configuration, the address, its occupancy and the payer's funds.
pub open spec fn create_bet_error(
    l: Ledger,
    accounts: CreateBet,
    bet_id: Seq<u8>,
    amount: u64,
    habit_id: Seq<char>,
    start_date: i64,
    end_date: i64,
    target_streak: u32,
) -> Option<ErrorCode> {
    let derived = bet_address(l.program_id(), accounts.user@, bet_id);
    if amount == 0 {
        Some(ErrorCode::InvalidAmount)
    } else if end_date <= start_date {
        Some(ErrorCode::InvalidDates)
    } else if label_len(habit_id) > 64 {
        Some(ErrorCode::HabitIdTooLong)
    } else if target_streak == 0 {
        Some(ErrorCode::InvalidTargetStreak)
    } else if l.config_state() is None {
        Some(ErrorCode::AccountNotInitialized)
    } else if derived is None {
        Some(ErrorCode::NoViableAddress)
    } else if derived.unwrap().0 != accounts.bet@ {
        Some(ErrorCode::ConstraintSeeds)
    } else if l.bets().contains_key(accounts.bet@) {
        Some(ErrorCode::AccountAlreadyInUse)
    } else if l.balances()[accounts.user@] < amount {
        Some(ErrorCode::InsufficientFunds)
    } else if pay_overflows(l.balances(), accounts.user@, accounts.bet@, amount as nat) {
        Some(ErrorCode::Overflow)
    } else {
        None
    }
}

/// The error `complete_bet` reports, if any.
pub open spec fn complete_bet_error(l: Ledger, accounts: CompleteBet) -> Option<ErrorCode> {
    match l.config_state() {
        None => Some(ErrorCode::AccountNotInitialized),
        Some(c) => if c.admin@ != accounts.admin@ {
            Some(ErrorCode::Unauthorized)
        } else if !l.bets().contains_key(accounts.bet@) {
            Some(ErrorCode::AccountNotInitialized)
        } else if l.bets()[accounts.bet@].user@ != accounts.user@ {
            Some(ErrorCode::InvalidUser)
        } else if l.bets()[accounts.bet@].status != BetStatus::Active {
            Some(ErrorCode::BetNotActive)
        } else if transfer_overflows(l.balances(), accounts.bet@, accounts.user@) {
            Some(ErrorCode::Overflow)
        } else {
            None
        },
    }
}

/// The error `forfeit_bet` reports, if any.
pub open spec fn forfeit_bet_error(l: Ledger, accounts: ForfeitBet) -> Option<ErrorCode> {
    match l.config_state() {
        None => Some(ErrorCode::AccountNotInitialized),
        Some(c) => if c.admin@ != accounts.admin@ {
            Some(ErrorCode::Unauthorized)
        } else if c.treasury@ != accounts.treasury@ {
            Some(ErrorCode::InvalidTreasury)
        } else if !l.bets().contains_key(accounts.bet@) {
            Some(ErrorCode::AccountNotInitialized)
        } else if l.bets()[accounts.bet@].status != BetStatus::Active {
            Some(ErrorCode::BetNotActive)
        } else if transfer_overflows(l.balances(), accounts.bet@, accounts.treasury@) {
            Some(ErrorCode::Overflow)
        } else {
            None
        },
    }
}

/// `l1` is `l0` with the given roles of its configuration replaced.
pub open spec fn config_updated(
    l0: Ledger,
    l1: Ledger,
    new_admin: Option<Pubkey>,
    new_treasury: Option<Pubkey>,
) -> bool {
    &&& l0.config_state() is Some
    &&& l1.config_state() == Some(
        (Config {
            admin: match new_admin {
                Some(a) => a,
                None => l0.config_state()->0.admin,
            },
            treasury: match new_treasury {
                Some(t) => t,
                None => l0.config_state()->0.treasury,
            },
            bump: l0.config_state()->0.bump,
        }),
    )
    &&& l1.balances() == l0.balances()
    &&& l1.bets() == l0.bets()
    &&& l1.program_id() == l0.program_id()
}

/// `l1` is `l0` after `bet` was opened at `accounts.bet`, paid for by `accounts.user`.
pub open spec fn bet_created(l0: Ledger, l1: Ledger, accounts: CreateBet, bet: Bet) -> bool {
    &&& l1.balances() == pay(l0.balances(), accounts.user@, accounts.bet@, bet.amount as nat)
    &&& l1.bets() == l0.bets().insert(accounts.bet@, bet)
    &&& l1.config_state() == l0.config_state()
    &&& l1.program_id() == l0.program_id()
}

/// `l1` is `l0` after the record at `bet` was closed into `dest`.
pub open spec fn bet_closed(l0: Ledger, l1: Ledger, bet: Seq<u8>, dest: Seq<u8>) -> bool {
    &&& l1.balances() == transfer_all(l0.balances(), bet, dest)
    &&& l1.bets() == l0.bets().remove(bet)
    &&& l1.config_state() == l0.config_state()
    &&& l1.program_id() == l0.program_id()
}

/// `Err(e)` for `Some(e)`, `Ok(())` for `None`.
pub open spec fn outcome(e: Option<ErrorCode>) -> Result<(), ErrorCode> {
    match e {
        Some(e) => Err(e),
        None => Ok(()),
    }
}

/// Creates the configuration once, with the caller as admin.
pub fn initialize(ledger: &mut Ledger, accounts: &Initialize, treasury: Pubkey) -> (r: Result<(), ErrorCode>)
    requires
        old(ledger).wf(),
    ensures
        final(ledger).wf(),
        r == outcome(initialize_error(*old(ledger))),
        r is Err ==> *final(ledger) == *old(ledger),
        r is Ok ==> final(ledger).config_state() == Some(
            (Config { admin: accounts.admin, treasury, bump: config_address(old(ledger).program_id()).unwrap().1 }),
        ),
        final(ledger).balances() == old(ledger).balances(),
        final(ledger).bets() == old(ledger).bets(),
        final(ledger).program_id() == old(ledger).program_id(),
{
    if ledger.config().is_some() {
        return Err(ErrorCode::AccountAlreadyInUse);
    }
    let bump = match ledger.find_config_address() {
        None => return Err(ErrorCode::NoViableAddress),
        Some((_, bump)) => bump,
    };
    ledger.set_config(Config { admin: accounts.admin, treasury, bump });
    Ok(())
}

/// Lets the admin replace the admin, the treasury, or both.
pub fn update_config(
    ledger: &mut Ledger,
    accounts: &UpdateConfig,
    new_admin: Option<Pubkey>,
    new_treasury: Option<Pubkey>,
) -> (r: Result<(), ErrorCode>)
    requires
        old(ledger).wf(),
    ensures
        final(ledger).wf(),
        r == outcome(update_config_error(*old(ledger), accounts.admin@)),
        r is Err ==> *final(ledger) == *old(ledger),
        r is Ok ==> config_updated(*old(ledger), *final(ledger), new_admin, new_treasury),
{
    let mut c = match ledger.config() {
        None => return Err(ErrorCode::AccountNotInitialized),
        Some(c) => c,
    };
    if !accounts.admin.same(&c.admin) {
        return Err(ErrorCode::Unauthorized);
    }
    proof { ledger.lemma_wf(); }
    if let Some(a) = new_admin {
        c.admin = a;
    }
    if let Some(t) = new_treasury {
        c.treasury = t;
    }
    ledger.set_config(c);
    Ok(())
}

/// Opens an active bet at the address derived from the caller and `bet_id`,
/// escrowing `amount` from the caller.
pub fn create_bet(
    ledger: &mut Ledger,
    accounts: &CreateBet,
    bet_id: [u8; 32],
    amount: u64,
    habit_id: String,
    start_date: i64,
    end_date: i64,
    target_streak: u32,
    created_at: i64,
) -> (r: Result<(), ErrorCode>)
    requires
        old(ledger).wf(),
    ensures
        final(ledger).wf(),
        r == outcome(
            create_bet_error(
                *old(ledger),
                *accounts,
                bet_id@,
                amount,
                habit_id@,
                start_date,
                end_date,
                target_streak,
            ),
        ),
        r is Err ==> *final(ledger) == *old(ledger),
        r is Ok ==> bet_created(
            *old(ledger),
            *final(ledger),
            *accounts,
            (Bet {
                user: accounts.user,
                bet_id,
                amount,
                habit_id,
                start_date,
                end_date,
                target_streak,
                status: BetStatus::Active,
                bump: bet_address(old(ledger).program_id(), accounts.user@, bet_id@).unwrap().1,
                created_at,
            }),
        ),
        r is Ok ==> final(ledger).bets()[accounts.bet@].status == BetStatus::Active
            && final(ledger).bets()[accounts.bet@].amount == amount
            && (old(ledger).balances()[accounts.bet@] == 0 ==> final(ledger).balances()[accounts.bet@]
            == amount),
        amount == 0 ==> r == Err::<(), ErrorCode>(ErrorCode::InvalidAmount),
        amount > 0 && end_date <= start_date ==> r == Err::<(), ErrorCode>(ErrorCode::InvalidDates),
        final(ledger).config_state() == old(ledger).config_state(),
        final(ledger).program_id() == old(ledger).program_id(),
{
    if amount == 0 {
        return Err(ErrorCode::InvalidAmount);
    }
    if end_date <= start_date {
        return Err(ErrorCode::InvalidDates);
    }
    if habit_id.as_str().as_bytes().len() > 64 {
        return Err(ErrorCode::HabitIdTooLong);
    }
    if target_streak == 0 {
        return Err(ErrorCode::InvalidTargetStreak);
    }
    if ledger.config().is_none() {
        return Err(ErrorCode::AccountNotInitialized);
    }
    let bump = match ledger.find_bet_address(&accounts.user, &bet_id) {
        None => return Err(ErrorCode::NoViableAddress),
        Some((address, bump)) => {
            if !address.same(&accounts.bet) {
                return Err(ErrorCode::ConstraintSeeds);
            }
            bump
        },
    };
    if ledger.bet(&accounts.bet).is_some() {
        return Err(ErrorCode::AccountAlreadyInUse);
    }
    if ledger.balance(&accounts.user) < amount {
        return Err(ErrorCode::InsufficientFunds);
    }
    let bet = Bet {
        user: accounts.user,
        bet_id,
        amount,
        habit_id,
        start_date,
        end_date,
        target_streak,
        status: BetStatus::Active,
        bump,
        created_at,
    };
    ledger.open_bet(&accounts.user, &accounts.bet, amount, bet)
}

/// Resolves an active bet as won: its whole balance returns to its user and
/// the record is closed.
pub fn complete_bet(ledger: &mut Ledger, accounts: &CompleteBet) -> (r: Result<(), ErrorCode>)
    requires
        old(ledger).wf(),
    ensures
        final(ledger).wf(),
        r == outcome(complete_bet_error(*old(ledger), *accounts)),
        r is Err ==> *final(ledger) == *old(ledger),
        r is Ok ==> bet_closed(*old(ledger), *final(ledger), accounts.bet@, accounts.user@),
        r is Ok ==> accounts.user@ == old(ledger).bets()[accounts.bet@].user@
            && !final(ledger).bets().contains_key(accounts.bet@)
            && (accounts.user@ != accounts.bet@ ==> final(ledger).balances()[accounts.bet@] == 0
            && final(ledger).balances()[accounts.user@]
            == old(ledger).balances()[accounts.user@] + old(ledger).balances()[accounts.bet@]),
        final(ledger).config_state() == old(ledger).config_state(),
        final(ledger).program_id() == old(ledger).program_id(),
{
    let c = match ledger.config() {
        None => return Err(ErrorCode::AccountNotInitialized),
        Some(c) => c,
    };
    if !accounts.admin.same(&c.admin) {
        return Err(ErrorCode::Unauthorized);
    }
    match ledger.bet(&accounts.bet) {
        None => return Err(ErrorCode::AccountNotInitialized),
        Some(b) => {
            if !b.user.same(&accounts.user) {
                return Err(ErrorCode::InvalidUser);
            }
            if b.status != BetStatus::Active {
                return Err(ErrorCode::BetNotActive);
            }
        },
    }
    ledger.close_into(&accounts.bet, &accounts.user)
}

/// Resolves an active bet as lost: its whole balance goes to the treasury and
/// the record is closed.
pub fn forfeit_bet(ledger: &mut Ledger, accounts: &ForfeitBet) -> (r: Result<(), ErrorCode>)
    requires
        old(ledger).wf(),
    ensures
        final(ledger).wf(),
        r == outcome(forfeit_bet_error(*old(ledger), *accounts)),
        r is Err ==> *final(ledger) == *old(ledger),
        r is Ok ==> bet_closed(*old(ledger), *final(ledger), accounts.bet@, accounts.treasury@),
        r is Ok ==> accounts.treasury@ == old(ledger).config_state()->0.treasury@
            && !final(ledger).bets().contains_key(accounts.bet@)
            && (accounts.treasury@ != accounts.bet@ ==> final(ledger).balances()[accounts.bet@] == 0
            && final(ledger).balances()[accounts.treasury@]
            == old(ledger).balances()[accounts.treasury@] + old(ledger).balances()[accounts.bet@]),
        old(ledger).config_state() matches Some(c) && c.admin@ != accounts.admin@ ==> r == Err::<
            (),
            ErrorCode,
        >(ErrorCode::Unauthorized),
        final(ledger).config_state() == old(ledger).config_state(),
        final(ledger).program_id() == old(ledger).program_id(),
{
    let c = match ledger.config() {
        None => return Err(ErrorCode::AccountNotInitialized),
        Some(c) => c,
    };
    if !accounts.admin.same(&c.admin) {
        return Err(ErrorCode::Unauthorized);
    }
    if !accounts.treasury.same(&c.treasury) {
        return Err(ErrorCode::InvalidTreasury);
    }
    match ledger.bet(&accounts.bet) {
        None => return Err(ErrorCode::AccountNotInitialized),
        Some(b) => {
            if b.status != BetStatus::Active {
                return Err(ErrorCode::BetNotActive);
            }
        },
    }
    ledger.close_into(&accounts.bet, &accounts.treasury)
}

} // verus!
