//! Laws over sequences of operations.

use vstd::prelude::*;
use crate::habits_escrow::{
    CompleteBet, CreateBet, ForfeitBet, bet_closed, bet_created, complete_bet_error, config_updated,
    create_bet_error, forfeit_bet_error, update_config_error,
};
use crate::ledger::Ledger;
use crate::pubkey::Pubkey;
use crate::state::{Bet, ErrorCode};

verus! {

/// Once a bet record has been closed, resolving it again, as won or as lost,
/// is refused.
pub proof fn lemma_closed_bet_stays_closed(
    l0: Ledger,
    l1: Ledger,
    bet: Seq<u8>,
    dest: Seq<u8>,
    again_won: CompleteBet,
    again_lost: ForfeitBet,
)
    requires
        bet_closed(l0, l1, bet, dest),
        again_won.bet@ == bet,
        again_lost.bet@ == bet,
    ensures
        complete_bet_error(l1, again_won) is Some,
        forfeit_bet_error(l1, again_lost) is Some,
{
}

/// A second bet by the same user under the same id is refused, whatever its
/// other inputs, and the first record stays as it was opened.
pub proof fn lemma_duplicate_bet_refused(
    l0: Ledger,
    l1: Ledger,
    first: CreateBet,
    bet_id: Seq<u8>,
    amount: u64,
    habit_id: Seq<char>,
    start_date: i64,
    end_date: i64,
    target_streak: u32,
    bet: Bet,
    second: CreateBet,
    amount2: u64,
    habit_id2: Seq<char>,
    start_date2: i64,
    end_date2: i64,
    target_streak2: u32,
)
    requires
        create_bet_error(l0, first, bet_id, amount, habit_id, start_date, end_date, target_streak) is None,
        bet_created(l0, l1, first, bet),
        second.user@ == first.user@,
    ensures
        create_bet_error(l1, second, bet_id, amount2, habit_id2, start_date2, end_date2, target_streak2) is Some,
        l1.bets().contains_key(first.bet@),
        l1.bets()[first.bet@] == bet,
{
}

/// The current admin may hand the role to another identity; afterwards only
/// that identity passes the admin check of every admin-gated operation. Any
/// other caller is refused.
pub proof fn lemma_admin_handover(
    l0: Ledger,
    l1: Ledger,
    caller: Seq<u8>,
    new_admin: Pubkey,
    new_treasury: Option<Pubkey>,
    someone: Seq<u8>,
    won: CompleteBet,
    lost: ForfeitBet,
)
    requires
        l0.config_state() matches Some(c) && c.admin@ == caller,
        config_updated(l0, l1, Some(new_admin), new_treasury),
    ensures
        update_config_error(l0, caller) is None,
        someone != caller ==> update_config_error(l0, someone) == Some(ErrorCode::Unauthorized),
        update_config_error(l1, someone) is None <==> someone == new_admin@,
        won.admin@ != new_admin@ ==> complete_bet_error(l1, won) == Some(ErrorCode::Unauthorized),
        lost.admin@ != new_admin@ ==> forfeit_bet_error(l1, lost) == Some(ErrorCode::Unauthorized),
{
}

} // verus!
