use habits_escrow::{
    complete_bet, create_bet, forfeit_bet, initialize, update_config, BetStatus, CompleteBet,
    Config, CreateBet, ErrorCode, ForfeitBet, Initialize, Ledger, Pubkey, UpdateConfig,
};

fn key(b: u8) -> Pubkey {
    Pubkey::new([b; 32])
}

const PROGRAM: u8 = 7;
const ADMIN: u8 = 1;
const TREASURY: u8 = 2;
const USER: u8 = 3;
const BET_ID: [u8; 32] = [9; 32];

/// A ledger with its configuration in place and `USER` holding `funds`.
fn setup(funds: u64) -> Ledger {
    let mut l = Ledger::new(key(PROGRAM));
    initialize(&mut l, &Initialize { admin: key(ADMIN) }, key(TREASURY)).unwrap();
    l.deposit(&key(USER), funds).unwrap();
    l
}

fn bet_addr(l: &Ledger, user: u8, id: [u8; 32]) -> Pubkey {
    l.find_bet_address(&key(user), &id).unwrap().0
}

fn create(l: &mut Ledger, user: u8, id: [u8; 32], amount: u64) -> Result<(), ErrorCode> {
    let bet = bet_addr(l, user, id);
    create_bet(
        l,
        &CreateBet { bet, user: key(user) },
        id,
        amount,
        "run".to_string(),
        100,
        200,
        5,
        50,
    )
}

fn create_with(
    l: &mut Ledger,
    amount: u64,
    habit: &str,
    start: i64,
    end: i64,
    streak: u32,
) -> Result<(), ErrorCode> {
    let bet = bet_addr(l, USER, BET_ID);
    create_bet(
        l,
        &CreateBet { bet, user: key(USER) },
        BET_ID,
        amount,
        habit.to_string(),
        start,
        end,
        streak,
        50,
    )
}

fn won(l: &Ledger, admin: u8) -> CompleteBet {
    CompleteBet { bet: bet_addr(l, USER, BET_ID), user: key(USER), admin: key(admin) }
}

fn lost(l: &Ledger, admin: u8) -> ForfeitBet {
    ForfeitBet { bet: bet_addr(l, USER, BET_ID), treasury: key(TREASURY), admin: key(admin) }
}

#[test]
fn end_to_end_complete_returns_escrow() {
    let mut l = setup(5000);
    create(&mut l, USER, BET_ID, 1000).unwrap();
    let addr = bet_addr(&l, USER, BET_ID);
    assert_eq!(l.balance(&key(USER)), 4000);
    let b = l.bet(&addr).unwrap();
    assert!(b.status == BetStatus::Active);
    assert_eq!(b.amount, 1000);
    assert_eq!(b.habit_id, "run");
    assert_eq!(b.start_date, 100);
    assert_eq!(b.end_date, 200);
    assert_eq!(b.target_streak, 5);
    assert_eq!(b.created_at, 50);
    assert!(b.user == key(USER));
    assert_eq!(b.bet_id, BET_ID);
    assert_eq!(l.balance(&addr), 1000);
    let c = won(&l, ADMIN);
    complete_bet(&mut l, &c).unwrap();
    assert_eq!(l.balance(&key(USER)), 5000);
    assert!(l.bet(&addr).is_none());
    assert_eq!(l.balance(&addr), 0);
}

#[test]
fn end_to_end_forfeit_pays_treasury() {
    let mut l = setup(5000);
    create(&mut l, USER, BET_ID, 1000).unwrap();
    let addr = bet_addr(&l, USER, BET_ID);
    let t0 = l.balance(&key(TREASURY));
    let f = lost(&l, ADMIN);
    forfeit_bet(&mut l, &f).unwrap();
    assert_eq!(l.balance(&key(TREASURY)), t0 + 1000);
    assert_eq!(l.balance(&key(USER)), 4000);
    assert!(l.bet(&addr).is_none());
    assert_eq!(l.balance(&addr), 0);
}

#[test]
fn created_bet_is_active_and_holds_amount() {
    for amount in [1u64, 17, 4999, 5000] {
        let mut l = setup(5000);
        create(&mut l, USER, BET_ID, amount).unwrap();
        let addr = bet_addr(&l, USER, BET_ID);
        assert!(l.bet(&addr).unwrap().status == BetStatus::Active);
        assert_eq!(l.balance(&addr), amount);
        assert_eq!(l.balance(&key(USER)), 5000 - amount);
    }
}

#[test]
fn zero_amount_is_refused_without_change() {
    let mut l = setup(5000);
    assert_eq!(create_with(&mut l, 0, "run", 100, 200, 5), Err(ErrorCode::InvalidAmount));
    assert_eq!(create_with(&mut l, 0, "run", 200, 100, 0), Err(ErrorCode::InvalidAmount));
    assert_eq!(l.balance(&key(USER)), 5000);
    assert!(l.bet(&bet_addr(&l, USER, BET_ID)).is_none());
}

#[test]
fn end_not_after_start_is_refused() {
    let mut l = setup(5000);
    assert_eq!(create_with(&mut l, 10, "run", 200, 200, 5), Err(ErrorCode::InvalidDates));
    assert_eq!(create_with(&mut l, 10, "run", 300, 200, 5), Err(ErrorCode::InvalidDates));
    assert_eq!(create_with(&mut l, 10, "run", i64::MAX, i64::MIN, 5), Err(ErrorCode::InvalidDates));
    assert_eq!(l.balance(&key(USER)), 5000);
}

#[test]
fn habit_label_limit() {
    let mut l = setup(5000);
    let long = "a".repeat(65);
    assert_eq!(create_with(&mut l, 10, &long, 100, 200, 5), Err(ErrorCode::HabitIdTooLong));
    // 22 three-byte characters: 22 characters but 66 bytes.
    let wide = "\u{20AC}".repeat(22);
    assert_eq!(create_with(&mut l, 10, &wide, 100, 200, 5), Err(ErrorCode::HabitIdTooLong));
    let exact = "a".repeat(64);
    assert_eq!(create_with(&mut l, 10, &exact, 100, 200, 5), Ok(()));
}

#[test]
fn zero_streak_is_refused() {
    let mut l = setup(5000);
    assert_eq!(create_with(&mut l, 10, "run", 100, 200, 0), Err(ErrorCode::InvalidTargetStreak));
}

#[test]
fn create_needs_configuration() {
    let mut l = Ledger::new(key(PROGRAM));
    l.deposit(&key(USER), 5000).unwrap();
    assert_eq!(create(&mut l, USER, BET_ID, 10), Err(ErrorCode::AccountNotInitialized));
}

#[test]
fn create_checks_the_derived_address() {
    let mut l = setup(5000);
    let r = create_bet(
        &mut l,
        &CreateBet { bet: key(42), user: key(USER) },
        BET_ID,
        10,
        "run".to_string(),
        100,
        200,
        5,
        50,
    );
    assert_eq!(r, Err(ErrorCode::ConstraintSeeds));
    assert_eq!(l.balance(&key(USER)), 5000);
}

#[test]
fn create_needs_funds() {
    let mut l = setup(999);
    assert_eq!(create(&mut l, USER, BET_ID, 1000), Err(ErrorCode::InsufficientFunds));
    assert_eq!(l.balance(&key(USER)), 999);
}

#[test]
fn create_into_full_address_overflows() {
    let mut l = setup(5000);
    let addr = bet_addr(&l, USER, BET_ID);
    l.deposit(&addr, u64::MAX).unwrap();
    assert_eq!(create(&mut l, USER, BET_ID, 1), Err(ErrorCode::Overflow));
    assert_eq!(l.balance(&key(USER)), 5000);
    assert!(l.bet(&addr).is_none());
}

#[test]
fn duplicate_bet_is_refused_and_first_kept() {
    let mut l = setup(5000);
    create(&mut l, USER, BET_ID, 1000).unwrap();
    let addr = bet_addr(&l, USER, BET_ID);
    assert_eq!(create(&mut l, USER, BET_ID, 300), Err(ErrorCode::AccountAlreadyInUse));
    assert_eq!(l.balance(&addr), 1000);
    assert_eq!(l.bet(&addr).unwrap().amount, 1000);
    assert_eq!(l.balance(&key(USER)), 4000);
    // Another id of the same user is a separate record.
    create(&mut l, USER, [8; 32], 300).unwrap();
    assert_eq!(l.balance(&key(USER)), 3700);
}

#[test]
fn resolved_bet_cannot_be_resolved_again() {
    let mut l = setup(5000);
    create(&mut l, USER, BET_ID, 1000).unwrap();
    let c = won(&l, ADMIN);
    let f = lost(&l, ADMIN);
    complete_bet(&mut l, &c).unwrap();
    assert_eq!(complete_bet(&mut l, &c), Err(ErrorCode::AccountNotInitialized));
    assert_eq!(forfeit_bet(&mut l, &f), Err(ErrorCode::AccountNotInitialized));
    assert_eq!(l.balance(&key(USER)), 5000);
}

#[test]
fn forfeit_by_non_admin_is_refused() {
    let mut l = setup(5000);
    create(&mut l, USER, BET_ID, 1000).unwrap();
    let addr = bet_addr(&l, USER, BET_ID);
    let f = lost(&l, USER);
    assert_eq!(forfeit_bet(&mut l, &f), Err(ErrorCode::Unauthorized));
    assert_eq!(l.balance(&addr), 1000);
    assert_eq!(l.balance(&key(TREASURY)), 0);
    assert!(l.bet(&addr).unwrap().status == BetStatus::Active);
}

#[test]
fn complete_by_non_admin_is_refused() {
    let mut l = setup(5000);
    create(&mut l, USER, BET_ID, 1000).unwrap();
    let c = won(&l, TREASURY);
    assert_eq!(complete_bet(&mut l, &c), Err(ErrorCode::Unauthorized));
    assert_eq!(l.balance(&key(USER)), 4000);
}

#[test]
fn complete_to_wrong_user_is_refused() {
    let mut l = setup(5000);
    create(&mut l, USER, BET_ID, 1000).unwrap();
    let mut c = won(&l, ADMIN);
    c.user = key(44);
    assert_eq!(complete_bet(&mut l, &c), Err(ErrorCode::InvalidUser));
    assert_eq!(l.balance(&key(44)), 0);
}

#[test]
fn forfeit_to_wrong_treasury_is_refused() {
    let mut l = setup(5000);
    create(&mut l, USER, BET_ID, 1000).unwrap();
    let mut f = lost(&l, ADMIN);
    f.treasury = key(44);
    assert_eq!(forfeit_bet(&mut l, &f), Err(ErrorCode::InvalidTreasury));
    assert_eq!(l.balance(&key(44)), 0);
}

#[test]
fn complete_overflow_changes_nothing() {
    let mut l = setup(5000);
    create(&mut l, USER, BET_ID, 1000).unwrap();
    l.deposit(&key(USER), u64::MAX - 4000).unwrap();
    let addr = bet_addr(&l, USER, BET_ID);
    let c = won(&l, ADMIN);
    assert_eq!(complete_bet(&mut l, &c), Err(ErrorCode::Overflow));
    assert_eq!(l.balance(&addr), 1000);
    assert!(l.bet(&addr).is_some());
}

#[test]
fn forfeit_overflow_changes_nothing() {
    let mut l = setup(5000);
    create(&mut l, USER, BET_ID, 1000).unwrap();
    l.deposit(&key(TREASURY), u64::MAX).unwrap();
    let addr = bet_addr(&l, USER, BET_ID);
    let f = lost(&l, ADMIN);
    assert_eq!(forfeit_bet(&mut l, &f), Err(ErrorCode::Overflow));
    assert_eq!(l.balance(&addr), 1000);
    assert_eq!(l.balance(&key(TREASURY)), u64::MAX);
}

#[test]
fn resolution_moves_whole_balance() {
    let mut l = setup(5000);
    create(&mut l, USER, BET_ID, 1000).unwrap();
    let addr = bet_addr(&l, USER, BET_ID);
    l.deposit(&addr, 250).unwrap();
    let f = lost(&l, ADMIN);
    forfeit_bet(&mut l, &f).unwrap();
    assert_eq!(l.balance(&key(TREASURY)), 1250);
}

#[test]
fn resolution_needs_configuration() {
    let mut l = Ledger::new(key(PROGRAM));
    let c = CompleteBet { bet: key(5), user: key(USER), admin: key(ADMIN) };
    assert_eq!(complete_bet(&mut l, &c), Err(ErrorCode::AccountNotInitialized));
    let f = ForfeitBet { bet: key(5), treasury: key(TREASURY), admin: key(ADMIN) };
    assert_eq!(forfeit_bet(&mut l, &f), Err(ErrorCode::AccountNotInitialized));
}

#[test]
fn initialize_only_once() {
    let mut l = setup(0);
    let c: Config = l.config().unwrap();
    assert!(c.admin == key(ADMIN));
    assert!(c.treasury == key(TREASURY));
    assert_eq!(c.bump, l.find_config_address().unwrap().1);
    assert_eq!(
        initialize(&mut l, &Initialize { admin: key(USER) }, key(USER)),
        Err(ErrorCode::AccountAlreadyInUse)
    );
    assert!(l.config().unwrap().admin == key(ADMIN));
}

#[test]
fn update_config_hands_over_admin() {
    let mut l = setup(5000);
    create(&mut l, USER, BET_ID, 1000).unwrap();
    update_config(&mut l, &UpdateConfig { admin: key(ADMIN) }, Some(key(20)), None).unwrap();
    let c = l.config().unwrap();
    assert!(c.admin == key(20));
    assert!(c.treasury == key(TREASURY));
    let old_admin = won(&l, ADMIN);
    assert_eq!(complete_bet(&mut l, &old_admin), Err(ErrorCode::Unauthorized));
    let old_admin_f = lost(&l, ADMIN);
    assert_eq!(forfeit_bet(&mut l, &old_admin_f), Err(ErrorCode::Unauthorized));
    assert_eq!(
        update_config(&mut l, &UpdateConfig { admin: key(ADMIN) }, None, Some(key(30))),
        Err(ErrorCode::Unauthorized)
    );
    let new_admin = won(&l, 20);
    complete_bet(&mut l, &new_admin).unwrap();
    assert_eq!(l.balance(&key(USER)), 5000);
}

#[test]
fn update_config_by_non_admin_changes_nothing() {
    let mut l = setup(0);
    assert_eq!(
        update_config(&mut l, &UpdateConfig { admin: key(USER) }, Some(key(USER)), Some(key(USER))),
        Err(ErrorCode::Unauthorized)
    );
    let c = l.config().unwrap();
    assert!(c.admin == key(ADMIN));
    assert!(c.treasury == key(TREASURY));
}

#[test]
fn update_config_sets_treasury_only() {
    let mut l = setup(0);
    update_config(&mut l, &UpdateConfig { admin: key(ADMIN) }, None, Some(key(31))).unwrap();
    let c = l.config().unwrap();
    assert!(c.admin == key(ADMIN));
    assert!(c.treasury == key(31));
}

#[test]
fn update_config_needs_configuration() {
    let mut l = Ledger::new(key(PROGRAM));
    assert_eq!(
        update_config(&mut l, &UpdateConfig { admin: key(ADMIN) }, None, None),
        Err(ErrorCode::AccountNotInitialized)
    );
}

#[test]
fn deposit_overflow_is_refused() {
    let mut l = Ledger::new(key(PROGRAM));
    l.deposit(&key(USER), u64::MAX).unwrap();
    assert_eq!(l.deposit(&key(USER), 1), Err(ErrorCode::Overflow));
    assert_eq!(l.balance(&key(USER)), u64::MAX);
}

#[test]
fn bet_address_matches_program_derivation() {
    let l = Ledger::new(key(PROGRAM));
    let (addr, bump) = l.find_bet_address(&key(USER), &BET_ID).unwrap();
    let program = anchor_lang::prelude::Pubkey::new_from_array([PROGRAM; 32]);
    let (expected, expected_bump) = anchor_lang::prelude::Pubkey::find_program_address(
        &[b"bet", &[USER; 32], &BET_ID],
        &program,
    );
    assert_eq!(addr.bytes, expected.to_bytes());
    assert_eq!(bump, expected_bump);
    assert!(addr != key(USER));
    let (other, _) = l.find_bet_address(&key(USER), &[8; 32]).unwrap();
    assert!(other != addr);
    let (cfg, cfg_bump) = l.find_config_address().unwrap();
    let (expected_cfg, expected_cfg_bump) =
        anchor_lang::prelude::Pubkey::find_program_address(&[b"config"], &program);
    assert_eq!(cfg.bytes, expected_cfg.to_bytes());
    assert_eq!(cfg_bump, expected_cfg_bump);
}

#[test]
fn bet_status_default_is_active() {
    assert!(BetStatus::default() == BetStatus::Active);
}

#[test]
fn error_messages() {
    assert_eq!(ErrorCode::Unauthorized.message(), "Unauthorized: Only admin can perform this action");
    assert_eq!(ErrorCode::Overflow.message(), "Arithmetic overflow");
}

#[test]
fn pubkey_equality_is_bytewise() {
    let mut b = [5u8; 32];
    assert!(Pubkey::new(b) == Pubkey::new(b));
    b[31] = 6;
    assert!(Pubkey::new(b) != Pubkey::new([5u8; 32]));
    assert!(Pubkey::new(b).same(&Pubkey::new(b)));
}
