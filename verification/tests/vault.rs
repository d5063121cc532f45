use sente::Error;
use sente::SenteToken;
use sente::SenteVault;

const VAULT: u64 = 77;
const TOKEN_REF: u64 = 42;

fn ready_pair(user: u64, funded: i128) -> (SenteToken, SenteVault) {
    let mut t = SenteToken::new();
    t.initialize(1, String::from("Sente"), String::from("SNT"), 6, 0).unwrap();
    t.mint(1, user, funded).unwrap();
    let mut v = SenteVault::new(VAULT);
    v.initialize(1, TOKEN_REF).unwrap();
    (t, v)
}

#[test]
fn vault_initialize_once() {
    let mut v = SenteVault::new(VAULT);
    assert_eq!(v.token_contract(), Err(Error::NotInitialized));
    assert_eq!(v.initialize(1, TOKEN_REF), Ok(()));
    assert_eq!(v.token_contract(), Ok(TOKEN_REF));
    assert_eq!(v.initialize(2, 99), Err(Error::AlreadyInitialized));
    assert_eq!(v.token_contract(), Ok(TOKEN_REF));
    assert_eq!(v.vault_address(), VAULT);
}

#[test]
fn deposit_moves_tokens_into_the_vault() {
    let (mut t, mut v) = ready_pair(2, 500);
    assert_eq!(v.deposit(2, 200, &mut t), Ok(()));
    assert_eq!(v.balance(2), 200);
    assert_eq!(t.balance(2), 300);
    assert_eq!(t.balance(VAULT), 200);
}

#[test]
fn deposit_rejections_leave_both_sides_unchanged() {
    let (mut t, mut v) = ready_pair(2, 500);
    assert_eq!(v.deposit(2, 0, &mut t), Err(Error::InvalidAmount));
    assert_eq!(v.deposit(2, -5, &mut t), Err(Error::InvalidAmount));
    assert_eq!(v.deposit(2, 501, &mut t), Err(Error::InsufficientBalance));
    assert_eq!(v.balance(2), 0);
    assert_eq!(t.balance(2), 500);
    assert_eq!(t.balance(VAULT), 0);

    let mut bare = SenteVault::new(VAULT);
    assert_eq!(bare.deposit(2, 10, &mut t), Err(Error::NotInitialized));
    assert_eq!(t.balance(2), 500);
}

#[test]
fn withdraw_returns_tokens_to_the_user() {
    let (mut t, mut v) = ready_pair(2, 500);
    v.deposit(2, 200, &mut t).unwrap();
    assert_eq!(v.withdraw(2, 40, &mut t), Ok(()));
    assert_eq!(v.balance(2), 160);
    assert_eq!(t.balance(2), 340);
    assert_eq!(t.balance(VAULT), 160);
}

#[test]
fn conservation_across_deposit_and_withdraw() {
    let (mut t, mut v) = ready_pair(2, 500);
    v.deposit(2, 100, &mut t).unwrap();
    v.withdraw(2, 40, &mut t).unwrap();
    assert_eq!(v.balance(2), 60);
    assert_eq!(t.balance(VAULT), 60);
    assert_eq!(t.balance(2), 440);
}

#[test]
fn withdraw_rejections_leave_both_sides_unchanged() {
    let (mut t, mut v) = ready_pair(2, 500);
    v.deposit(2, 100, &mut t).unwrap();
    assert_eq!(v.withdraw(2, 0, &mut t), Err(Error::InvalidAmount));
    assert_eq!(v.withdraw(2, 101, &mut t), Err(Error::InsufficientBalance));
    assert_eq!(v.balance(2), 100);
    assert_eq!(t.balance(2), 400);
    assert_eq!(t.balance(VAULT), 100);
}

#[test]
fn internal_transfer_reassigns_custodial_value() {
    let (mut t, mut v) = ready_pair(2, 500);
    v.deposit(2, 300, &mut t).unwrap();
    assert_eq!(v.transfer(2, 3, 120), Ok(()));
    assert_eq!(v.balance(2), 180);
    assert_eq!(v.balance(3), 120);
    assert_eq!(t.balance(VAULT), 300);
    assert_eq!(v.transfer(2, 3, 0), Err(Error::InvalidAmount));
    assert_eq!(v.transfer(2, 3, 181), Err(Error::InsufficientBalance));
    assert_eq!(v.balance(2), 180);
    assert_eq!(v.balance(3), 120);
}

#[test]
fn internal_transfer_to_self_changes_nothing() {
    let (mut t, mut v) = ready_pair(2, 500);
    v.deposit(2, 300, &mut t).unwrap();
    assert_eq!(v.transfer(2, 2, 300), Ok(()));
    assert_eq!(v.balance(2), 300);
}

#[test]
fn save_sets_the_exact_unlock_threshold() {
    let (mut t, mut v) = ready_pair(2, 500);
    v.deposit(2, 200, &mut t).unwrap();
    let seq: u64 = 9_000;
    assert_eq!(v.save_to_vault(2, 100, 10, seq), Ok(()));
    assert_eq!(v.balance(2), 100);
    assert_eq!(v.savings_balance(2), 100);
    assert_eq!(v.unlock_time(2), seq + 172_800);
    assert_eq!(v.total_balance(2), 200);
}

#[test]
fn save_rejects_bad_amounts_and_durations() {
    let (mut t, mut v) = ready_pair(2, 500);
    v.deposit(2, 200, &mut t).unwrap();
    assert_eq!(v.save_to_vault(2, 0, 10, 1), Err(Error::InvalidAmount));
    assert_eq!(v.save_to_vault(2, 50, 0, 1), Err(Error::InvalidLockDuration));
    assert_eq!(v.save_to_vault(2, 50, 366, 1), Err(Error::InvalidLockDuration));
    assert_eq!(v.save_to_vault(2, 201, 10, 1), Err(Error::InsufficientBalance));
    assert_eq!(v.balance(2), 200);
    assert_eq!(v.savings_balance(2), 0);
    assert_eq!(v.unlock_time(2), 0);
}

#[test]
fn savings_lock_holds_until_the_threshold() {
    let (mut t, mut v) = ready_pair(2, 500);
    v.deposit(2, 200, &mut t).unwrap();
    let seq: u64 = 9_000;
    v.save_to_vault(2, 100, 10, seq).unwrap();
    let unlock = seq + 172_800;
    assert_eq!(v.withdraw_from_vault(2, 100, seq), Err(Error::StillLocked));
    assert_eq!(v.withdraw_from_vault(2, 100, unlock - 1), Err(Error::StillLocked));
    assert_eq!(v.savings_balance(2), 100);
    assert_eq!(v.withdraw_from_vault(2, 100, unlock), Ok(()));
    assert_eq!(v.savings_balance(2), 0);
    assert_eq!(v.balance(2), 200);
}

#[test]
fn unsave_rejects_bad_amounts() {
    let (mut t, mut v) = ready_pair(2, 500);
    v.deposit(2, 200, &mut t).unwrap();
    v.save_to_vault(2, 100, 1, 0).unwrap();
    assert_eq!(v.withdraw_from_vault(2, 0, u64::MAX), Err(Error::InvalidAmount));
    assert_eq!(v.withdraw_from_vault(2, 101, u64::MAX), Err(Error::InsufficientSavings));
    assert_eq!(v.savings_balance(2), 100);
}

#[test]
fn a_later_shorter_lock_overwrites_the_threshold() {
    let (mut t, mut v) = ready_pair(2, 500);
    v.deposit(2, 200, &mut t).unwrap();
    v.save_to_vault(2, 100, 300, 0).unwrap();
    assert_eq!(v.unlock_time(2), 300 * 17_280);
    v.save_to_vault(2, 50, 1, 10).unwrap();
    assert_eq!(v.unlock_time(2), 10 + 17_280);
    assert_eq!(v.savings_balance(2), 150);
    assert_eq!(v.withdraw_from_vault(2, 150, 10 + 17_280), Ok(()));
}

#[test]
fn totals_only_move_through_deposit_withdraw_and_transfer() {
    let (mut t, mut v) = ready_pair(2, 500);
    v.deposit(2, 200, &mut t).unwrap();
    assert_eq!(v.total_balance(2), 200);
    v.save_to_vault(2, 150, 30, 100).unwrap();
    assert_eq!(v.total_balance(2), 200);
    v.withdraw_from_vault(2, 150, 100 + 30 * 17_280).unwrap();
    assert_eq!(v.total_balance(2), 200);
    v.withdraw(2, 40, &mut t).unwrap();
    assert_eq!(v.total_balance(2), 160);
}

#[test]
fn deposit_rejects_a_custodial_total_past_the_limit() {
    // Drain the vault's ledger account behind the vault's back, so the
    // user can present fresh tokens while the vault already records a
    // custodial balance at the representable maximum.
    let (mut t, mut v) = ready_pair(2, i128::MAX);
    v.deposit(2, i128::MAX, &mut t).unwrap();
    assert_eq!(v.balance(2), i128::MAX);
    t.transfer(VAULT, 2, i128::MAX).unwrap();
    assert_eq!(t.balance(2), i128::MAX);
    assert_eq!(v.deposit(2, 1, &mut t), Err(Error::InvalidAmount));
    assert_eq!(v.balance(2), i128::MAX);
    assert_eq!(t.balance(2), i128::MAX);
}

#[test]
fn end_to_end_scenario() {
    let admin: u64 = 1;
    let user: u64 = 10;
    let mut t = SenteToken::new();
    t.initialize(admin, String::from("Sente"), String::from("SNT"), 6, 1000).unwrap();
    assert_eq!(t.balance(admin), 1000);

    t.mint(admin, user, 500).unwrap();
    assert_eq!(t.balance(user), 500);
    assert_eq!(t.total_supply(), 1500);

    let mut v = SenteVault::new(VAULT);
    v.initialize(admin, TOKEN_REF).unwrap();
    v.deposit(user, 200, &mut t).unwrap();
    assert_eq!(t.balance(user), 300);
    assert_eq!(t.balance(VAULT), 200);

    let seq: u64 = 50_000;
    v.save_to_vault(user, 150, 30, seq).unwrap();
    assert_eq!(v.balance(user), 50);
    assert_eq!(v.savings_balance(user), 150);
    let threshold = seq + 30 * 17_280;
    assert_eq!(v.unlock_time(user), threshold);

    assert_eq!(v.withdraw_from_vault(user, 150, seq), Err(Error::StillLocked));

    v.withdraw_from_vault(user, 150, threshold).unwrap();
    assert_eq!(v.savings_balance(user), 0);
    assert_eq!(v.balance(user), 200);
    assert_eq!(t.total_supply(), 1500);
}
