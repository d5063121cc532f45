use sente::Error;
use sente::SenteToken;

#[test]
fn initialize_sets_metadata_and_supply() {
    let mut t = SenteToken::new();
    let r = t.initialize(1, String::from("Sente"), String::from("SNT"), 6, 1000);
    assert_eq!(r, Ok(()));
    assert_eq!(t.name().unwrap().as_str(), "Sente");
    assert_eq!(t.symbol().unwrap().as_str(), "SNT");
    assert_eq!(t.decimals(), Ok(6));
    assert_eq!(t.total_supply(), 1000);
    assert_eq!(t.balance(1), 1000);
}

#[test]
fn reads_fail_before_initialization() {
    let t = SenteToken::new();
    assert_eq!(t.name(), Err(Error::NotInitialized));
    assert_eq!(t.symbol(), Err(Error::NotInitialized));
    assert_eq!(t.decimals(), Err(Error::NotInitialized));
    assert_eq!(t.total_supply(), 0);
    assert_eq!(t.balance(1), 0);
    assert_eq!(t.allowance(1, 2), 0);
}

#[test]
fn initialize_twice_always_fails() {
    let mut t = SenteToken::new();
    assert_eq!(t.initialize(1, String::from("A"), String::from("A"), 6, 10), Ok(()));
    assert_eq!(
        t.initialize(2, String::from("B"), String::from("B"), 2, 999),
        Err(Error::AlreadyInitialized)
    );
    assert_eq!(
        t.initialize(1, String::from("A"), String::from("A"), 6, 10),
        Err(Error::AlreadyInitialized)
    );
    assert_eq!(t.name().unwrap().as_str(), "A");
    assert_eq!(t.total_supply(), 10);
}

#[test]
fn initialize_rejects_negative_supply() {
    let mut t = SenteToken::new();
    assert_eq!(
        t.initialize(1, String::from("A"), String::from("A"), 6, -5),
        Err(Error::InvalidAmount)
    );
    assert_eq!(t.total_supply(), 0);
    assert_eq!(t.name(), Err(Error::NotInitialized));
}

#[test]
fn transfer_moves_value_and_conserves_supply() {
    let mut t = SenteToken::new();
    t.initialize(1, String::from("A"), String::from("A"), 6, 1000).unwrap();
    assert_eq!(t.transfer(1, 2, 300), Ok(()));
    assert_eq!(t.balance(1), 700);
    assert_eq!(t.balance(2), 300);
    assert_eq!(t.total_supply(), 1000);
    assert_eq!(t.balance(1) + t.balance(2), t.total_supply());
}

#[test]
fn transfer_to_self_changes_nothing() {
    let mut t = SenteToken::new();
    t.initialize(1, String::from("A"), String::from("A"), 6, 1000).unwrap();
    assert_eq!(t.transfer(1, 1, 400), Ok(()));
    assert_eq!(t.balance(1), 1000);
    assert_eq!(t.total_supply(), 1000);
}

#[test]
fn transfer_of_the_whole_balance_is_accepted() {
    let mut t = SenteToken::new();
    t.initialize(1, String::from("A"), String::from("A"), 6, 1000).unwrap();
    assert_eq!(t.transfer(1, 2, 1000), Ok(()));
    assert_eq!(t.balance(1), 0);
    assert_eq!(t.balance(2), 1000);
    // The drained account still reads as a stored zero, and a
    // zero-amount transfer out of it is accepted.
    assert_eq!(t.transfer(1, 2, 0), Ok(()));
    assert_eq!(t.balance(1), 0);
}

#[test]
fn transfer_rejects_negative_amount() {
    let mut t = SenteToken::new();
    t.initialize(1, String::from("A"), String::from("A"), 6, 1000).unwrap();
    assert_eq!(t.transfer(1, 2, -1), Err(Error::InvalidAmount));
    assert_eq!(t.balance(1), 1000);
    assert_eq!(t.balance(2), 0);
    assert_eq!(t.total_supply(), 1000);
}

#[test]
fn transfer_rejects_insufficient_balance() {
    let mut t = SenteToken::new();
    t.initialize(1, String::from("A"), String::from("A"), 6, 1000).unwrap();
    assert_eq!(t.transfer(1, 2, 1001), Err(Error::InsufficientBalance));
    assert_eq!(t.balance(1), 1000);
    assert_eq!(t.balance(2), 0);
}

#[test]
fn approve_overwrites_absolutely() {
    let mut t = SenteToken::new();
    t.initialize(1, String::from("A"), String::from("A"), 6, 1000).unwrap();
    assert_eq!(t.approve(1, 2, 50), Ok(()));
    assert_eq!(t.allowance(1, 2), 50);
    assert_eq!(t.approve(1, 2, 10), Ok(()));
    assert_eq!(t.allowance(1, 2), 10);
    assert_eq!(t.approve(1, 2, -3), Err(Error::InvalidAmount));
    assert_eq!(t.allowance(1, 2), 10);
}

#[test]
fn allowance_accounting_across_transfer_from() {
    let mut t = SenteToken::new();
    t.initialize(1, String::from("A"), String::from("A"), 6, 1000).unwrap();
    assert_eq!(t.approve(1, 2, 50), Ok(()));
    assert_eq!(t.transfer_from(2, 1, 3, 30), Ok(()));
    assert_eq!(t.allowance(1, 2), 20);
    assert_eq!(t.balance(1), 970);
    assert_eq!(t.balance(3), 30);
    assert_eq!(t.total_supply(), 1000);
}

#[test]
fn transfer_from_rejects_each_failure() {
    let mut t = SenteToken::new();
    t.initialize(1, String::from("A"), String::from("A"), 6, 20).unwrap();
    assert_eq!(t.transfer_from(2, 1, 3, -1), Err(Error::InvalidAmount));
    assert_eq!(t.transfer_from(2, 1, 3, 5), Err(Error::InsufficientAllowance));
    t.approve(1, 2, 100).unwrap();
    assert_eq!(t.transfer_from(2, 1, 3, 25), Err(Error::InsufficientBalance));
    assert_eq!(t.allowance(1, 2), 100);
    assert_eq!(t.balance(1), 20);
    assert_eq!(t.balance(3), 0);
}

#[test]
fn mint_is_reserved_for_the_admin() {
    let mut t = SenteToken::new();
    assert_eq!(t.mint(1, 2, 5), Err(Error::NotInitialized));
    t.initialize(1, String::from("A"), String::from("A"), 6, 100).unwrap();
    assert_eq!(t.mint(9, 2, 5), Err(Error::Unauthorized));
    assert_eq!(t.mint(1, 2, -5), Err(Error::InvalidAmount));
    assert_eq!(t.mint(1, 2, 500), Ok(()));
    assert_eq!(t.balance(2), 500);
    assert_eq!(t.total_supply(), 600);
}

#[test]
fn mint_rejects_supply_overflow() {
    let mut t = SenteToken::new();
    t.initialize(1, String::from("A"), String::from("A"), 6, i128::MAX - 10).unwrap();
    assert_eq!(t.mint(1, 2, 11), Err(Error::InvalidAmount));
    assert_eq!(t.mint(1, 2, 10), Ok(()));
    assert_eq!(t.total_supply(), i128::MAX);
}

#[test]
fn faucet_credits_fixed_amount_and_supply() {
    let mut t = SenteToken::new();
    t.initialize(1, String::from("A"), String::from("A"), 6, 1000).unwrap();
    assert_eq!(t.claim_faucet(5, 100_000), Ok(()));
    assert_eq!(t.balance(5), 100_000_000);
    assert_eq!(t.total_supply(), 1000 + 100_000_000);
}

#[test]
fn faucet_fails_before_initialization() {
    let mut t = SenteToken::new();
    assert_eq!(t.claim_faucet(5, 100_000), Err(Error::NotInitialized));
    assert_eq!(t.balance(5), 0);
    assert_eq!(t.total_supply(), 0);
}

#[test]
fn faucet_cooldown_window_is_half_open() {
    let mut t = SenteToken::new();
    t.initialize(1, String::from("A"), String::from("A"), 6, 0).unwrap();
    let base: u64 = 100_000;
    assert_eq!(t.claim_faucet(5, base), Ok(()));
    assert!(!t.can_claim_faucet(5, base));
    assert!(!t.can_claim_faucet(5, base + 43_200));
    assert!(!t.can_claim_faucet(5, base + 86_399));
    assert!(t.can_claim_faucet(5, base + 86_400));
    assert_eq!(t.claim_faucet(5, base + 86_399), Err(Error::CooldownActive));
    assert_eq!(t.balance(5), 100_000_000);
    assert_eq!(t.claim_faucet(5, base + 86_400), Ok(()));
    assert_eq!(t.balance(5), 200_000_000);
}

#[test]
fn fresh_account_can_claim_at_cooldown_after_epoch() {
    let t = SenteToken::new();
    assert!(!t.can_claim_faucet(5, 86_399));
    assert!(t.can_claim_faucet(5, 86_400));
}
