use fungible::currency::{Currency, ExistenceRequirement, SimpleBalances, WithdrawReason};
use fungible::fees::TakeTokenFees;
use fungible::module::Module;
use fungible::origin::{ensure_signed, Origin};
use fungible::state::Event;

type Ledger = Module<SimpleBalances>;

fn ledger() -> Ledger {
    Module::new(SimpleBalances::new(vec![(1, 100), (2, 500)]), 10, 10)
}

const BAD_ORIGIN: &str = "bad origin: expected to be a signed origin";

#[test]
fn fund_account_encodes_module_and_token() {
    // "modl" ++ "coinfund" ++ little-endian token index, read as a little-endian u128.
    assert_eq!(Ledger::fund_account_id(0), 0x646e75666e696f636c646f6d);
    assert_eq!(Ledger::fund_account_id(1), 0x0000_0001_646e75666e696f636c646f6d);
    assert_eq!(Ledger::fund_account_id(0x0102_0304), 0x0102_0304_646e75666e696f636c646f6d);
    assert_eq!(Ledger::fund_account_id(u32::MAX), 0xffff_ffff_646e75666e696f636c646f6d);
    assert_ne!(Ledger::fund_account_id(7), Ledger::fund_account_id(8));
}

#[test]
fn unsigned_calls_are_refused() {
    let mut m = ledger();
    assert_eq!(m.create_token(Origin::Root, 10, 1, 1), Err(BAD_ORIGIN));
    assert_eq!(m.create_token(Origin::Unsigned, 10, 1, 1), Err(BAD_ORIGIN));
    assert_eq!(m.transfer(Origin::Root, 0, 2, 1), Err(BAD_ORIGIN));
    assert_eq!(m.try_free_transfer(Origin::Unsigned, 0, 2, 1), Err(BAD_ORIGIN));
    assert_eq!(m.approve(Origin::Root, 0, 2, 1), Err(BAD_ORIGIN));
    assert_eq!(m.transfer_from(Origin::Root, 0, 1, 2, 1), Err(BAD_ORIGIN));
    assert_eq!(m.deposit(Origin::Unsigned, 0, 1), Err(BAD_ORIGIN));
    assert_eq!(m.count(), 0);
    assert_eq!(m.currency().free_balance(1), 100);
    assert!(m.events().is_empty());
    assert_eq!(ensure_signed(Origin::Signed(9)), Ok(9));
}

#[test]
fn token_ids_are_consecutive_and_count_overflow_is_refused() {
    let mut m = ledger();
    assert_eq!(m.create_token(Origin::Signed(1), 7, 1, 0), Ok(()));
    assert_eq!(m.create_token(Origin::Signed(2), 9, 2, 0), Ok(()));
    assert_eq!(m.count(), 2);
    assert_eq!(m.balance_of((0, 1)), 7);
    assert_eq!(m.balance_of((1, 2)), 9);
    assert_eq!(m.balance_of((1, 1)), 0);
    assert_eq!(m.free_transfers(1), 2);
    m.put_count(u32::MAX);
    assert_eq!(m.create_token(Origin::Signed(1), 5, 1, 0), Err("overflow when adding new token"));
    assert_eq!(m.count(), u32::MAX);
}

#[test]
fn create_token_needs_the_deposit() {
    let mut m = ledger();
    assert_eq!(m.create_token(Origin::Signed(1), 1_000, 3, 101), Err("too few free funds in account"));
    assert_eq!(m.count(), 0);
    assert_eq!(m.total_supply(0), 0);
    assert_eq!(m.currency().free_balance(1), 100);
}

#[test]
fn create_token_records_events() {
    let mut m = ledger();
    assert_eq!(m.create_token(Origin::Signed(2), 1_000, 3, 20), Ok(()));
    assert_eq!(m.events().len(), 2);
    assert_eq!(m.events()[0], Event::NewToken(0, 2, 1_000));
    assert_eq!(m.events()[1], Event::Deposit(0, 2, 20));
    assert_eq!(m.transfer(Origin::Signed(2), 0, 1, 5), Ok(()));
    assert_eq!(m.events()[2], Event::Transfer(0, 2, 1, 5));
}

#[test]
fn zero_transfers_are_refused() {
    let mut m = ledger();
    assert_eq!(m.create_token(Origin::Signed(1), 1_000, 3, 20), Ok(()));
    assert_eq!(m.transfer(Origin::Signed(1), 0, 2, 0), Err("transfer amount should be non-zero"));
    assert_eq!(m.try_free_transfer(Origin::Signed(1), 0, 2, 0), Err("transfer amount should be non-zero"));
    assert_eq!(m.free_transfer_count(&(), &(0, 1)), 0);
    assert_eq!(m.balance_of((0, 1)), 1_000);
}

#[test]
fn transfer_to_self_keeps_balance() {
    let mut m = ledger();
    assert_eq!(m.create_token(Origin::Signed(1), 1_000, 3, 20), Ok(()));
    assert_eq!(m.transfer(Origin::Signed(1), 0, 1, 400), Ok(()));
    assert_eq!(m.balance_of((0, 1)), 1_000);
    assert_eq!(m.transfer(Origin::Signed(1), 0, 1, 1_001), Err("user does not have enough tokens"));
}

#[test]
fn transfers_keep_total_supply() {
    let mut m = ledger();
    assert_eq!(m.create_token(Origin::Signed(1), 1_000, 3, 20), Ok(()));
    assert_eq!(m.transfer(Origin::Signed(1), 0, 2, 300), Ok(()));
    assert_eq!(m.transfer(Origin::Signed(2), 0, 3, 100), Ok(()));
    assert_eq!(m.try_free_transfer(Origin::Signed(1), 0, 3, 50), Ok(()));
    let sum = m.balance_of((0, 1)) + m.balance_of((0, 2)) + m.balance_of((0, 3));
    assert_eq!(sum, m.total_supply(0));
    assert_eq!(m.balance_of((0, 1)), 650);
    assert_eq!(m.balance_of((0, 2)), 200);
    assert_eq!(m.balance_of((0, 3)), 150);
}

#[test]
fn transfers_of_unknown_tokens_are_refused() {
    let mut m = ledger();
    assert_eq!(m.transfer(Origin::Signed(1), 5, 2, 1), Err("user does not have enough tokens"));
    assert_eq!(m.try_free_transfer(Origin::Signed(1), 5, 2, 1), Err("no more free transfers available"));
}

#[test]
fn allowance_is_spent_by_transfer_from() {
    let mut m = ledger();
    assert_eq!(m.create_token(Origin::Signed(1), 1_000, 3, 20), Ok(()));
    assert_eq!(m.approve(Origin::Signed(1), 0, 2, 300), Ok(()));
    assert_eq!(m.allowance_of((0, 1, 2)), 300);
    assert_eq!(m.events()[2], Event::Approval(0, 1, 2, 300));
    assert_eq!(m.transfer_from(Origin::Signed(2), 0, 1, 3, 120), Ok(()));
    assert_eq!(m.allowance_of((0, 1, 2)), 180);
    assert_eq!(m.balance_of((0, 1)), 880);
    assert_eq!(m.balance_of((0, 3)), 120);
    assert_eq!(m.transfer_from(Origin::Signed(2), 0, 1, 3, 181), Err("underflow in calculating allowance"));
    assert_eq!(m.transfer_from(Origin::Signed(3), 0, 1, 3, 1), Err("underflow in calculating allowance"));
    assert_eq!(m.allowance_of((0, 1, 2)), 180);
    // A new approval replaces the old allowance.
    assert_eq!(m.approve(Origin::Signed(1), 0, 2, 5_000), Ok(()));
    assert_eq!(m.transfer_from(Origin::Signed(2), 0, 1, 2, 1_000), Err("user does not have enough tokens"));
    assert_eq!(m.allowance_of((0, 1, 2)), 5_000);
    assert_eq!(m.transfer_from(Origin::Signed(2), 0, 1, 2, 880), Ok(()));
    assert_eq!(m.allowance_of((0, 1, 2)), 4_120);
    assert_eq!(m.balance_of((0, 2)), 880);
}

#[test]
fn deposit_to_unknown_token_is_refused() {
    let mut m = ledger();
    assert_eq!(m.deposit(Origin::Signed(1), 0, 10), Err("Non-existent token"));
    assert_eq!(m.create_token(Origin::Signed(1), 1_000, 3, 20), Ok(()));
    assert_eq!(m.deposit(Origin::Signed(2), 0, 30), Ok(()));
    assert_eq!(m.currency().free_balance(Ledger::fund_account_id(0)), 50);
    assert_eq!(m.currency().free_balance(2), 470);
    assert_eq!(m.deposit(Origin::Signed(2), 1, 30), Err("Non-existent token"));
}

#[test]
fn free_transfer_counts_reset_only_at_period_boundaries() {
    let mut m = ledger();
    assert_eq!(m.create_token(Origin::Signed(1), 1_000, 2, 50), Ok(()));
    assert_eq!(m.try_free_transfer(Origin::Signed(1), 0, 2, 10), Ok(()));
    assert_eq!(m.try_free_transfer(Origin::Signed(2), 0, 1, 5), Ok(()));
    m.on_initialize(9);
    assert_eq!(m.free_transfer_count(&(), &(0, 1)), 1);
    assert_eq!(m.free_transfer_count(&(), &(0, 2)), 1);
    m.on_initialize(20);
    assert_eq!(m.free_transfer_count(&(), &(0, 1)), 0);
    assert_eq!(m.free_transfer_count(&(), &(0, 2)), 0);
    // Ordinary transfers do not count against the free ones.
    assert_eq!(m.transfer(Origin::Signed(1), 0, 2, 1), Ok(()));
    assert_eq!(m.free_transfer_count(&(), &(0, 1)), 0);
}

#[test]
fn fee_extension_pays_the_block_author() {
    let mut m = ledger();
    assert_eq!(m.create_token(Origin::Signed(1), 1_000, 2, 50), Ok(()));
    let fees = TakeTokenFees::new(0, 25);
    assert_eq!(fees.additional_signed(), Ok(()));
    assert_eq!(fees.debug_string(), "TokenFee ( id: ?, fee: ? )");
    let valid = fees.validate(&mut m, 1, Some(7)).unwrap();
    assert_eq!(valid.priority, 25);
    assert_eq!(valid.longevity, u64::MAX);
    assert!(valid.propagate);
    assert!(valid.requires.is_empty() && valid.provides.is_empty());
    assert_eq!(m.balance_of((0, 1)), 975);
    assert_eq!(m.balance_of((0, 7)), 25);
    assert_eq!(m.balance_of((0, 0)), 0);
    // A sender who cannot pay still gets a valid transaction, at priority 0.
    let poor = fees.validate(&mut m, 2, Some(7)).unwrap();
    assert_eq!(poor.priority, 0);
    assert_eq!(m.balance_of((0, 2)), 0);
    assert_eq!(m.balance_of((0, 7)), 25);
    // Without a known author nothing moves.
    let unknown = fees.validate(&mut m, 1, None).unwrap();
    assert_eq!(unknown.priority, 0);
    assert_eq!(m.balance_of((0, 1)), 975);
}

#[test]
fn simple_balances_follow_their_rules() {
    let mut b = SimpleBalances::new(vec![(1, 100), (1, 60), (2, u64::MAX)]);
    assert_eq!(b.free_balance(1), 60);
    assert_eq!(b.free_balance(3), 0);
    assert_eq!(b.transfer(1, 2, 1), Err("destination balance too high to receive value"));
    assert_eq!(b.free_balance(1), 60);
    assert_eq!(b.withdraw(1, 61, WithdrawReason::Transfer, ExistenceRequirement::KeepAlive), Err("too few free funds in account"));
    assert_eq!(b.withdraw(1, 60, WithdrawReason::Transfer, ExistenceRequirement::AllowDeath), Ok(60));
    assert_eq!(b.free_balance(1), 0);
    assert_eq!(b.transfer(2, 1, 5), Ok(()));
    assert_eq!(b.free_balance(1), 5);
    assert_eq!(b.transfer(1, 3, 6), Err("balance too low to send value"));
    b.resolve_creating(2, 100);
    assert_eq!(b.free_balance(2), u64::MAX);
    b.resolve_creating(4, 7);
    assert_eq!(b.free_balance(4), 7);
}
