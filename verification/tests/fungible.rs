use fungible::currency::{Currency, SimpleBalances};
use fungible::module::Module;
use fungible::origin::Origin;

type FungibleModule = Module<SimpleBalances>;

fn new_test_ext() -> FungibleModule {
    Module::new(SimpleBalances::new(vec![(1, 100), (2, 500)]), 10, 10)
}

fn run_to_block(module: &mut FungibleModule, block: &mut u64, n: u64) {
    while *block < n {
        *block += 1;
        module.on_initialize(*block);
    }
}

fn signed(who: u128) -> Origin {
    Origin::Signed(who)
}

#[test]
fn basic_setup_works() {
    let m = new_test_ext();
    // Users are initially funded
    assert_eq!(m.currency().free_balance(1), 100);
    assert_eq!(m.currency().free_balance(2), 500);

    // Nothing in storage
    assert_eq!(m.count(), 0);
    assert_eq!(m.total_supply(0), 0);
    assert_eq!(m.balance_of((0, 1)), 0);
    assert_eq!(m.balance_of((0, 2)), 0);
    assert_eq!(m.allowance_of((0, 1, 2)), 0);
    assert_eq!(m.free_transfers(0), 0);
    assert_eq!(m.free_transfer_count(&(), &(0, 1)), 0);

    // No funds deposited yet
    assert_eq!(m.currency().free_balance(FungibleModule::fund_account_id(0)), 0);
}

#[test]
fn user_can_create_tokens() {
    let mut m = new_test_ext();
    // User can create a token
    assert_eq!(m.create_token(signed(1), 10_000, 5, 50), Ok(()));

    // Their free balance is reduced due to deposit
    assert_eq!(m.currency().free_balance(1), 50);
    // Deposit is now held for the fund
    assert_eq!(m.currency().free_balance(FungibleModule::fund_account_id(0)), 50);

    // There is now a token
    assert_eq!(m.count(), 1);
    assert_eq!(m.total_supply(0), 10_000);
    assert_eq!(m.balance_of((0, 1)), 10_000);
    assert_eq!(m.free_transfers(0), 5);
}

#[test]
fn user_can_transfer_tokens() {
    let mut m = new_test_ext();
    // Create a token
    assert_eq!(m.create_token(signed(1), 10_000, 5, 50), Ok(()));
    // Transfer the token
    assert_eq!(m.transfer(signed(1), 0, 2, 500), Ok(()));
    // Balances are updated
    assert_eq!(m.balance_of((0, 1)), 9_500);
    assert_eq!(m.balance_of((0, 2)), 500);
    // Can't transfer more than they have
    assert_eq!(m.transfer(signed(1), 0, 2, 9_501), Err("user does not have enough tokens"));
    // But can transfer everything
    assert_eq!(m.transfer(signed(1), 0, 2, 9_500), Ok(()));
    assert_eq!(m.balance_of((0, 1)), 0);
    assert_eq!(m.balance_of((0, 2)), 10_000);
}

#[test]
fn user_can_free_transfer_tokens() {
    let mut m = new_test_ext();
    // Create a token
    assert_eq!(m.create_token(signed(1), 10_000, 5, 50), Ok(()));
    // Transfer the token
    assert_eq!(m.try_free_transfer(signed(1), 0, 2, 500), Ok(()));
    // Balances are updated
    assert_eq!(m.balance_of((0, 1)), 9_500);
    assert_eq!(m.balance_of((0, 2)), 500);
    // Fee is taken from fund
    assert_eq!(m.currency().free_balance(FungibleModule::fund_account_id(0)), 40);
    assert_eq!(m.free_transfer_count(&(), &(0, 1)), 1);
    // Can't transfer more than they have
    assert_eq!(m.try_free_transfer(signed(1), 0, 2, 9_501), Err("user does not have enough tokens"));
    // But can transfer everything
    assert_eq!(m.try_free_transfer(signed(1), 0, 2, 9_500), Ok(()));
    assert_eq!(m.balance_of((0, 1)), 0);
    assert_eq!(m.balance_of((0, 2)), 10_000);
    assert_eq!(m.free_transfer_count(&(), &(0, 1)), 2);
    assert_eq!(m.currency().free_balance(FungibleModule::fund_account_id(0)), 30);
}

#[test]
fn free_transfer_limit_works() {
    let mut m = new_test_ext();
    let mut block: u64 = 0;
    // Create a token
    assert_eq!(m.create_token(signed(1), 10_000, 4, 50), Ok(()));
    for _ in 0..4 {
        assert_eq!(m.try_free_transfer(signed(1), 0, 2, 500), Ok(()));
    }
    assert_eq!(m.currency().free_balance(FungibleModule::fund_account_id(0)), 10);

    // 5th free transfer fails
    assert_eq!(m.try_free_transfer(signed(1), 0, 2, 500), Err("no more free transfers available"));
    // No funds taken
    assert_eq!(m.currency().free_balance(FungibleModule::fund_account_id(0)), 10);
    assert_eq!(m.free_transfer_count(&(), &(0, 1)), 4);

    run_to_block(&mut m, &mut block, 10);
    // Free transfer count reset
    assert_eq!(m.free_transfer_count(&(), &(0, 1)), 0);
    // Transfer works now
    assert_eq!(m.try_free_transfer(signed(1), 0, 2, 500), Ok(()));
}

#[test]
fn cannot_free_transfer_without_deposit() {
    let mut m = new_test_ext();
    // Create a token
    assert_eq!(m.create_token(signed(1), 10_000, 5, 10), Ok(()));

    // First free transfer should work
    assert_eq!(m.try_free_transfer(signed(1), 0, 2, 500), Ok(()));
    // Funds go to zero
    assert_eq!(m.currency().free_balance(FungibleModule::fund_account_id(0)), 0);

    // Next free transfer fails
    assert_eq!(m.try_free_transfer(signed(1), 0, 2, 500), Err("too few free funds in account"));
}

#[test]
fn it_should_create_token() {
    let mut m = new_test_ext();
    let origin = signed(1);
    m.put_count(1);
    let total_supply = 10000000000;
    let free_moves = 40;
    let deposit = 10;

    assert_eq!(m.create_token(origin, total_supply, free_moves, deposit), Ok(()));
}

#[test]
fn it_deposits_more_currency_to_token() {
    let mut m = new_test_ext();
    let origin = signed(1);
    m.put_count(1);
    let token_id = 0;
    let value = 40;

    assert_eq!(m.deposit(origin, token_id, value), Ok(()));

    assert_eq!(m.currency().free_balance(1), 60);
}

#[test]
fn it_does_not_deposit_if_not_enough_balance() {
    let mut m = new_test_ext();
    let origin = signed(1);
    m.put_count(1);
    let token_id = 0;
    let value = 101;

    assert_eq!(m.deposit(origin, token_id, value), Err("balance too low to send value"));

    assert_eq!(m.currency().free_balance(1), 100);
}
