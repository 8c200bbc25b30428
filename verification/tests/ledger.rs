use reentrancy_attack::{AccountId, Bank, TransferHost};

/// A host whose transfers succeed and that counts what it paid out.
struct Paying {
    paid: u128,
}

impl TransferHost for Paying {
    fn transfer(&mut self, _bank: &mut Bank, _to: AccountId, amount: u128) -> bool {
        self.paid += amount;
        true
    }
}

fn alice() -> AccountId {
    AccountId::new([1u8; 32])
}

fn bob() -> AccountId {
    AccountId::new([2u8; 32])
}

#[test]
fn deposit_works() {
    let mut bank = Bank::new();
    bank.deposit(alice(), 0);
    assert_eq!(bank.get_balance(alice()), 0);
}

#[test]
fn withdraw_works() {
    let mut bank = Bank::new();
    let mut host = Paying { paid: 0 };
    bank.deposit(alice(), 1_000_000);
    assert!(bank.withdraw(alice(), 500, &mut host));
    assert_eq!(bank.get_balance(alice()), 999_500);
    assert_eq!(host.paid, 500);
}

#[test]
fn new_bank_has_no_balances() {
    let bank = Bank::new();
    assert_eq!(bank.get_balance(alice()), 0);
    assert_eq!(bank.get_balance(bob()), 0);
    assert_eq!(bank.get_balance(AccountId::new([0u8; 32])), 0);
}

#[test]
fn account_without_deposit_has_zero() {
    let mut bank = Bank::new();
    bank.deposit(alice(), 77);
    assert_eq!(bank.get_balance(bob()), 0);
}

#[test]
fn account_is_its_bytes() {
    let mut one = [0u8; 32];
    one[31] = 1;
    let mut other = [0u8; 32];
    other[0] = 1;
    assert_eq!(AccountId::new(one).bytes, one);
    assert_eq!(AccountId::new(one), AccountId::new(one));
    assert_ne!(AccountId::new(one), AccountId::new(other));

    let mut bank = Bank::new();
    bank.deposit(AccountId::new(one), 5);
    assert_eq!(bank.get_balance(AccountId::new(one)), 5);
    assert_eq!(bank.get_balance(AccountId::new(other)), 0);
}

#[test]
fn deposits_add_up_per_account() {
    let mut bank = Bank::new();
    bank.deposit(alice(), 100);
    bank.deposit(bob(), 7);
    bank.deposit(alice(), 250);
    bank.deposit(alice(), 0);
    bank.deposit(bob(), 3);
    assert_eq!(bank.get_balance(alice()), 350);
    assert_eq!(bank.get_balance(bob()), 10);
}

#[test]
fn deposit_reaches_the_largest_balance() {
    let mut bank = Bank::new();
    bank.deposit(alice(), u128::MAX - 1);
    bank.deposit(alice(), 1);
    assert_eq!(bank.get_balance(alice()), u128::MAX);
}

#[test]
fn try_deposit_credits_what_fits() {
    let mut bank = Bank::new();
    assert!(bank.try_deposit(alice(), 40));
    assert!(bank.try_deposit(alice(), 2));
    assert_eq!(bank.get_balance(alice()), 42);
}

#[test]
fn try_deposit_refuses_an_overflowing_sum() {
    let mut bank = Bank::new();
    assert!(bank.try_deposit(alice(), u128::MAX));
    assert!(!bank.try_deposit(alice(), 1));
    assert_eq!(bank.get_balance(alice()), u128::MAX);
    assert!(bank.try_deposit(alice(), 0));
    assert!(bank.try_deposit(bob(), 1));
    assert_eq!(bank.get_balance(bob()), 1);
}

#[test]
fn deposit_then_withdraw_scenario() {
    let mut bank = Bank::new();
    let mut host = Paying { paid: 0 };
    assert_eq!(bank.get_balance(alice()), 0);
    bank.deposit(alice(), 1000);
    assert_eq!(bank.get_balance(alice()), 1000);
    assert!(bank.withdraw(alice(), 400, &mut host));
    assert_eq!(bank.get_balance(alice()), 600);
    assert!(!bank.withdraw(alice(), 700, &mut host));
    assert_eq!(bank.get_balance(alice()), 600);
    assert_eq!(host.paid, 400);
}

#[test]
fn deposit_then_withdraw_committed_scenario() {
    let mut bank = Bank::new();
    let mut host = Paying { paid: 0 };
    bank.deposit(alice(), 1000);
    assert!(bank.withdraw_committed(alice(), 400, &mut host));
    assert_eq!(bank.get_balance(alice()), 600);
    assert!(!bank.withdraw_committed(alice(), 700, &mut host));
    assert_eq!(bank.get_balance(alice()), 600);
    assert_eq!(host.paid, 400);
}

#[test]
fn withdraw_never_exceeds_the_balance() {
    let mut bank = Bank::new();
    let mut host = Paying { paid: 0 };
    bank.deposit(alice(), 10);
    assert!(!bank.withdraw(alice(), 11, &mut host));
    assert!(!bank.withdraw(alice(), u128::MAX, &mut host));
    assert!(!bank.withdraw(bob(), 1, &mut host));
    assert!(!bank.withdraw_committed(alice(), 11, &mut host));
    assert!(!bank.withdraw_committed(bob(), 1, &mut host));
    assert_eq!(host.paid, 0);
    assert_eq!(bank.get_balance(alice()), 10);
    assert_eq!(bank.get_balance(bob()), 0);
}

#[test]
fn withdraw_of_the_whole_balance_leaves_zero() {
    let mut bank = Bank::new();
    let mut host = Paying { paid: 0 };
    bank.deposit(alice(), 10);
    bank.deposit(bob(), 10);
    assert!(bank.withdraw(alice(), 10, &mut host));
    assert!(bank.withdraw_committed(bob(), 10, &mut host));
    assert_eq!(bank.get_balance(alice()), 0);
    assert_eq!(bank.get_balance(bob()), 0);
    assert_eq!(host.paid, 20);
}

#[test]
fn withdraw_of_nothing_succeeds_for_anyone() {
    let mut bank = Bank::new();
    let mut host = Paying { paid: 0 };
    assert!(bank.withdraw(alice(), 0, &mut host));
    assert!(bank.withdraw_committed(bob(), 0, &mut host));
    assert_eq!(bank.get_balance(alice()), 0);
    assert_eq!(bank.get_balance(bob()), 0);
    assert_eq!(host.paid, 0);
}

#[test]
fn withdraw_touches_one_account_only() {
    let mut bank = Bank::new();
    let mut host = Paying { paid: 0 };
    bank.deposit(alice(), 30);
    bank.deposit(bob(), 50);
    assert!(bank.withdraw(alice(), 20, &mut host));
    assert!(bank.withdraw_committed(alice(), 5, &mut host));
    assert_eq!(bank.get_balance(alice()), 5);
    assert_eq!(bank.get_balance(bob()), 50);
}
