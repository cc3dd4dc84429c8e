use erc20::{Address, Erc20, Event};

fn addr(id: u64) -> Address {
    Address { id }
}

#[test]
fn construction_scenario() {
    let k = addr(1);
    let token = Erc20::new(k, 1_000_000);
    assert_eq!(token.balance_of(k), 1_000_000);
    assert_eq!(token.total_supply(), 1_000_000);
    assert_eq!(token.balance_of(addr(2)), 0);
    assert_eq!(token.balance_of(addr(99)), 0);
    assert_eq!(token.allowance(k, addr(2)), 0);
    assert_eq!(token.allowance(addr(2), k), 0);
    assert_eq!(token.allowance(addr(5), addr(6)), 0);
    assert!(token.events().is_empty());
}

#[test]
fn construction_with_zero_supply() {
    let k = addr(1);
    let token = Erc20::new(k, 0);
    assert_eq!(token.balance_of(k), 0);
    assert_eq!(token.total_supply(), 0);
}

#[test]
fn unknown_account_balance_is_zero() {
    let token = Erc20::new(addr(1), 500);
    assert_eq!(token.balance_of(addr(12345)), 0);
}

#[test]
fn transfer_moves_value() {
    let a = addr(1);
    let b = addr(2);
    let mut token = Erc20::new(a, 100);
    assert!(token.transfer(a, b, 30));
    assert_eq!(token.balance_of(a), 70);
    assert_eq!(token.balance_of(b), 30);
    assert_eq!(token.total_supply(), 100);
}

#[test]
fn transfer_insufficient_balance_is_noop() {
    let a = addr(1);
    let b = addr(2);
    let c = addr(3);
    let mut token = Erc20::new(a, 100);
    assert!(token.transfer(a, b, 40));
    assert!(!token.transfer(b, c, 41));
    assert_eq!(token.balance_of(a), 60);
    assert_eq!(token.balance_of(b), 40);
    assert_eq!(token.balance_of(c), 0);
    assert_eq!(token.total_supply(), 100);
}

#[test]
fn transfer_from_empty_account_fails() {
    let a = addr(1);
    let b = addr(2);
    let mut token = Erc20::new(a, 100);
    assert!(!token.transfer(b, a, 1));
    assert_eq!(token.balance_of(a), 100);
    assert_eq!(token.balance_of(b), 0);
}

#[test]
fn self_transfer_keeps_balance() {
    let a = addr(1);
    let mut token = Erc20::new(a, 500);
    assert!(token.transfer(a, a, 200));
    assert_eq!(token.balance_of(a), 500);
    assert!(token.transfer(a, a, 500));
    assert_eq!(token.balance_of(a), 500);
}

#[test]
fn zero_value_transfer_succeeds() {
    let a = addr(1);
    let b = addr(2);
    let mut token = Erc20::new(a, 100);
    // zero never exceeds any balance, even of an account never seen
    assert!(token.transfer(b, a, 0));
    assert_eq!(token.balance_of(a), 100);
    assert_eq!(token.balance_of(b), 0);
    assert_eq!(token.events().len(), 1);
    assert_eq!(token.events()[0], Event::Transfer { from: b, to: a, value: 0 });
}

#[test]
fn approve_overwrites_previous_allowance() {
    let owner = addr(1);
    let spender = addr(2);
    let mut token = Erc20::new(owner, 100);
    assert!(token.approve(owner, spender, 10));
    assert!(token.approve(owner, spender, 3));
    assert_eq!(token.allowance(owner, spender), 3);
}

#[test]
fn approve_is_directional() {
    let a = addr(1);
    let b = addr(2);
    let mut token = Erc20::new(a, 100);
    assert!(token.approve(a, b, 25));
    assert_eq!(token.allowance(a, b), 25);
    assert_eq!(token.allowance(b, a), 0);
}

#[test]
fn approve_needs_no_balance() {
    let a = addr(1);
    let pauper = addr(9);
    let b = addr(2);
    let mut token = Erc20::new(a, 100);
    assert!(token.approve(pauper, b, 1_000_000));
    assert_eq!(token.allowance(pauper, b), 1_000_000);
}

#[test]
fn delegated_spend_decrements_allowance() {
    let a = addr(1);
    let b = addr(2);
    let c = addr(3);
    let k = addr(4);
    let mut token = Erc20::new(k, 1_000);
    assert!(token.transfer(k, a, 50));
    assert!(token.approve(a, b, 100));
    assert!(token.transfer_from(b, a, c, 30));
    assert_eq!(token.allowance(a, b), 70);
    assert_eq!(token.balance_of(a), 20);
    assert_eq!(token.balance_of(c), 30);
}

#[test]
fn insufficient_allowance_blocks_despite_balance() {
    let a = addr(1);
    let b = addr(2);
    let c = addr(3);
    let mut token = Erc20::new(a, 1_000);
    assert!(token.approve(a, b, 5));
    assert!(!token.transfer_from(b, a, c, 6));
    assert_eq!(token.balance_of(a), 1_000);
    assert_eq!(token.balance_of(c), 0);
    assert_eq!(token.allowance(a, b), 5);
}

#[test]
fn balance_failure_still_consumes_allowance() {
    // the two gates are independent: once the allowance gate passes, the
    // allowance is spent even when the balance gate then fails
    let a = addr(1);
    let b = addr(2);
    let c = addr(3);
    let k = addr(4);
    let mut token = Erc20::new(k, 1_000);
    assert!(token.transfer(k, a, 10));
    assert!(token.approve(a, b, 100));
    assert!(!token.transfer_from(b, a, c, 50));
    assert_eq!(token.allowance(a, b), 50);
    assert_eq!(token.balance_of(a), 10);
    assert_eq!(token.balance_of(c), 0);
}

#[test]
fn delegated_transfer_of_exact_allowance_and_balance() {
    let a = addr(1);
    let b = addr(2);
    let c = addr(3);
    let mut token = Erc20::new(a, 40);
    assert!(token.approve(a, b, 40));
    assert!(token.transfer_from(b, a, c, 40));
    assert_eq!(token.allowance(a, b), 0);
    assert_eq!(token.balance_of(a), 0);
    assert_eq!(token.balance_of(c), 40);
}

#[test]
fn self_approval_and_self_delegation() {
    // an owner may grant an allowance to themselves; no special-casing
    let a = addr(1);
    let b = addr(2);
    let mut token = Erc20::new(a, 100);
    assert!(token.approve(a, a, 60));
    assert!(token.transfer_from(a, a, b, 60));
    assert_eq!(token.allowance(a, a), 0);
    assert_eq!(token.balance_of(a), 40);
    assert_eq!(token.balance_of(b), 60);
}

#[test]
fn records_are_appended_in_order() {
    let a = addr(1);
    let b = addr(2);
    let mut token = Erc20::new(a, 100);
    assert!(token.transfer(a, b, 10));
    assert!(token.approve(a, b, 7));
    assert!(!token.transfer(b, a, 99));
    assert_eq!(token.events().len(), 2);
    assert_eq!(token.events()[0], Event::Transfer { from: a, to: b, value: 10 });
    assert_eq!(token.events()[1], Event::Approval { owner: a, spender: b, value: 7 });
}

#[test]
fn conservation_across_operations() {
    let a = addr(1);
    let b = addr(2);
    let c = addr(3);
    let mut token = Erc20::new(a, 10_000);
    assert!(token.transfer(a, b, 2_500));
    assert!(token.approve(b, c, 2_000));
    assert!(token.transfer_from(c, b, c, 1_500));
    assert!(!token.transfer(c, a, 9_999));
    assert!(token.transfer(c, a, 500));
    let sum = token.balance_of(a) + token.balance_of(b) + token.balance_of(c);
    assert_eq!(sum, token.total_supply());
    assert_eq!(token.total_supply(), 10_000);
}

#[test]
fn full_supply_at_maximum_width_can_move() {
    let a = addr(1);
    let b = addr(2);
    let mut token = Erc20::new(a, u128::MAX);
    assert!(token.transfer(a, b, u128::MAX));
    assert_eq!(token.balance_of(a), 0);
    assert_eq!(token.balance_of(b), u128::MAX);
    assert!(!token.transfer(a, b, 1));
}
