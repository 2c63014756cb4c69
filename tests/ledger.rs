use wasmerc20::{AccountId, Approval, Error, Event, Transfer, Wasmerc20};

fn id(n: u8) -> AccountId {
    let mut bytes = [0u8; 32];
    bytes[0] = n;
    bytes[31] = n.wrapping_mul(7);
    AccountId { bytes }
}

fn a() -> AccountId {
    id(1)
}

fn b() -> AccountId {
    id(2)
}

fn c() -> AccountId {
    id(3)
}

fn d() -> AccountId {
    id(4)
}

fn transfer_ev(from: Option<AccountId>, to: Option<AccountId>, value: u128) -> Event {
    Event::Transfer(Transfer { from, to, value })
}

#[test]
fn construct_credits_creator() {
    let l = Wasmerc20::new(a(), 1000);
    assert_eq!(l.total_supply(), 1000);
    assert_eq!(l.balance_of(a()), 1000);
    assert_eq!(l.balance_of(b()), 0);
    assert_eq!(l.owner(), a());
    assert_eq!(l.events(), &vec![transfer_ev(None, Some(a()), 1000)]);
}

#[test]
fn construct_with_zero_supply() {
    let l = Wasmerc20::new(a(), 0);
    assert_eq!(l.total_supply(), 0);
    assert_eq!(l.balance_of(a()), 0);
    assert_eq!(l.events(), &vec![transfer_ev(None, Some(a()), 0)]);
}

#[test]
fn transfer_moves_balance() {
    let mut l = Wasmerc20::new(a(), 1000);
    assert_eq!(l.transfer(a(), b(), 300), Ok(()));
    assert_eq!(l.balance_of(a()), 700);
    assert_eq!(l.balance_of(b()), 300);
    assert_eq!(l.total_supply(), 1000);
    assert_eq!(l.events().last(), Some(&transfer_ev(Some(a()), Some(b()), 300)));
}

#[test]
fn transfer_over_balance_fails() {
    let mut l = Wasmerc20::new(a(), 1000);
    assert_eq!(l.transfer(a(), b(), 300), Ok(()));
    let events = l.events().len();
    assert_eq!(l.transfer(a(), b(), 10_000), Err(Error::InsufficientBalance));
    assert_eq!(l.balance_of(a()), 700);
    assert_eq!(l.balance_of(b()), 300);
    assert_eq!(l.total_supply(), 1000);
    assert_eq!(l.events().len(), events);
}

#[test]
fn transfer_over_balance_fails_standalone() {
    let mut l = Wasmerc20::new(a(), 1000);
    assert_eq!(l.transfer(a(), b(), 10_000), Err(Error::InsufficientBalance));
    assert_eq!(l.balance_of(a()), 1000);
}

#[test]
fn transfer_whole_balance_and_to_self() {
    let mut l = Wasmerc20::new(a(), 1000);
    assert_eq!(l.transfer(a(), a(), 1000), Ok(()));
    assert_eq!(l.balance_of(a()), 1000);
    assert_eq!(l.events().len(), 2);
    assert_eq!(l.transfer(a(), b(), 1000), Ok(()));
    assert_eq!(l.balance_of(a()), 0);
    assert_eq!(l.balance_of(b()), 1000);
    assert_eq!(l.transfer(a(), b(), 1), Err(Error::InsufficientBalance));
}

#[test]
fn transfer_from_consumes_allowance() {
    let mut l = Wasmerc20::new(a(), 1000);
    assert_eq!(l.approve(a(), c(), 200), Ok(()));
    assert_eq!(
        l.events().last(),
        Some(&Event::Approval(Approval { owner: a(), spender: c(), value: 200 }))
    );
    assert_eq!(l.transfer_from(c(), a(), d(), 150), Ok(()));
    assert_eq!(l.approval(a(), c()), 50);
    assert_eq!(l.balance_of(a()), 850);
    assert_eq!(l.balance_of(d()), 150);
    assert_eq!(l.balance_of(c()), 0);
    assert_eq!(l.events().last(), Some(&transfer_ev(Some(a()), Some(d()), 150)));
}

#[test]
fn transfer_from_over_allowance_fails() {
    let mut l = Wasmerc20::new(a(), 1000);
    assert_eq!(l.approve(a(), c(), 200), Ok(()));
    assert_eq!(l.transfer_from(c(), a(), d(), 150), Ok(()));
    assert_eq!(l.transfer_from(c(), a(), d(), 100), Err(Error::InsufficientApproval));
    assert_eq!(l.approval(a(), c()), 50);
    assert_eq!(l.balance_of(a()), 850);
    assert_eq!(l.balance_of(d()), 150);
}

#[test]
fn transfer_from_over_balance_fails() {
    let mut l = Wasmerc20::new(a(), 100);
    assert_eq!(l.approve(a(), c(), 500), Ok(()));
    assert_eq!(l.transfer_from(c(), a(), d(), 200), Err(Error::InsufficientBalance));
    assert_eq!(l.approval(a(), c()), 500);
    assert_eq!(l.balance_of(a()), 100);
}

#[test]
fn transfer_from_without_approval_fails() {
    let mut l = Wasmerc20::new(a(), 100);
    assert_eq!(l.transfer_from(c(), a(), d(), 1), Err(Error::InsufficientApproval));
    assert_eq!(l.transfer_from(c(), a(), d(), 0), Ok(()));
    assert_eq!(l.approval(a(), c()), 0);
}

#[test]
fn approve_overwrites_and_is_idempotent() {
    let mut l = Wasmerc20::new(a(), 100);
    assert_eq!(l.approve(a(), c(), 200), Ok(()));
    assert_eq!(l.approve(a(), c(), 200), Ok(()));
    assert_eq!(l.approval(a(), c()), 200);
    assert_eq!(l.approve(a(), c(), 20), Ok(()));
    assert_eq!(l.approval(a(), c()), 20);
    assert_eq!(l.approval(c(), a()), 0);
    assert_eq!(l.approve(a(), c(), 0), Ok(()));
    assert_eq!(l.approval(a(), c()), 0);
}

#[test]
fn mint_only_by_owner() {
    let mut l = Wasmerc20::new(a(), 1000);
    assert_eq!(l.mint(b(), 500), Err(Error::IllegalManager));
    assert_eq!(l.total_supply(), 1000);
    assert_eq!(l.balance_of(b()), 0);
    assert_eq!(l.mint(a(), 500), Ok(()));
    assert_eq!(l.total_supply(), 1500);
    assert_eq!(l.balance_of(a()), 1500);
    assert_eq!(l.events().last(), Some(&transfer_ev(None, Some(a()), 500)));
    assert_eq!(l.owner(), a());
}

#[test]
fn mint_up_to_largest_amount() {
    let mut l = Wasmerc20::new(a(), 1);
    assert_eq!(l.mint(a(), u128::MAX - 1), Ok(()));
    assert_eq!(l.total_supply(), u128::MAX);
    assert_eq!(l.transfer(a(), b(), u128::MAX), Ok(()));
    assert_eq!(l.balance_of(b()), u128::MAX);
}

#[test]
fn burn_rules() {
    let mut l = Wasmerc20::new(a(), 1000);
    assert_eq!(l.transfer(a(), b(), 400), Ok(()));
    assert_eq!(l.burn(b(), 100), Err(Error::IllegalManager));
    assert_eq!(l.burn(a(), 700), Err(Error::InsufficientBalance));
    assert_eq!(l.total_supply(), 1000);
    assert_eq!(l.burn(a(), 600), Ok(()));
    assert_eq!(l.total_supply(), 400);
    assert_eq!(l.balance_of(a()), 0);
    assert_eq!(l.balance_of(b()), 400);
    assert_eq!(l.events().last(), Some(&transfer_ev(Some(a()), None, 600)));
}

#[test]
fn supply_equals_sum_after_operations() {
    let mut l = Wasmerc20::new(a(), 1000);
    assert_eq!(l.transfer(a(), b(), 250), Ok(()));
    assert_eq!(l.approve(b(), c(), 100), Ok(()));
    assert_eq!(l.transfer_from(c(), b(), d(), 60), Ok(()));
    assert_eq!(l.mint(a(), 40), Ok(()));
    assert_eq!(l.burn(a(), 90), Ok(()));
    let sum = l.balance_of(a()) + l.balance_of(b()) + l.balance_of(c()) + l.balance_of(d());
    assert_eq!(sum, l.total_supply());
    assert_eq!(l.total_supply(), 950);
    assert_eq!(l.approval(b(), c()), 40);
    assert_eq!(l.owner(), a());
}

#[test]
fn identity_comparison() {
    assert!(a().same(&a()));
    assert!(!a().same(&b()));
    let mut x = a();
    x.bytes[31] ^= 1;
    assert!(!a().same(&x));
}
