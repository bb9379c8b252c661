use token_ledger::address::Address;
use token_ledger::error::Error;
use token_ledger::event::Event;
use token_ledger::token::{NotifyRequest, Token};
use token_ledger::uint256::Uint256;

fn addr(n: u128) -> Address {
    Address::from_parts(0, n)
}

fn amt(n: u128) -> Uint256 {
    Uint256::from_u128(n)
}

fn fresh_token(deployer: Address) -> Token {
    Token::new("Simple Token".to_string(), "STK".to_string(), 18, deployer)
}

/// The sum of the balances of every account a test touches.
fn sum_balances(t: &Token, accounts: &[Address]) -> u128 {
    let mut sum: u128 = 0;
    for a in accounts {
        let b = t.balance_of(*a);
        assert_eq!(b.hi, 0);
        sum += b.lo;
    }
    sum
}

#[test]
fn test_new_token_state() {
    let owner = addr(1);
    let t = fresh_token(owner);
    assert_eq!(t.name(), "Simple Token");
    assert_eq!(t.symbol(), "STK");
    assert_eq!(t.decimals(), 18);
    assert_eq!(t.total_supply(), amt(0));
    assert_eq!(t.balance_of(owner), amt(0));
    assert_eq!(t.balance_of(addr(2)), amt(0));
    assert_eq!(t.allowance(owner, addr(2)), amt(0));
    assert_eq!(t.owner(), owner);
    assert!(t.events().is_empty());
}

#[test]
fn test_mint_by_owner_updates_supply_and_balance() {
    let owner = addr(1);
    let user = addr(2);
    let mut t = fresh_token(owner);
    assert_eq!(t.mint(owner, user, amt(1000)), Ok(()));
    assert_eq!(t.total_supply(), amt(1000));
    assert_eq!(t.balance_of(user), amt(1000));
    assert_eq!(
        t.events().last(),
        Some(&Event::Transfer { from: Address::zero(), to: user, value: amt(1000) })
    );
}

#[test]
fn test_mint_by_non_owner_unauthorized() {
    let owner = addr(1);
    let intruder = addr(9);
    let mut t = fresh_token(owner);
    assert_eq!(t.mint(intruder, intruder, amt(5)), Err(Error::Unauthorized));
    assert_eq!(t.total_supply(), amt(0));
    assert_eq!(t.balance_of(intruder), amt(0));
    assert!(t.events().is_empty());
}

#[test]
fn test_mint_overflow_fails_cleanly() {
    let owner = addr(1);
    let user = addr(2);
    let mut t = fresh_token(owner);
    let max = Uint256 { lo: u128::MAX, hi: u128::MAX };
    assert_eq!(t.mint(owner, user, max), Ok(()));
    assert_eq!(t.mint(owner, user, amt(1)), Err(Error::Overflow));
    assert_eq!(t.total_supply(), max);
    assert_eq!(t.balance_of(user), max);
}

#[test]
fn test_burn_by_owner_and_by_holder() {
    let owner = addr(1);
    let user = addr(2);
    let mut t = fresh_token(owner);
    assert_eq!(t.mint(owner, user, amt(100)), Ok(()));
    assert_eq!(t.burn(owner, user, amt(30)), Ok(()));
    assert_eq!(t.balance_of(user), amt(70));
    assert_eq!(t.total_supply(), amt(70));
    assert_eq!(t.burn(user, user, amt(20)), Ok(()));
    assert_eq!(t.balance_of(user), amt(50));
    assert_eq!(t.total_supply(), amt(50));
    assert_eq!(
        t.events().last(),
        Some(&Event::Transfer { from: user, to: Address::zero(), value: amt(20) })
    );
}

#[test]
fn test_burn_by_third_party_unauthorized() {
    let owner = addr(1);
    let user = addr(2);
    let intruder = addr(9);
    let mut t = fresh_token(owner);
    assert_eq!(t.mint(owner, user, amt(100)), Ok(()));
    assert_eq!(t.burn(intruder, user, amt(10)), Err(Error::Unauthorized));
    assert_eq!(t.balance_of(user), amt(100));
    assert_eq!(t.total_supply(), amt(100));
}

#[test]
fn test_burn_insufficient_balance() {
    let owner = addr(1);
    let mut t = fresh_token(owner);
    assert_eq!(t.mint(owner, owner, amt(5)), Ok(()));
    assert_eq!(t.burn(owner, owner, amt(6)), Err(Error::InsufficientBalance));
    assert_eq!(t.balance_of(owner), amt(5));
    assert_eq!(t.total_supply(), amt(5));
}

#[test]
fn test_transfer_moves_exactly_value() {
    let owner = addr(1);
    let alice = addr(2);
    let bob = addr(3);
    let mut t = fresh_token(owner);
    assert_eq!(t.mint(owner, alice, amt(100)), Ok(()));
    assert_eq!(t.transfer(alice, bob, amt(40)), Ok(true));
    assert_eq!(t.balance_of(alice), amt(60));
    assert_eq!(t.balance_of(bob), amt(40));
    assert_eq!(t.total_supply(), amt(100));
    assert_eq!(
        t.events().last(),
        Some(&Event::Transfer { from: alice, to: bob, value: amt(40) })
    );
}

#[test]
fn test_transfer_to_zero_rejected() {
    let owner = addr(1);
    let mut t = fresh_token(owner);
    assert_eq!(t.mint(owner, owner, amt(10)), Ok(()));
    assert_eq!(t.transfer(owner, Address::zero(), amt(1)), Err(Error::InvalidRecipient));
    assert_eq!(t.balance_of(owner), amt(10));
}

#[test]
fn test_transfer_from_to_zero_rejected() {
    let owner = addr(1);
    let spender = addr(2);
    let mut t = fresh_token(owner);
    assert_eq!(t.mint(owner, owner, amt(10)), Ok(()));
    assert_eq!(t.approve(owner, spender, amt(10)), true);
    assert_eq!(
        t.transfer_from(spender, owner, Address::zero(), amt(1)),
        Err(Error::InvalidRecipient)
    );
    assert_eq!(t.balance_of(owner), amt(10));
    assert_eq!(t.allowance(owner, spender), amt(10));
}

#[test]
fn test_failed_transfer_leaves_state_unchanged() {
    let owner = addr(1);
    let alice = addr(2);
    let bob = addr(3);
    let mut t = fresh_token(owner);
    assert_eq!(t.mint(owner, alice, amt(50)), Ok(()));
    assert_eq!(t.transfer(alice, bob, amt(51)), Err(Error::InsufficientBalance));
    assert_eq!(t.balance_of(alice), amt(50));
    assert_eq!(t.balance_of(bob), amt(0));
    assert_eq!(t.total_supply(), amt(50));
    // only the mint event is in the log
    assert_eq!(t.events().len(), 1);
}

#[test]
fn test_transfer_to_self_keeps_balance() {
    let owner = addr(1);
    let mut t = fresh_token(owner);
    assert_eq!(t.mint(owner, owner, amt(25)), Ok(()));
    assert_eq!(t.transfer(owner, owner, amt(10)), Ok(true));
    assert_eq!(t.balance_of(owner), amt(25));
    assert_eq!(t.total_supply(), amt(25));
}

#[test]
fn test_approve_overwrites_previous_value() {
    let owner = addr(1);
    let spender = addr(2);
    let mut t = fresh_token(owner);
    assert_eq!(t.approve(owner, spender, amt(50)), true);
    assert_eq!(t.allowance(owner, spender), amt(50));
    assert_eq!(t.approve(owner, spender, amt(7)), true);
    assert_eq!(t.allowance(owner, spender), amt(7));
    assert_eq!(
        t.events().last(),
        Some(&Event::Approval { owner, spender, value: amt(7) })
    );
}

#[test]
fn test_allowance_consumption() {
    let owner = addr(1);
    let holder = addr(2);
    let spender = addr(3);
    let dest = addr(4);
    let mut t = fresh_token(owner);
    assert_eq!(t.mint(owner, holder, amt(1000)), Ok(()));
    assert_eq!(t.approve(holder, spender, amt(100)), true);
    assert_eq!(t.transfer_from(spender, holder, dest, amt(60)), Ok(true));
    assert_eq!(t.allowance(holder, spender), amt(40));
    assert_eq!(t.balance_of(holder), amt(940));
    assert_eq!(t.balance_of(dest), amt(60));
    assert_eq!(
        t.transfer_from(spender, holder, dest, amt(41)),
        Err(Error::InsufficientAllowance)
    );
    assert_eq!(t.allowance(holder, spender), amt(40));
    assert_eq!(t.balance_of(holder), amt(940));
    assert_eq!(t.balance_of(dest), amt(60));
}

#[test]
fn test_transfer_from_insufficient_balance() {
    let owner = addr(1);
    let holder = addr(2);
    let spender = addr(3);
    let dest = addr(4);
    let mut t = fresh_token(owner);
    assert_eq!(t.mint(owner, holder, amt(10)), Ok(()));
    assert_eq!(t.approve(holder, spender, amt(100)), true);
    assert_eq!(
        t.transfer_from(spender, holder, dest, amt(11)),
        Err(Error::InsufficientBalance)
    );
    assert_eq!(t.balance_of(holder), amt(10));
    assert_eq!(t.allowance(holder, spender), amt(100));
}

#[test]
fn test_conservation_across_operations() {
    let owner = addr(1);
    let alice = addr(2);
    let bob = addr(3);
    let carol = addr(4);
    let everyone = [owner, alice, bob, carol];
    let mut t = fresh_token(owner);
    assert_eq!(t.mint(owner, alice, amt(500)), Ok(()));
    assert_eq!(t.mint(owner, bob, amt(200)), Ok(()));
    assert_eq!(t.transfer(alice, carol, amt(123)), Ok(true));
    assert_eq!(t.approve(bob, alice, amt(200)), true);
    assert_eq!(t.transfer_from(alice, bob, carol, amt(77)), Ok(true));
    assert_eq!(t.burn(owner, carol, amt(50)), Ok(()));
    let supply = t.total_supply();
    assert_eq!(supply.hi, 0);
    assert_eq!(sum_balances(&t, &everyone), supply.lo);
    assert_eq!(supply, amt(650));
}

#[test]
fn test_notification_flows_after_full_mutation() {
    let owner = addr(1);
    let holder = addr(2);
    let spender = addr(3);
    let dest = addr(4);
    let mut t = fresh_token(owner);
    assert_eq!(t.mint(owner, holder, amt(100)), Ok(()));
    assert_eq!(t.approve(holder, spender, amt(100)), true);
    let req = t
        .transfer_from_with_notification(spender, holder, dest, amt(30))
        .expect("delegated transfer succeeds");
    assert_eq!(req, NotifyRequest { from: holder, to: dest, value: amt(30) });
    // A re-entrant call delivered while the host performs the
    // notification observes the fully-updated state, never a partial one.
    assert_eq!(t.balance_of(holder), amt(70));
    assert_eq!(t.balance_of(dest), amt(30));
    assert_eq!(t.allowance(holder, spender), amt(70));
    let reentrant = t.transfer(dest, holder, amt(5));
    assert_eq!(reentrant, Ok(true));
    assert_eq!(t.balance_of(dest), amt(25));
    // the host reports the call outcome; judging it touches no state
    let word_true = {
        let mut w = vec![0u8; 32];
        w[31] = 1;
        w
    };
    assert_eq!(
        token_ledger::shim::check_external_transfer(true, &word_true, false),
        Ok(())
    );
    assert_eq!(t.balance_of(holder), amt(75));
}

#[test]
fn test_error_messages() {
    assert_eq!(Error::InvalidRecipient.message(), "transfer to the zero address");
    assert_eq!(Error::Unauthorized.message(), "caller is not authorized");
}
