use erc20_tickets::{Approval, CallContext, Erc20, Error, Event, Transfer};

const ALICE: u64 = 1;
const BOB: u64 = 2;
const EVE: u64 = 5;

fn ctx(caller: u64) -> CallContext {
    CallContext { caller, payment: 0 }
}

fn assert_transfer_event(
    event: &Event,
    expected_from: Option<u64>,
    expected_to: Option<u64>,
    expected_value: u128,
) {
    match event {
        Event::Transfer(Transfer { from, to, value }) => {
            assert_eq!(*from, expected_from, "encountered invalid Transfer.from");
            assert_eq!(*to, expected_to, "encountered invalid Transfer.to");
            assert_eq!(*value, expected_value, "encountered invalid Transfer.value");
        }
        _ => panic!("encountered unexpected event kind: expected a Transfer event"),
    }
}

fn new_ledger(initial_supply: u128) -> Erc20 {
    // Alice deploys and owns the whole supply.
    Erc20::new(&ctx(ALICE), initial_supply, 1, ALICE, Vec::new())
}

#[test]
fn new_works() {
    let erc20 = new_ledger(100);

    // Transfer event recorded during initial construction.
    assert_eq!(1, erc20.events.len());
    assert_transfer_event(&erc20.events[0], None, Some(ALICE), 100);
}

#[test]
fn total_supply_works() {
    let erc20 = new_ledger(100);
    assert_transfer_event(&erc20.events[0], None, Some(ALICE), 100);
    // Get the token total supply.
    assert_eq!(erc20.total_supply(), 100);
}

#[test]
fn balance_of_works() {
    let erc20 = new_ledger(100);
    assert_transfer_event(&erc20.events[0], None, Some(ALICE), 100);
    // Alice owns all the tokens on deployment.
    assert_eq!(erc20.balance_of(ALICE), 100);
    // Bob does not own tokens.
    assert_eq!(erc20.balance_of(BOB), 0);
}

#[test]
fn transfer_works() {
    let mut erc20 = new_ledger(100);

    assert_eq!(erc20.balance_of(BOB), 0);
    // Alice transfers 10 tokens to Bob.
    assert_eq!(erc20.transfer(&ctx(ALICE), BOB, 10), Ok(()));
    // Bob owns 10 tokens.
    assert_eq!(erc20.balance_of(BOB), 10);

    assert_eq!(erc20.events.len(), 2);
    // First transfer event is from the instantiation.
    assert_transfer_event(&erc20.events[0], None, Some(ALICE), 100);
    // Second transfer event relates to the actual transfer.
    assert_transfer_event(&erc20.events[1], Some(ALICE), Some(BOB), 10);
}

#[test]
fn invalid_transfer_should_fail() {
    let mut erc20 = new_ledger(100);

    assert_eq!(erc20.balance_of(BOB), 0);
    // Bob fails to transfer 10 tokens to Eve.
    assert_eq!(
        erc20.transfer(&ctx(BOB), EVE, 10),
        Err(Error::InsufficientBalance)
    );
    // Alice owns all the tokens.
    assert_eq!(erc20.balance_of(ALICE), 100);
    assert_eq!(erc20.balance_of(BOB), 0);
    assert_eq!(erc20.balance_of(EVE), 0);

    // Only the construction event was recorded.
    assert_eq!(erc20.events.len(), 1);
    assert_transfer_event(&erc20.events[0], None, Some(ALICE), 100);
}

#[test]
fn transfer_from_works() {
    let mut erc20 = new_ledger(100);

    // Bob fails to transfer tokens owned by Alice.
    assert_eq!(
        erc20.transfer_from(&ctx(BOB), ALICE, EVE, 10),
        Err(Error::InsufficientAllowance)
    );
    // Alice approves Bob for token transfers on her behalf.
    assert_eq!(erc20.approve(&ctx(ALICE), BOB, 10), Ok(()));

    // The approve event takes place.
    assert_eq!(erc20.events.len(), 2);

    // Bob transfers tokens from Alice to Eve.
    assert_eq!(erc20.transfer_from(&ctx(BOB), ALICE, EVE, 10), Ok(()));
    // Eve owns tokens.
    assert_eq!(erc20.balance_of(EVE), 10);

    assert_eq!(erc20.events.len(), 3);
    assert_transfer_event(&erc20.events[0], None, Some(ALICE), 100);
    // The second event is an Approval event that we skip checking.
    assert_transfer_event(&erc20.events[2], Some(ALICE), Some(EVE), 10);
}

#[test]
fn allowance_must_not_change_on_failed_transfer() {
    let mut erc20 = new_ledger(100);

    // Alice approves Bob for token transfers on her behalf.
    let alice_balance = erc20.balance_of(ALICE);
    let initial_allowance = alice_balance + 2;
    assert_eq!(erc20.approve(&ctx(ALICE), BOB, initial_allowance), Ok(()));

    // Bob tries to transfer more tokens from Alice to Eve than she holds.
    let events_before = erc20.events.len();
    assert_eq!(
        erc20.transfer_from(&ctx(BOB), ALICE, EVE, alice_balance + 1),
        Err(Error::InsufficientBalance)
    );
    // Allowance must have stayed the same.
    assert_eq!(erc20.allowance(ALICE, BOB), initial_allowance);
    // No more events must have been recorded.
    assert_eq!(erc20.events.len(), events_before);
}

#[test]
fn approve_overwrites_and_overdraw_is_rejected() {
    // Approving 10 then drawing 11 fails and leaves the allowance at 10.
    let mut erc20 = new_ledger(100);
    assert_eq!(erc20.approve(&ctx(ALICE), BOB, 10), Ok(()));
    assert_eq!(
        erc20.transfer_from(&ctx(BOB), ALICE, EVE, 11),
        Err(Error::InsufficientAllowance)
    );
    assert_eq!(erc20.allowance(ALICE, BOB), 10);
    // A later approve overwrites, never adds.
    assert_eq!(erc20.approve(&ctx(ALICE), BOB, 3), Ok(()));
    assert_eq!(erc20.allowance(ALICE, BOB), 3);
}

#[test]
fn approve_records_approval_event() {
    let mut erc20 = new_ledger(100);
    assert_eq!(erc20.approve(&ctx(ALICE), BOB, 10), Ok(()));
    assert_eq!(erc20.events.len(), 2);
    assert_eq!(
        erc20.events[1],
        Event::Approval(Approval {
            owner: ALICE,
            spender: BOB,
            value: 10,
        })
    );
}

#[test]
fn burn_requires_verifier_and_balance() {
    let mut erc20 = new_ledger(100);
    // Only a verifier may burn.
    assert_eq!(erc20.burn(&ctx(BOB), ALICE, 5), Err(Error::NotVerifier));
    // Only the owner may add a verifier.
    assert_eq!(erc20.add_verifier(&ctx(BOB), BOB), Err(Error::NotOwner));
    assert_eq!(erc20.add_verifier(&ctx(ALICE), BOB), Ok(()));
    assert!(erc20.is_verifier(BOB));
    assert!(!erc20.is_verifier(EVE));
    // Burning more than the balance is rejected and changes nothing.
    assert_eq!(
        erc20.burn(&ctx(BOB), ALICE, 101),
        Err(Error::InsufficientBalance)
    );
    assert_eq!(erc20.balance_of(ALICE), 100);
    // A verifier can destroy tokens; the supply figure stays put.
    assert_eq!(erc20.burn(&ctx(BOB), ALICE, 40), Ok(()));
    assert_eq!(erc20.balance_of(ALICE), 60);
    assert_eq!(erc20.total_supply(), 100);
}

#[test]
fn sum_of_balances_tracks_supply_minus_burned() {
    let mut erc20 = new_ledger(1000);
    assert_eq!(erc20.transfer(&ctx(ALICE), BOB, 300), Ok(()));
    assert_eq!(erc20.approve(&ctx(ALICE), BOB, 250), Ok(()));
    assert_eq!(erc20.transfer_from(&ctx(BOB), ALICE, EVE, 250), Ok(()));
    assert_eq!(erc20.add_verifier(&ctx(ALICE), EVE), Ok(()));
    assert_eq!(erc20.burn(&ctx(EVE), BOB, 120), Ok(()));
    let total_burned: u128 = 120;
    let sum = erc20.balance_of(ALICE) + erc20.balance_of(BOB) + erc20.balance_of(EVE);
    assert_eq!(sum, 1000 - total_burned);
}
