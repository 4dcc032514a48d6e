use erc20_tickets::{CallContext, Erc20, Error, Event, Transfer};

const OWNER: u64 = 1;
const BUYER: u64 = 7;
const OTHER: u64 = 8;

fn ctx(caller: u64) -> CallContext {
    CallContext { caller, payment: 0 }
}

fn paid(caller: u64, payment: u128) -> CallContext {
    CallContext { caller, payment }
}

fn seat(name: &str) -> String {
    name.to_string()
}

fn seated_ledger(price: u128) -> Erc20 {
    Erc20::new(
        &ctx(OWNER),
        100,
        price,
        OWNER,
        vec![seat("A1"), seat("A2")],
    )
}

#[test]
fn purchase_claims_seats_and_collects_payment() {
    let mut erc20 = seated_ledger(3);
    let sig = vec![0xAA, 0xBB];
    assert_eq!(
        erc20.purchase_tickets(
            &paid(BUYER, 6),
            BUYER,
            2,
            sig.clone(),
            vec![seat("A1"), seat("A2")],
        ),
        Ok(())
    );
    assert_eq!(erc20.balance_of(BUYER), 2);
    assert_eq!(erc20.balance_of(OWNER), 98);
    assert_eq!(erc20.contract_balance(), 6);
    assert_eq!(erc20.proof_of(BUYER), Ok(sig));
    // The sale is recorded as a transfer from the owner.
    assert_eq!(
        erc20.events[1],
        Event::Transfer(Transfer {
            from: Some(OWNER),
            to: Some(BUYER),
            value: 2,
        })
    );
    // A taken seat cannot be claimed again, whatever the payment.
    assert_eq!(
        erc20.purchase_tickets(&paid(OTHER, 3), OTHER, 1, vec![0x01], vec![seat("A1")]),
        Err(Error::SeatTaken)
    );
    assert_eq!(erc20.balance_of(OTHER), 0);
    assert_eq!(erc20.contract_balance(), 6);
}

#[test]
fn purchase_rejects_ticket_seat_mismatch() {
    let mut erc20 = seated_ledger(3);
    // Payment is correct for one ticket and both seats are free, yet the
    // ticket count must equal the seat count.
    assert_eq!(
        erc20.purchase_tickets(
            &paid(BUYER, 3),
            BUYER,
            1,
            vec![0x01],
            vec![seat("A1"), seat("A2")],
        ),
        Err(Error::SeatMismatch)
    );
    // Nothing changed, the proof record included.
    assert_eq!(erc20.balance_of(BUYER), 0);
    assert_eq!(erc20.contract_balance(), 0);
    assert_eq!(erc20.proof_of(BUYER), Err(Error::CannotFetch));
    let still_free = erc20.is_seat_available(vec![seat("A1"), seat("A2")]);
    assert!(still_free);
}

#[test]
fn purchase_rejects_incorrect_price() {
    let mut erc20 = seated_ledger(3);
    assert_eq!(
        erc20.purchase_tickets(&paid(BUYER, 5), BUYER, 2, vec![0x01], vec![
            seat("A1"),
            seat("A2")
        ]),
        Err(Error::IncorrectPrice)
    );
    assert_eq!(erc20.balance_of(BUYER), 0);
    assert_eq!(erc20.contract_balance(), 0);
}

#[test]
fn purchase_price_check_survives_huge_counts() {
    // price * value exceeds any possible payment, so no payment matches.
    let mut erc20 = Erc20::new(&ctx(OWNER), 100, u128::MAX, OWNER, Vec::new());
    assert_eq!(
        erc20.purchase_tickets(&paid(BUYER, u128::MAX), BUYER, 2, vec![0x01], Vec::new()),
        Err(Error::IncorrectPrice)
    );
}

#[test]
fn empty_catalog_is_a_priced_pass_through() {
    let mut erc20 = Erc20::new(&ctx(OWNER), 100, 4, OWNER, Vec::new());
    // Zero tickets, no seats, no payment: succeeds and moves nothing.
    assert_eq!(
        erc20.purchase_tickets(&paid(BUYER, 0), BUYER, 0, vec![0x01], Vec::new()),
        Ok(())
    );
    assert_eq!(erc20.balance_of(BUYER), 0);
    // With no seat catalog the purchase is a plain paid transfer.
    assert_eq!(
        erc20.purchase_tickets(&paid(BUYER, 20), BUYER, 5, vec![0x02], Vec::new()),
        Ok(())
    );
    assert_eq!(erc20.balance_of(BUYER), 5);
    assert_eq!(erc20.balance_of(OWNER), 95);
    assert_eq!(erc20.contract_balance(), 20);
    assert_eq!(erc20.proof_of(BUYER), Ok(vec![0x02]));
}

#[test]
fn purchase_requires_owner_float() {
    // The owner holds 1 token; a sale of 2 must fail atomically.
    let mut erc20 = Erc20::new(&ctx(OWNER), 1, 1, OWNER, vec![seat("A1"), seat("A2")]);
    assert_eq!(
        erc20.purchase_tickets(
            &paid(BUYER, 2),
            BUYER,
            2,
            vec![0x01],
            vec![seat("A1"), seat("A2")],
        ),
        Err(Error::InsufficientBalance)
    );
    assert_eq!(erc20.balance_of(OWNER), 1);
    assert_eq!(erc20.contract_balance(), 0);
    let available = erc20.is_seat_available(vec![seat("A1"), seat("A2")]);
    assert!(available);
    assert_eq!(erc20.proof_of(BUYER), Err(Error::CannotFetch));
}

#[test]
fn purchase_rejects_treasury_overflow() {
    let mut erc20 = Erc20::new(&ctx(OWNER), u128::MAX, 1, OWNER, Vec::new());
    // Fill the treasury to its limit with one gigantic sale.
    assert_eq!(
        erc20.purchase_tickets(
            &paid(BUYER, u128::MAX),
            BUYER,
            u128::MAX,
            vec![0x01],
            Vec::new(),
        ),
        Ok(())
    );
    assert_eq!(erc20.contract_balance(), u128::MAX);
    // Hand the owner a token back so a further sale is funded.
    assert_eq!(erc20.transfer(&ctx(BUYER), OWNER, 1), Ok(()));
    // One more paid purchase cannot be accounted for.
    assert_eq!(
        erc20.purchase_tickets(&paid(BUYER, 1), BUYER, 1, vec![0x02], Vec::new()),
        Err(Error::IncorrectValue)
    );
    assert_eq!(erc20.contract_balance(), u128::MAX);
}

#[test]
fn unknown_seats_are_unavailable() {
    let mut erc20 = seated_ledger(1);
    let unknown = erc20.is_seat_available(vec![seat("Z9")]);
    assert!(!unknown);
    let mixed = erc20.is_seat_available(vec![seat("A1"), seat("Z9")]);
    assert!(!mixed);
    let known = erc20.is_seat_available(vec![seat("A1")]);
    assert!(known);
    let empty = erc20.is_seat_available(Vec::new());
    assert!(empty);
    // A purchase naming an unknown seat is rejected as taken.
    assert_eq!(
        erc20.purchase_tickets(&paid(BUYER, 1), BUYER, 1, vec![0x01], vec![seat("Z9")]),
        Err(Error::SeatTaken)
    );
}

#[test]
fn only_owner_may_clear_and_treasury_zeroes() {
    let mut erc20 = seated_ledger(5);
    assert_eq!(
        erc20.purchase_tickets(&paid(BUYER, 5), BUYER, 1, vec![0x01], vec![seat("A2")]),
        Ok(())
    );
    assert_eq!(erc20.contract_balance(), 5);
    assert_eq!(erc20.clear(&ctx(BUYER)), Err(Error::NotOwner));
    assert_eq!(erc20.contract_balance(), 5);
    assert_eq!(erc20.clear(&ctx(OWNER)), Ok(5));
    assert_eq!(erc20.contract_balance(), 0);
    assert_eq!(erc20.clear(&ctx(OWNER)), Ok(0));
}

#[test]
fn proof_record_is_overwritten_per_purchase() {
    let mut erc20 = seated_ledger(1);
    assert_eq!(
        erc20.purchase_tickets(&paid(BUYER, 1), BUYER, 1, vec![0x01, 0x02], vec![seat("A1")]),
        Ok(())
    );
    assert_eq!(erc20.proof_of(BUYER), Ok(vec![0x01, 0x02]));
    assert_eq!(
        erc20.purchase_tickets(&paid(BUYER, 1), BUYER, 1, vec![0x03], vec![seat("A2")]),
        Ok(())
    );
    // Overwritten whole, not appended.
    assert_eq!(erc20.proof_of(BUYER), Ok(vec![0x03]));
    assert_eq!(erc20.proof_of(OTHER), Err(Error::CannotFetch));
}

#[test]
fn getters_reflect_construction() {
    let erc20 = Erc20::new(&ctx(OWNER), 42, 9, OWNER, vec![seat("A1")]);
    assert_eq!(erc20.getOwner(), OWNER);
    assert_eq!(erc20.getPrice(), 9);
    assert_eq!(erc20.total_supply(), 42);
    assert_eq!(erc20.contract_balance(), 0);
    assert_eq!(erc20.allowance(OWNER, BUYER), 0);
    assert!(!erc20.is_verifier(OWNER));
}
