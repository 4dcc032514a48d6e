use vstd::prelude::*;

use crate::allowances::{allow_keys_distinct, allow_lookup, AllowanceTable};
use crate::balances::{
    bal_keys_distinct, bal_lookup, bal_sum, lemma_bal_lookup_le_sum, BalanceTable,
};
use crate::errors::Error;
use crate::events::{Approval, Event, Transfer};
use crate::receipts::{receipt_keys_distinct, receipt_lookup, ReceiptTable};
use crate::seats::{seat_lookup, seats_all_free, SeatInventory};
use crate::verifiers::VerifierSet;

verus! {

/// Opaque fixed-size account identity.
pub type Account = u64;

/// Unsigned token amount; every computation on it is checked.
pub type Balance = u128;

/// What the host supplies with each call: the caller's identity and the
/// payment attached to the call (meaningful only for payable operations).
#[derive(Debug, Clone, Copy)]
pub struct CallContext {
    pub caller: Account,
    pub payment: Balance,
}

/// Views of `seats` as identifier sequences, in request order.
pub open spec fn seat_ids(seats: Seq<String>) -> Seq<Seq<char>> {
    seats.map_values(|s: String| s@)
}

/// Fungible-token ledger with a single-use seat-reservation overlay: account
/// balances and allowances, a fixed seat catalog, a verifier set, per-account
/// proof records, and the treasury of collected payments.
pub struct Erc20 {
    /// Total token supply fixed at construction; burns reduce the sum of
    /// balances below it but never change this figure.
    pub total_supply: Balance,
    pub balances: BalanceTable,
    pub allowances: AllowanceTable,
    /// Unit price of one ticket.
    pub price: u128,
    /// Fixed at construction; never reassigned.
    pub owner: Account,
    /// Treasury: payments collected from successful purchases.
    pub contract_balance: Balance,
    /// Proof records, overwritten whole on each successful purchase.
    pub proof_key: ReceiptTable,
    pub verifier: VerifierSet,
    pub seats: SeatInventory,
    /// False when the catalog is empty: purchases then skip every seat check
    /// and degenerate to plain paid transfers.
    pub has_seats: bool,
    /// Synchronously recorded notifications, oldest first.
    pub events: Vec<Event>,
}

impl Erc20 {
    /// Balance of `a`; an account never written reads as zero.
    pub open spec fn spec_balance(self, a: Account) -> Balance {
        bal_lookup(self.balances.entries@, a)
    }

    /// Allowance granted by `o` to `s`; a pair never written reads as zero.
    pub open spec fn spec_allowance(self, o: Account, s: Account) -> Balance {
        allow_lookup(self.allowances.entries@, o, s)
    }

    /// Whether `a` is a registered verifier.
    pub open spec fn spec_is_verifier(self, a: Account) -> bool {
        self.verifier.members@.contains(a)
    }

    /// Proof record of `a`, or nothing when none was recorded.
    pub open spec fn spec_receipt(self, a: Account) -> Option<Seq<u8>> {
        receipt_lookup(self.proof_key.entries@, a)
    }

    /// Seat state: `Some(taken)` for a catalog seat, nothing for an unknown
    /// identifier.
    pub open spec fn spec_seat(self, id: Seq<char>) -> Option<bool> {
        seat_lookup(self.seats.entries@, id)
    }

    /// Sum of all account balances, as an unbounded integer.
    pub open spec fn sum_of_balances(self) -> int {
        bal_sum(self.balances.entries@)
    }

    /// Well-formedness: each store keeps its keys distinct, the sum of
    /// balances never exceeds the fixed supply (so no transfer can overflow
    /// a balance), and the no-seats flag mirrors an empty catalog.
    pub open spec fn wf(self) -> bool {
        &&& bal_keys_distinct(self.balances.entries@)
        &&& allow_keys_distinct(self.allowances.entries@)
        &&& receipt_keys_distinct(self.proof_key.entries@)
        &&& self.sum_of_balances() <= self.total_supply
        &&& self.has_seats == (self.seats.entries@.len() != 0)
    }
}

/// In a well-formed ledger no single balance can exceed the recorded total
/// supply: the sum of balances is bounded by it and every balance is bounded
/// by the sum, so no transfer onto an account can wrap its balance.
pub proof fn lemma_balance_within_supply(e: Erc20, a: Account)
    requires
        e.wf(),
    ensures
        e.spec_balance(a) <= e.sum_of_balances() <= e.total_supply,
{
    lemma_bal_lookup_le_sum(e.balances.entries@, a);
}

/// The construction-time configuration never changes: owner, unit price,
/// recorded total supply and the no-seats flag survive every operation.
pub open spec fn fixed_config(pre: Erc20, post: Erc20) -> bool {
    &&& post.owner == pre.owner
    &&& post.price == pre.price
    &&& post.total_supply == pre.total_supply
    &&& post.has_seats == pre.has_seats
}

/// Exactly `v` tokens moved from `from` to `to` and no other balance
/// changed; a move onto oneself changes nothing.
pub open spec fn moved_balances(pre: Erc20, post: Erc20, from: Account, to: Account, v: Balance) -> bool {
    if from == to {
        forall|a: Account| post.spec_balance(a) == pre.spec_balance(a)
    } else {
        &&& post.spec_balance(from) == pre.spec_balance(from) - v
        &&& post.spec_balance(to) == pre.spec_balance(to) + v
        &&& forall|a: Account| a != from && a != to ==> post.spec_balance(a) == pre.spec_balance(a)
    }
}

impl Erc20 {
    /// Creates the ledger: `owner` holds the whole initial supply, the seat
    /// catalog is fixed from `seats` with every seat free, and the minting
    /// transfer to the constructing caller is recorded.
    pub fn new(
        ctx: &CallContext,
        initial_supply: Balance,
        price: u128,
        owner: Account,
        seats: Vec<String>,
    ) -> (r: Erc20)
        ensures
            r.wf(),
            r.total_supply == initial_supply,
            r.price == price,
            r.owner == owner,
            r.contract_balance == 0,
            r.spec_balance(owner) == initial_supply,
            forall|a: Account| a != owner ==> r.spec_balance(a) == 0,
            r.sum_of_balances() == initial_supply,
            forall|o: Account, s: Account| r.spec_allowance(o, s) == 0,
            forall|a: Account| !r.spec_is_verifier(a),
            forall|a: Account| r.spec_receipt(a) is None,
            r.has_seats == (seats@.len() != 0),
            forall|id: Seq<char>|
                r.spec_seat(id) == if exists|j: int| 0 <= j < seats@.len() && seats@[j]@ == id {
                    Some(false)
                } else {
                    Option::<bool>::None
                },
            r.events@.len() == 1,
            r.events@[0] == Event::Transfer(
                Transfer { from: None, to: Some(ctx.caller), value: initial_supply },
            ),
    {
        let has_seats = seats.len() != 0;
        let mut balances = BalanceTable::new();
        balances.set(owner, initial_supply);
        let mut events: Vec<Event> = Vec::new();
        events.push(
            Event::Transfer(Transfer { from: None, to: Some(ctx.caller), value: initial_supply }),
        );
        Erc20 {
            total_supply: initial_supply,
            balances,
            allowances: AllowanceTable::new(),
            price,
            owner,
            contract_balance: 0,
            proof_key: ReceiptTable::new(),
            verifier: VerifierSet::new(),
            seats: SeatInventory::new(&seats),
            has_seats,
            events,
        }
    }

    /// The total token supply recorded at construction.
    pub fn total_supply(&self) -> (r: Balance)
        ensures
            r == self.total_supply,
    {
        self.total_supply
    }

    /// The treasury: payments collected and not yet withdrawn.
    pub fn contract_balance(&self) -> (r: Balance)
        ensures
            r == self.contract_balance,
    {
        self.contract_balance
    }

    /// A copy of the proof record of `to`; an account that never purchased
    /// has none.
    pub fn proof_of(&self, to: Account) -> (r: Result<Vec<u8>, Error>)
        ensures
            match r {
                Ok(v) => self.spec_receipt(to) == Some(v@),
                Err(e) => self.spec_receipt(to) is None && e == Error::CannotFetch,
            },
    {
        match self.proof_key.get(to) {
            Some(v) => Ok(v),
            None => Err(Error::CannotFetch),
        }
    }

    /// The fixed contract owner.
    #[allow(non_snake_case)]
    pub fn getOwner(&self) -> (r: Account)
        ensures
            r == self.owner,
    {
        self.owner
    }

    /// Whether `to` is a registered verifier.
    pub fn is_verifier(&self, to: Account) -> (r: bool)
        ensures
            r == self.spec_is_verifier(to),
    {
        self.verifier.contains(to)
    }

    /// The fixed unit price of one ticket.
    #[allow(non_snake_case)]
    pub fn getPrice(&self) -> (r: u128)
        ensures
            r == self.price,
    {
        self.price
    }

    /// Balance of `owner`; zero for an account that never appeared.
    pub fn balance_of(&self, owner: Account) -> (r: Balance)
        ensures
            r == self.spec_balance(owner),
    {
        self.balances.get(owner)
    }

    /// Amount `spender` may still withdraw from `owner`; zero when no
    /// allowance was ever set.
    pub fn allowance(&self, owner: Account, spender: Account) -> (r: Balance)
        ensures
            r == self.spec_allowance(owner, spender),
    {
        self.allowances.get(owner, spender)
    }

    /// Registers `to` as a verifier. Only the owner may do this; any other
    /// caller receives `NotOwner` and nothing changes. The verifier set only
    /// ever grows.
    pub fn add_verifier(&mut self, ctx: &CallContext, to: Account) -> (r: Result<(), Error>)
        requires
            old(self).wf(),
        ensures
            final(self).wf(),
            fixed_config(*old(self), *final(self)),
            ctx.caller != old(self).owner ==> r == Err::<(), Error>(Error::NotOwner)
                && *final(self) == *old(self),
            ctx.caller == old(self).owner ==> {
                &&& r is Ok
                &&& forall|a: Account|
                    final(self).spec_is_verifier(a) <==> (old(self).spec_is_verifier(a) || a == to)
                &&& final(self).balances == old(self).balances
                &&& final(self).allowances == old(self).allowances
                &&& final(self).proof_key == old(self).proof_key
                &&& final(self).seats == old(self).seats
                &&& final(self).events == old(self).events
                &&& final(self).contract_balance == old(self).contract_balance
                &&& final(self).sum_of_balances() == old(self).sum_of_balances()
            },
    {
        if ctx.caller == self.owner {
            self.verifier.insert(to);
            Ok(())
        } else {
            Err(Error::NotOwner)
        }
    }

    /// Sets the allowance of (`caller`, `spender`) to exactly `value`,
    /// overwriting any earlier budget, and records an approval notification.
    /// This operation always succeeds.
    pub fn approve(&mut self, ctx: &CallContext, spender: Account, value: Balance) -> (r: Result<
        (),
        Error,
    >)
        requires
            old(self).wf(),
        ensures
            final(self).wf(),
            fixed_config(*old(self), *final(self)),
            r is Ok,
            final(self).spec_allowance(ctx.caller, spender) == value,
            forall|o: Account, s: Account|
                !(o == ctx.caller && s == spender) ==> final(self).spec_allowance(o, s) == old(
                    self,
                ).spec_allowance(o, s),
            final(self).balances == old(self).balances,
            final(self).proof_key == old(self).proof_key,
            final(self).seats == old(self).seats,
            final(self).verifier == old(self).verifier,
            final(self).contract_balance == old(self).contract_balance,
            final(self).sum_of_balances() == old(self).sum_of_balances(),
            final(self).events@ == old(self).events@.push(
                Event::Approval(Approval { owner: ctx.caller, spender, value }),
            ),
    {
        self.allowances.set(ctx.caller, spender, value);
        self.events.push(Event::Approval(Approval { owner: ctx.caller, spender, value }));
        Ok(())
    }

    /// Balance-checked move of `value` tokens from `from` to `to`: fails with
    /// `InsufficientBalance` and changes nothing when `from` holds too little,
    /// otherwise moves the tokens, keeps the sum of balances, and records a
    /// transfer notification.
    fn transfer_from_to(&mut self, from: Account, to: Account, value: Balance) -> (r: Result<
        (),
        Error,
    >)
        requires
            old(self).wf(),
        ensures
            final(self).wf(),
            fixed_config(*old(self), *final(self)),
            old(self).spec_balance(from) < value ==> r == Err::<(), Error>(
                Error::InsufficientBalance,
            ) && *final(self) == *old(self),
            old(self).spec_balance(from) >= value ==> {
                &&& r is Ok
                &&& moved_balances(*old(self), *final(self), from, to, value)
                &&& final(self).sum_of_balances() == old(self).sum_of_balances()
                &&& final(self).allowances == old(self).allowances
                &&& final(self).proof_key == old(self).proof_key
                &&& final(self).seats == old(self).seats
                &&& final(self).verifier == old(self).verifier
                &&& final(self).contract_balance == old(self).contract_balance
                &&& final(self).events@ == old(self).events@.push(
                    Event::Transfer(Transfer { from: Some(from), to: Some(to), value }),
                )
            },
    {
        let from_balance = self.balances.get(from);
        if from_balance < value {
            return Err(Error::InsufficientBalance);
        }
        self.balances.set(from, from_balance - value);
        let to_balance = self.balances.get(to);
        proof {
            lemma_bal_lookup_le_sum(self.balances.entries@, to);
        }
        self.balances.set(to, to_balance + value);
        self.events.push(Event::Transfer(Transfer { from: Some(from), to: Some(to), value }));
        Ok(())
    }

    /// Moves `value` tokens from the caller to `to`. Fails with
    /// `InsufficientBalance`, leaving everything unchanged, when the caller
    /// holds fewer than `value` tokens.
    pub fn transfer(&mut self, ctx: &CallContext, to: Account, value: Balance) -> (r: Result<
        (),
        Error,
    >)
        requires
            old(self).wf(),
        ensures
            final(self).wf(),
            fixed_config(*old(self), *final(self)),
            old(self).spec_balance(ctx.caller) < value ==> r == Err::<(), Error>(
                Error::InsufficientBalance,
            ) && *final(self) == *old(self),
            old(self).spec_balance(ctx.caller) >= value ==> {
                &&& r is Ok
                &&& moved_balances(*old(self), *final(self), ctx.caller, to, value)
                &&& final(self).sum_of_balances() == old(self).sum_of_balances()
                &&& final(self).allowances == old(self).allowances
                &&& final(self).proof_key == old(self).proof_key
                &&& final(self).seats == old(self).seats
                &&& final(self).verifier == old(self).verifier
                &&& final(self).contract_balance == old(self).contract_balance
                &&& final(self).events@ == old(self).events@.push(
                    Event::Transfer(Transfer { from: Some(ctx.caller), to: Some(to), value }),
                )
            },
    {
        self.transfer_from_to(ctx.caller, to, value)
    }

    /// Destroys `value` tokens held by `from`, shrinking the sum of balances
    /// by that amount. Only a registered verifier may burn; any other caller
    /// receives `NotVerifier`. A balance smaller than `value` gives
    /// `InsufficientBalance`. Either failure leaves everything unchanged.
    pub fn burn(&mut self, ctx: &CallContext, from: Account, value: Balance) -> (r: Result<
        (),
        Error,
    >)
        requires
            old(self).wf(),
        ensures
            final(self).wf(),
            fixed_config(*old(self), *final(self)),
            !old(self).spec_is_verifier(ctx.caller) ==> r == Err::<(), Error>(Error::NotVerifier)
                && *final(self) == *old(self),
            old(self).spec_is_verifier(ctx.caller) && old(self).spec_balance(from) < value ==> r
                == Err::<(), Error>(Error::InsufficientBalance) && *final(self) == *old(self),
            old(self).spec_is_verifier(ctx.caller) && old(self).spec_balance(from) >= value ==> {
                &&& r is Ok
                &&& final(self).spec_balance(from) == old(self).spec_balance(from) - value
                &&& forall|a: Account|
                    a != from ==> final(self).spec_balance(a) == old(self).spec_balance(a)
                &&& final(self).sum_of_balances() == old(self).sum_of_balances() - value
                &&& final(self).allowances == old(self).allowances
                &&& final(self).proof_key == old(self).proof_key
                &&& final(self).seats == old(self).seats
                &&& final(self).verifier == old(self).verifier
                &&& final(self).contract_balance == old(self).contract_balance
                &&& final(self).events == old(self).events
            },
    {
        if !self.verifier.contains(ctx.caller) {
            return Err(Error::NotVerifier);
        }
        let held = self.balances.get(from);
        if held < value {
            return Err(Error::InsufficientBalance);
        }
        self.balances.set(from, held - value);
        Ok(())
    }

    /// Moves `value` tokens from `from` to `to` on behalf of the caller,
    /// consuming that much of the caller's allowance from `from`. An
    /// allowance smaller than `value` gives `InsufficientAllowance`; a
    /// balance smaller than `value` gives `InsufficientBalance`. Either
    /// failure leaves everything unchanged — in particular the allowance it
    /// checked.
    pub fn transfer_from(
        &mut self,
        ctx: &CallContext,
        from: Account,
        to: Account,
        value: Balance,
    ) -> (r: Result<(), Error>)
        requires
            old(self).wf(),
        ensures
            final(self).wf(),
            fixed_config(*old(self), *final(self)),
            old(self).spec_allowance(from, ctx.caller) < value ==> r == Err::<(), Error>(
                Error::InsufficientAllowance,
            ) && *final(self) == *old(self),
            old(self).spec_allowance(from, ctx.caller) >= value && old(self).spec_balance(from)
                < value ==> r == Err::<(), Error>(Error::InsufficientBalance) && *final(self)
                == *old(self),
            old(self).spec_allowance(from, ctx.caller) >= value && old(self).spec_balance(from)
                >= value ==> {
                &&& r is Ok
                &&& moved_balances(*old(self), *final(self), from, to, value)
                &&& final(self).sum_of_balances() == old(self).sum_of_balances()
                &&& final(self).spec_allowance(from, ctx.caller) == old(self).spec_allowance(
                    from,
                    ctx.caller,
                ) - value
                &&& forall|o: Account, s: Account|
                    !(o == from && s == ctx.caller) ==> final(self).spec_allowance(o, s) == old(
                        self,
                    ).spec_allowance(o, s)
                &&& final(self).proof_key == old(self).proof_key
                &&& final(self).seats == old(self).seats
                &&& final(self).verifier == old(self).verifier
                &&& final(self).contract_balance == old(self).contract_balance
                &&& final(self).events@ == old(self).events@.push(
                    Event::Transfer(Transfer { from: Some(from), to: Some(to), value }),
                )
            },
    {
        let granted = self.allowances.get(from, ctx.caller);
        if granted < value {
            return Err(Error::InsufficientAllowance);
        }
        match self.transfer_from_to(from, to, value) {
            Ok(()) => {
                self.allowances.set(from, ctx.caller, granted - value);
                Ok(())
            },
            Err(e) => Err(e),
        }
    }

    /// Withdraws the whole treasury: only the owner may call this, anyone
    /// else receives `NotOwner` and nothing changes. On success the treasury
    /// is zeroed and the drained amount is returned for the host to deliver
    /// to the owner over its payment channel.
    pub fn clear(&mut self, ctx: &CallContext) -> (r: Result<Balance, Error>)
        requires
            old(self).wf(),
        ensures
            final(self).wf(),
            fixed_config(*old(self), *final(self)),
            ctx.caller != old(self).owner ==> r == Err::<Balance, Error>(Error::NotOwner)
                && *final(self) == *old(self),
            ctx.caller == old(self).owner ==> {
                &&& r == Ok::<Balance, Error>(old(self).contract_balance)
                &&& final(self).contract_balance == 0
                &&& final(self).balances == old(self).balances
                &&& final(self).allowances == old(self).allowances
                &&& final(self).proof_key == old(self).proof_key
                &&& final(self).seats == old(self).seats
                &&& final(self).verifier == old(self).verifier
                &&& final(self).events == old(self).events
                &&& final(self).sum_of_balances() == old(self).sum_of_balances()
            },
    {
        if ctx.caller != self.owner {
            return Err(Error::NotOwner);
        }
        let drained = self.contract_balance;
        self.contract_balance = 0;
        Ok(drained)
    }

    /// The payment attached to the call equals unit price times ticket count.
    pub open spec fn purchase_price_ok(self, value: Balance, payment: Balance) -> bool {
        self.price * value == payment
    }

    /// Every requested seat is free, or the catalog is empty and seat checks
    /// are skipped.
    pub open spec fn purchase_seats_ok(self, seats: Seq<String>) -> bool {
        self.has_seats ==> seats_all_free(self.seats.entries@, seat_ids(seats))
    }

    /// One ticket per requested seat, or the catalog is empty and the count
    /// check is skipped.
    pub open spec fn purchase_count_ok(self, value: Balance, seats: Seq<String>) -> bool {
        self.has_seats ==> value == seats.len()
    }

    /// The owner's float covers the sale.
    pub open spec fn purchase_funded(self, value: Balance) -> bool {
        self.spec_balance(self.owner) >= value
    }

    /// The treasury can absorb the attached payment.
    pub open spec fn purchase_treasury_ok(self, payment: Balance) -> bool {
        self.contract_balance + payment <= u128::MAX
    }

    /// The atomic purchase: `to` buys `value` tickets for the seats named in
    /// `seats`, paying the amount attached to the call. Checks run before any
    /// mutation, in this order: price (`IncorrectPrice`), seat availability
    /// (`SeatTaken`), ticket/seat count (`SeatMismatch`), the owner's float
    /// (`InsufficientBalance`), treasury room (`IncorrectValue`); a failure
    /// leaves every part of the state untouched, the proof record included.
    /// On success, and only then: `signature` becomes the proof record of
    /// `to`, `value` tokens move from the owner to `to`, the payment joins
    /// the treasury, every requested seat becomes taken, and the sale's
    /// transfer notification is recorded. With an empty catalog the seat
    /// steps are skipped and the purchase is a plain paid transfer.
    pub fn purchase_tickets(
        &mut self,
        ctx: &CallContext,
        to: Account,
        value: Balance,
        signature: Vec<u8>,
        seats: Vec<String>,
    ) -> (r: Result<(), Error>)
        requires
            old(self).wf(),
        ensures
            final(self).wf(),
            fixed_config(*old(self), *final(self)),
            forall|id: Seq<char>|
                old(self).spec_seat(id) == Some(true) ==> final(self).spec_seat(id) == Some(true),
            !old(self).purchase_price_ok(value, ctx.payment) ==> r == Err::<(), Error>(
                Error::IncorrectPrice,
            ) && *final(self) == *old(self),
            old(self).purchase_price_ok(value, ctx.payment) && !old(self).purchase_seats_ok(seats@)
                ==> r == Err::<(), Error>(Error::SeatTaken) && *final(self) == *old(self),
            old(self).purchase_price_ok(value, ctx.payment) && old(self).purchase_seats_ok(seats@)
                && !old(self).purchase_count_ok(value, seats@) ==> r == Err::<(), Error>(
                Error::SeatMismatch,
            ) && *final(self) == *old(self),
            old(self).purchase_price_ok(value, ctx.payment) && old(self).purchase_seats_ok(seats@)
                && old(self).purchase_count_ok(value, seats@) && !old(self).purchase_funded(value)
                ==> r == Err::<(), Error>(Error::InsufficientBalance) && *final(self) == *old(self),
            old(self).purchase_price_ok(value, ctx.payment) && old(self).purchase_seats_ok(seats@)
                && old(self).purchase_count_ok(value, seats@) && old(self).purchase_funded(value)
                && !old(self).purchase_treasury_ok(ctx.payment) ==> r == Err::<(), Error>(
                Error::IncorrectValue,
            ) && *final(self) == *old(self),
            old(self).purchase_price_ok(value, ctx.payment) && old(self).purchase_seats_ok(seats@)
                && old(self).purchase_count_ok(value, seats@) && old(self).purchase_funded(value)
                && old(self).purchase_treasury_ok(ctx.payment) ==> {
                &&& r is Ok
                &&& final(self).spec_receipt(to) == Some(signature@)
                &&& forall|a: Account|
                    a != to ==> final(self).spec_receipt(a) == old(self).spec_receipt(a)
                &&& moved_balances(*old(self), *final(self), old(self).owner, to, value)
                &&& final(self).sum_of_balances() == old(self).sum_of_balances()
                &&& final(self).contract_balance == old(self).contract_balance + ctx.payment
                &&& old(self).has_seats ==> forall|i: int|
                    0 <= i < seats@.len() ==> final(self).spec_seat(seats@[i]@) == Some(true)
                &&& old(self).has_seats ==> forall|id: Seq<char>|
                    !seat_ids(seats@).contains(id) ==> final(self).spec_seat(id) == old(
                        self,
                    ).spec_seat(id)
                &&& !old(self).has_seats ==> final(self).seats == old(self).seats
                &&& final(self).allowances == old(self).allowances
                &&& final(self).verifier == old(self).verifier
                &&& final(self).events@ == old(self).events@.push(
                    Event::Transfer(
                        Transfer { from: Some(old(self).owner), to: Some(to), value },
                    ),
                )
            },
    {
        let required = self.price.checked_mul(value);
        let price_ok = match required {
            Some(p) => p == ctx.payment,
            None => false,
        };
        if !price_ok {
            return Err(Error::IncorrectPrice);
        }
        if self.has_seats {
            if !self.seats_available(&seats) {
                return Err(Error::SeatTaken);
            }
            if value != seats.len() as u128 {
                return Err(Error::SeatMismatch);
            }
        }
        let owner = self.owner;
        let owner_bal = self.balances.get(owner);
        if owner_bal < value {
            return Err(Error::InsufficientBalance);
        }
        let new_treasury = match self.contract_balance.checked_add(ctx.payment) {
            Some(t) => t,
            None => {
                return Err(Error::IncorrectValue);
            },
        };
        self.proof_key.set(to, signature);
        let ghost before_transfer = *self;
        match self.transfer_from_to(owner, to, value) {
            Ok(()) => {},
            Err(e) => {
                return Err(e);
            },
        }
        let ghost after_transfer = *self;
        self.contract_balance = new_treasury;
        if self.has_seats {
            proof {
                assert forall|j: int| 0 <= j < seats@.len() implies seat_lookup(
                    self.seats.entries@,
                    seats@[j]@,
                ) == Some(false) by {
                    assert(seat_ids(seats@)[j] == seats@[j]@);
                }
            }
            let ghost mid = *self;
            let n = seats.len();
            let mut i: usize = 0;
            while i < n
                invariant
                    0 <= i <= n,
                    n == seats@.len(),
                    self.balances == mid.balances,
                    self.allowances == mid.allowances,
                    self.proof_key == mid.proof_key,
                    self.verifier == mid.verifier,
                    self.events == mid.events,
                    self.contract_balance == mid.contract_balance,
                    self.owner == mid.owner,
                    self.price == mid.price,
                    self.total_supply == mid.total_supply,
                    self.has_seats == mid.has_seats,
                    self.seats.entries@.len() == mid.seats.entries@.len(),
                    forall|j: int|
                        0 <= j < i ==> seat_lookup(self.seats.entries@, seats@[j]@) == Some(true),
                    forall|j: int|
                        i <= j < n ==> seat_lookup(self.seats.entries@, seats@[j]@) is Some,
                    forall|id: Seq<char>|
                        !seat_ids(seats@).contains(id) ==> seat_lookup(self.seats.entries@, id)
                            == seat_lookup(mid.seats.entries@, id),
                    forall|id: Seq<char>|
                        seat_lookup(mid.seats.entries@, id) == Some(true) ==> seat_lookup(
                            self.seats.entries@,
                            id,
                        ) == Some(true),
                decreases n - i,
            {
                proof {
                    assert(seat_ids(seats@)[i as int] == seats@[i as int]@);
                    assert(seat_ids(seats@).contains(seats@[i as int]@));
                }
                self.seats.mark_taken(&seats[i]);
                i = i + 1;
            }
        }
        proof {
            let pre = *old(self);
            let cur = *self;
            assert forall|a: Account| cur.spec_balance(a) == after_transfer.spec_balance(a) by {}
            assert forall|a: Account| pre.spec_balance(a) == before_transfer.spec_balance(a) by {}
            assert(moved_balances(before_transfer, after_transfer, owner, to, value));
            if owner != to {
                assert(cur.spec_balance(owner) == pre.spec_balance(owner) - value);
                assert(cur.spec_balance(to) == pre.spec_balance(to) + value);
                assert forall|a: Account| a != owner && a != to implies cur.spec_balance(a)
                    == pre.spec_balance(a) by {
                    assert(after_transfer.spec_balance(a) == before_transfer.spec_balance(a));
                }
            } else {
                assert forall|a: Account| cur.spec_balance(a) == pre.spec_balance(a) by {
                    assert(after_transfer.spec_balance(a) == before_transfer.spec_balance(a));
                }
            }
            assert(moved_balances(pre, cur, pre.owner, to, value));
        }
        Ok(())
    }

    /// Whether every seat in `seats` is in the catalog and currently free.
    /// An identifier outside the catalog counts as unavailable.
    pub fn is_seat_available(&mut self, seats: Vec<String>) -> (r: bool)
        ensures
            *final(self) == *old(self),
            r == seats_all_free(old(self).seats.entries@, seat_ids(seats@)),
    {
        self.seats_available(&seats)
    }

    /// Availability check shared by the public query and the purchase path.
    fn seats_available(&self, seats: &Vec<String>) -> (r: bool)
        ensures
            r == seats_all_free(self.seats.entries@, seat_ids(seats@)),
    {
        let n = seats.len();
        let mut i: usize = 0;
        while i < n
            invariant
                0 <= i <= n,
                n == seats@.len(),
                forall|j: int|
                    0 <= j < i ==> seat_lookup(self.seats.entries@, seats@[j]@) == Some(false),
            decreases n - i,
        {
            if !self.seats.is_free(&seats[i]) {
                proof {
                    assert(seat_ids(seats@)[i as int] == seats@[i as int]@);
                }
                return false;
            }
            i = i + 1;
        }
        proof {
            assert forall|j: int| 0 <= j < seat_ids(seats@).len() implies seat_lookup(
                self.seats.entries@,
                seat_ids(seats@)[j],
            ) == Some(false) by {
                assert(seat_ids(seats@)[j] == seats@[j]@);
            }
        }
        true
    }
}

} // verus!
