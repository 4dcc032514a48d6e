use vstd::prelude::*;

verus! {

/// Notification emitted when tokens move. `from` is absent for the minting
/// transfer recorded at construction.
#[derive(Debug, PartialEq, Eq)]
pub struct Transfer {
    pub from: Option<u64>,
    pub to: Option<u64>,
    pub value: u128,
}

/// Notification emitted when `owner` grants `spender` a spending budget of
/// `value` tokens.
#[derive(Debug, PartialEq, Eq)]
pub struct Approval {
    pub owner: u64,
    pub spender: u64,
    pub value: u128,
}

/// One entry of the synchronously recorded notification log. The host is
/// expected to deliver entries in order.
#[derive(Debug, PartialEq, Eq)]
pub enum Event {
    Transfer(Transfer),
    Approval(Approval),
}

} // verus!
