pub mod allowances;
pub mod balances;
pub mod contract;
pub mod errors;
pub mod events;
pub mod receipts;
pub mod seats;
pub mod verifiers;

pub use contract::Account;
pub use contract::Balance;
pub use contract::CallContext;
pub use contract::Erc20;
pub use errors::Error;
pub use events::Approval;
pub use events::Event;
pub use events::Transfer;
