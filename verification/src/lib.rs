//! A single-asset prompt marketplace: a record store with sequential identities and a
//! settlement engine that lists and sells records, with every rule stated as a contract.
//!
//! The engine decides and keeps the records. It moves no token and no payment itself: a
//! purchase is settled by the host, which asks for the [`Settlement`], makes its transfers
//! on the token ledger and the payment ledger, and hands their answer to `buy_prompt`.
//! The host is also the one that authenticates callers and publishes the notifications
//! that the engine leaves.

pub mod contract;
pub mod events;
pub mod fees;
pub mod laws;
pub mod market;
pub mod storage;
pub mod types;

pub use contract::{PromptHashContract, PromptHashTrait};
pub use events::{Event, Events};
pub use market::{Call, Market, Settlement};
pub use storage::{Storage, StorageView};
pub use types::{Address, Error, Prompt};
