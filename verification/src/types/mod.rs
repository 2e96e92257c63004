//! The values that requests and channel records are made of.

pub mod address;
pub mod channel;
pub mod uint;

pub use address::Address;
pub use channel::{ContractState, PaymentChannel, Signature, SignedRequest};
pub use uint::U256;
