//! A fixed-membership, weighted multi-signature ledger: the status of its
//! proposals, the paginated queries over proposals, ballots and voters, and
//! the routine that moves the contract's reserve balance out.

pub mod contract;
pub mod decimal;
pub mod decode;
pub mod error;
pub mod msg;
pub mod outside;
pub mod paging;
pub mod query;
pub mod state;
pub mod store;

pub use contract::{do_burn, execute, instantiate, migrate};
pub use msg::{QueryMsg, Voter};
pub use query::query;
