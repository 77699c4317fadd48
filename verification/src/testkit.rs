//! Building blocks for testing an OCPI integration: fixed test parties and tokens, and in-memory
//! stores.

pub mod parties;
pub mod stores;

pub use parties::{test_cpo, test_hub, test_msp, test_token};
pub use stores::{InMemoryStore, Stored};
