//! The rules of the Plasm lockdrop: users lock BTC or ETH for some time, authorities check the
//! locking transactions and vote on them, and approved claims are paid out in PLM.

pub mod bytes;
pub mod config;
pub mod crypto;
pub mod hashing;
pub mod issue;
pub mod json;
pub mod laws;
pub mod lock;
pub mod module;
pub mod rate_filter;
pub mod rates;
pub mod runs;
pub mod scale;
pub mod state;
pub mod store;
pub mod text;
pub mod ticker;
pub mod types;
pub mod worker;

