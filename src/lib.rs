//! A price-reference oracle store: batched rate updates from a relayer, and
//! cross-rate queries that combine two independently resolved rates.
pub mod contract;
pub mod error;
pub mod laws;
pub mod msg;
pub mod resolver;
pub mod state;
