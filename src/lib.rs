//! A batch indexer for an append-only chain of blocks: it resolves output
//! scripts to wallet addresses, gives each address a stable numeric id, and
//! cuts the transformed blocks into bounded segments for persistence.
pub mod model;
pub mod resolver;
pub mod registry;
pub mod transform;
pub mod context;
pub mod records;
pub mod retry;
