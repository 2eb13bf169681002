//! Decision logic of a sandwich-trading agent: pool math, calldata layout,
//! transaction classification, bundle pricing and mempool bookkeeping.
//! Chain access, EVM execution and networking stay with the caller.

pub mod address;
pub mod amm;
pub mod cache;
pub mod calldata;
pub mod classifier;
pub mod config;
pub mod currency;
pub mod decode;
pub mod fees;
pub mod mempool;
pub mod optimizer;
pub mod pools;
pub mod routers;
pub mod sandwich;
pub mod strategy;
pub mod swap;
pub mod tokens;
pub mod wide;
