//! Verified core of a mass transaction-distribution engine.
//!
//! The library builds ordered sequences of signed blockchain transactions
//! (plain transfers, batched contract calls, collectible-mint batches and
//! repeated contract-call loops) with gap-free sequence numbers, and plans
//! their paced, multi-endpoint delivery.  Network activity itself lives
//! outside the library; everything the library computes is verified.

pub mod abi;
pub mod address;
pub mod amount;
pub mod config;
pub mod confirm;
pub mod dispatch;
pub mod errors;
pub mod grouping;
pub mod intent;
pub mod native;
pub mod nft;
pub mod recipients;
pub mod signing;
pub mod swapper;
pub mod wire;
