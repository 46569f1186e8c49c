//! Reconciles a validator's leader schedule with the blocks the chain actually
//! produced: epoch slot arithmetic, block grouping, per-slot classification,
//! neighbor lookup and the decisions of the skip-list enrichment.
pub mod epoch;
pub mod grouping;
pub mod schedule;
pub mod production;
pub mod neighbors;
pub mod enrichment;
pub mod response;
