//! A schema-migration engine: it tracks which versioned database changes
//! have been applied, records each success durably in a bookkeeping store,
//! and executes an externally supplied, ordered plan of up/down steps,
//! one transaction per step, halting at the first failure.

pub mod adaptor;
pub mod errors;
pub mod migration;
pub mod plan_builder;
