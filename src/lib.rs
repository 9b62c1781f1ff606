//! Decision logic and ownership accounting for a blocking single-future driver.
//!
//! `driver` holds the poll/suspend state machine that a blocking run loop
//! consults after each progress attempt; `handle` holds the ownership ledger
//! that a reference-counted wake handle obeys across clone, wake and drop;
//! `token` holds the non-queuing resume flag that suspension rests on.
pub mod driver;
pub mod handle;
pub mod token;
