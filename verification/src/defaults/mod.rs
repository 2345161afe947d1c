//! The default rule set: the bridged call from INVITE to BYE, with CANCEL,
//! failures, failover and the housekeeping timers.
//!
//! - [`compose`]: which families make up the set, in which order
//! - [`core_rules`]: the core rules
//! - [`handlers`]: what they do
//! - [`route_fold`]: the routes that consults answer with
pub mod compose;
pub mod core_rules;
pub mod handlers;
pub mod route_fold;
