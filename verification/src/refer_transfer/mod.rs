//! Blind transfer: a bridged callee refers, the decision layer authorizes, the
//! target is dialled on held media, both ends are realigned, and the caller is
//! bridged to the target.
//!
//! - [`seed`]: the core rules from before a transfer is under way.
//! - [`machine`]: the rules of its phases, and the projection of its cursor.
//! - [`notify`]: the progress reports toward the referrer.
pub mod machine;
pub mod notify;
pub mod seed;
