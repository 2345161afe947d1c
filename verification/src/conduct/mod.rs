//! What the rules do with an event: which message each of them has sent, what is
//! recorded, which deadline runs, and how the call goes on.
//!
//! - [`meeting`]: which events a rule meets
//! - [`calls`], [`promotion`], [`transfer`]: what is done with them
//! - [`decisions`], [`questions`]: what a decision says, and what it is shown
//! - [`turns`]: what a turn is as a whole
use vstd::prelude::*;

use crate::action::RuleActionView;

pub mod calls;
pub mod decisions;
pub mod meeting;
pub mod promotion;
pub mod questions;
pub mod transfer;
pub mod turns;

verus! {

/// One action of a list stands before another.
pub open spec fn comes_before(
    a: Seq<RuleActionView>,
    first: RuleActionView,
    second: RuleActionView,
) -> bool {
    exists|i: int, j: int|
        0 <= i < j < a.len() && #[trigger] a[i] == first && #[trigger] a[j] == second
}

} // verus!
