//! Badge styles the pages pick for a status.
use vstd::prelude::*;

verus! {

/// Visual weight of a status badge.
#[derive(Clone, Copy, Debug, PartialEq, Eq, Structural)]
pub enum BadgeVariant {
    Default,
    Secondary,
    Destructive,
    Outline,
}

} // verus!
