//! The short-circuit signal every handler returns.

use vstd::prelude::*;

verus! {

/// Tells the caller of a handler whether later handlers and stages still run.
#[derive(Clone, Copy, Debug, PartialEq, Eq, Structural)]
pub enum Flow {
    /// Proceed as if this handler had not run.
    Continue,
    /// Stop here.
    Break,
}

} // verus!
