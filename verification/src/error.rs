//! The ways in which the rules can fail.

use vstd::prelude::*;

verus! {

/// What can go wrong. Only a configuration error is fatal: it stops a scene
/// before it starts. The others are handled where they arise, and play goes
/// on.
#[derive(Debug, Clone, Copy, PartialEq, Eq, Structural)]
pub enum GameError {
    /// No character or zone has the tag that was looked up.
    NotFound,
    /// Loading took longer than its deadline allows.
    LoadTimeout,
    /// A dialog graph refers to a node that it does not hold.
    ConfigurationError,
    /// A character's zone is not on the current map.
    Unresolved,
}

} // verus!
