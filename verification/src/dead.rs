//! The death marker component.

use vstd::prelude::*;

verus! {

/// Marking an entity with this component means that it will be cleared away
/// before the next update; it lets cleanup happen before the entity is
/// finally removed. A socket error synthesizes one for the connection's
/// entity.
#[derive(Clone, Copy, Debug, PartialEq, Eq, Structural)]
pub struct Dead;

} // verus!
