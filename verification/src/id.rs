use vstd::prelude::*;

verus! {

/// An opaque token naming a session record.
///
/// Identifiers are minted by a session store's `create` operation and are
/// only ever handed back by callers to look a record up, never to assert
/// that one exists. Equality is structural; no ordering is implied. The
/// compact wire form (for instance a cookie value) is chosen by the
/// surrounding transport layer.
#[derive(Clone, Copy, Debug, PartialEq, Eq, Hash, Structural)]
pub struct Id(pub u128);

} // verus!
