use vstd::prelude::*;

use crate::expiry::{Expires, Expiry};

verus! {

/// A small concrete session payload: a counter together with the expiry
/// policy the record declares.
///
/// Stores and the session lifecycle are generic over any payload providing
/// [`Expires`]; this record is the crate's ready-made payload.
#[derive(Clone, Copy, Debug, PartialEq, Eq, Structural)]
pub struct Record {
    pub count: u64,
    pub expiry: Expiry,
}

impl Expires for Record {
    open spec fn expires_spec(&self) -> Expiry {
        self.expiry
    }

    fn expires(&self) -> (e: Expiry) {
        self.expiry
    }
}

} // verus!
