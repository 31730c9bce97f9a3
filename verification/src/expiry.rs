use vstd::prelude::*;

verus! {

/// The strategy a record declares for when it lapses.
///
/// Stores consume the policy to filter lapsed records out on load; the
/// external cookie-emitting layer consumes it to choose a `Max-Age`.
/// Durations and instants are plain seconds, the instant counted from the
/// same epoch as the store clock.
#[derive(Clone, Copy, Debug, PartialEq, Eq, Hash, Structural)]
pub enum Expiry {
    /// No explicit expiration is persisted; durability is backend-defined.
    OnSessionEnd,
    /// Sliding expiration: the record lapses the given number of seconds
    /// after the last write, refreshed on every save.
    OnInactivity(u64),
    /// Fixed expiration: the record lapses at the given instant.
    AtDateTime(u64),
}

/// The capability every stored payload must provide: an expiry policy query.
pub trait Expires: Sized {
    /// The policy this record declares, as seen by specifications.
    spec fn expires_spec(&self) -> Expiry;

    /// The policy this record declares.
    fn expires(&self) -> (e: Expiry)
        ensures
            e == self.expires_spec(),
    ;
}

/// Addition on `u64` that clamps at the top of the range instead of wrapping.
pub open spec fn sat_add(a: u64, b: u64) -> u64 {
    if a + b > u64::MAX {
        u64::MAX
    } else {
        (a + b) as u64
    }
}

/// The absolute instant after which a record written at `now` under policy
/// `e` is lapsed, or `None` when the policy never lapses it.
pub open spec fn deadline_of(e: Expiry, now: u64) -> Option<u64> {
    match e {
        Expiry::OnSessionEnd => None,
        Expiry::OnInactivity(d) => Some(sat_add(now, d)),
        Expiry::AtDateTime(t) => Some(t),
    }
}

/// Whether a record with the given deadline is still active at `now`.
pub open spec fn still_active(deadline: Option<u64>, now: u64) -> bool {
    match deadline {
        None => true,
        Some(t) => t > now,
    }
}

/// Computes [`deadline_of`] for a record written at `now`.
pub fn compute_deadline(e: Expiry, now: u64) -> (r: Option<u64>)
    ensures
        r == deadline_of(e, now),
{
    match e {
        Expiry::OnSessionEnd => None,
        Expiry::OnInactivity(d) => {
            if d > u64::MAX - now {
                Some(u64::MAX)
            } else {
                Some(now + d)
            }
        },
        Expiry::AtDateTime(t) => Some(t),
    }
}

/// Decides [`still_active`] for a stored deadline.
pub fn deadline_active(deadline: Option<u64>, now: u64) -> (r: bool)
    ensures
        r == still_active(deadline, now),
{
    match deadline {
        None => true,
        Some(t) => t > now,
    }
}

} // verus!
