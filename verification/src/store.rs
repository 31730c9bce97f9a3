use vstd::prelude::*;

use crate::expiry::{Expires, Expiry};
use crate::id::Id;

verus! {

/// The storage capability every session backend must satisfy.
///
/// A store models itself by three spec functions: `contents`, the records it
/// holds keyed by identifier; `active`, which identifiers currently name a
/// record that has not lapsed; and `unexpired`, whether a record written at
/// this instant would be active. Absence is never an error: every operation
/// distinguishes "no active record" (`false` / `None`) from a hard backend
/// failure (`Err`). After a hard failure nothing is promised of the store's
/// state.
pub trait SessionStore<R>: Sized {
    type Error;

    /// The records this store holds, keyed by identifier. Lapsed records may
    /// remain here until deleted; `active` tells them apart.
    spec fn contents(&self) -> Map<Id, R>;

    /// Whether `id` names a record that has not lapsed.
    spec fn active(&self, id: Id) -> bool;

    /// Whether a record with this payload's expiry policy, written at the
    /// store's current instant, would be active.
    spec fn unexpired(&self, record: R) -> bool;

    /// The store's internal well-formedness.
    spec fn wf(&self) -> bool;

    /// The instant the store's expiry filtering currently uses.
    spec fn now_of(&self) -> u64;

    /// Every active identifier names a stored record.
    proof fn active_is_stored(&self, id: Id)
        requires
            self.wf(),
            self.active(id),
        ensures
            self.contents().contains_key(id),
    ;

    /// Expiry governs reads: a stored record whose fixed expiry instant has
    /// passed is not active, so loads treat it as absent rather than as an
    /// error, even though nothing ever deleted it.
    proof fn fixed_expiry_passed_not_active(&self, id: Id, t: u64) where R: Expires
        requires
            self.wf(),
            self.contents().contains_key(id),
            self.contents()[id].expires_spec() == Expiry::AtDateTime(t),
            t <= self.now_of(),
        ensures
            !self.active(id),
    ;

    /// Persists a brand-new record and returns its identifier, which must not
    /// name any stored record. On an internal collision the backend
    /// regenerates rather than overwrites.
    fn create(&mut self, record: &R) -> (r: Result<Id, Self::Error>)
        requires
            old(self).wf(),
        ensures
            r matches Ok(id) ==> ({
                &&& final(self).wf()
                &&& !old(self).contents().contains_key(id)
                &&& forall|rec: R| #[trigger] final(self).unexpired(rec) == old(self).unexpired(rec)
                &&& final(self).contents() =~= old(self).contents().insert(id, *record)
                &&& forall|k: Id| #[trigger]
                    final(self).active(k) == if k == id {
                        old(self).unexpired(*record)
                    } else {
                        old(self).active(k)
                    }
            }),
    ;

    /// Updates an existing active record. Returns `false` and writes nothing
    /// if no active record exists for `id`: a save never resurrects.
    fn save(&mut self, id: &Id, record: &R) -> (r: Result<bool, Self::Error>)
        requires
            old(self).wf(),
        ensures
            r matches Ok(b) ==> ({
                &&& final(self).wf()
                &&& b == old(self).active(*id)
                &&& forall|rec: R| #[trigger] final(self).unexpired(rec) == old(self).unexpired(rec)
                &&& (b ==> final(self).contents() =~= old(self).contents().insert(*id, *record)
                    && forall|k: Id| #[trigger]
                        final(self).active(k) == if k == *id {
                            old(self).unexpired(*record)
                        } else {
                            old(self).active(k)
                        })
                &&& (!b ==> final(self).contents() =~= old(self).contents() && forall|k: Id|
                    #[trigger] final(self).active(k) == old(self).active(k))
            }),
    ;

    /// Unconditionally persists the record under the given identifier,
    /// creating it if absent. Only for layers that mirror an identifier
    /// already minted by an authoritative store: minting identifiers here
    /// risks reviving a lapsed session.
    fn save_or_create(&mut self, id: &Id, record: &R) -> (r: Result<(), Self::Error>)
        requires
            old(self).wf(),
        ensures
            r is Ok ==> ({
                &&& final(self).wf()
                &&& forall|rec: R| #[trigger] final(self).unexpired(rec) == old(self).unexpired(rec)
                &&& final(self).contents() =~= old(self).contents().insert(*id, *record)
                &&& forall|k: Id| #[trigger]
                    final(self).active(k) == if k == *id {
                        old(self).unexpired(*record)
                    } else {
                        old(self).active(k)
                    }
            }),
    ;

    /// Returns the active record named by `id`, or `None` when it is absent
    /// or lapsed.
    fn load(&mut self, id: &Id) -> (r: Result<Option<R>, Self::Error>)
        requires
            old(self).wf(),
        ensures
            r matches Ok(o) ==> ({
                &&& final(self).wf()
                &&& final(self).contents() =~= old(self).contents()
                &&& forall|rec: R| #[trigger] final(self).unexpired(rec) == old(self).unexpired(rec)
                &&& forall|k: Id| #[trigger] final(self).active(k) == old(self).active(k)
                &&& o == if old(self).active(*id) {
                    Some(old(self).contents()[*id])
                } else {
                    None::<R>
                }
            }),
    ;

    /// Removes the record named by `id`; returns whether an active one
    /// existed.
    fn delete(&mut self, id: &Id) -> (r: Result<bool, Self::Error>)
        requires
            old(self).wf(),
        ensures
            r matches Ok(b) ==> ({
                &&& final(self).wf()
                &&& b == old(self).active(*id)
                &&& final(self).contents() =~= old(self).contents().remove(*id)
                &&& forall|rec: R| #[trigger] final(self).unexpired(rec) == old(self).unexpired(rec)
                &&& forall|k: Id| #[trigger]
                    final(self).active(k) == (k != *id && old(self).active(k))
            }),
    ;

    /// Rebinds an active record to a freshly minted identifier, invalidating
    /// the old one; returns `None` when no active record was found.
    ///
    /// The provided algorithm composes one `load`, one `create` and one
    /// `delete`. It is not atomic: a concurrent `cycle_id` or `delete` on the
    /// same identifier can leave two independent live copies under different
    /// identifiers. Backends whose storage offers an atomic rename should
    /// override it.
    fn cycle_id(&mut self, old_id: &Id) -> (r: Result<Option<Id>, Self::Error>)
        requires
            old(self).wf(),
        ensures
            r matches Ok(o) ==> ({
                &&& final(self).wf()
                &&& (o is Some <==> old(self).active(*old_id))
                &&& forall|rec: R| #[trigger] final(self).unexpired(rec) == old(self).unexpired(rec)
                &&& (o matches Some(new_id) ==> {
                    &&& new_id != *old_id
                    &&& !old(self).contents().contains_key(new_id)
                    &&& final(self).contents() =~= old(self).contents().remove(*old_id).insert(
                        new_id,
                        old(self).contents()[*old_id],
                    )
                    &&& !final(self).active(*old_id)
                    &&& final(self).active(new_id) == old(self).unexpired(
                        old(self).contents()[*old_id],
                    )
                    &&& forall|k: Id|
                        k != new_id && k != *old_id ==> #[trigger] final(self).active(k) == old(self).active(k)
                })
                &&& (o is None ==> final(self).contents() =~= old(self).contents() && forall|
                    k: Id,
                |
                    #[trigger] final(self).active(k) == old(self).active(k))
            }),
    {
        let loaded = self.load(old_id)?;
        if let Some(record) = loaded {
            proof {
                self.active_is_stored(*old_id);
            }
            let new_id = self.create(&record)?;
            proof {
                assert(new_id != *old_id);
                assert(self.contents() =~= old(self).contents().insert(new_id, record));
            }
            self.delete(old_id)?;
            proof {
                assert(self.contents() =~= old(self).contents().remove(*old_id).insert(
                    new_id,
                    record,
                ));
            }
            Ok(Some(new_id))
        } else {
            Ok(None)
        }
    }
}

/// Identifiers of distinct `create` calls are distinct: a minted identifier
/// is fresh for everything the store holds, and the store still holds the
/// first identifier when the second is minted.
pub proof fn lemma_created_ids_distinct<R>(c0: Map<Id, R>, id1: Id, r1: R, id2: Id)
    requires
        !c0.contains_key(id1),
        !c0.insert(id1, r1).contains_key(id2),
    ensures
        id2 != id1,
{
}

/// A load that follows a delete of the same identifier finds no active
/// record: deleting makes the identifier inactive, and a load answers `None`
/// for an inactive identifier.
pub proof fn lemma_load_after_delete<R, S: SessionStore<R>>(pre: S, post: S, id: Id)
    requires
        forall|k: Id| #[trigger] post.active(k) == (k != id && pre.active(k)),
    ensures
        !post.active(id),
{
}

} // verus!
