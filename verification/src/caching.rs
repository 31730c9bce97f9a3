use vstd::prelude::*;

use crate::expiry::Expires;
use crate::id::Id;
use crate::store::SessionStore;

verus! {

/// The error of the two-tier composition, tagged by the tier it came from so
/// callers can tolerate cache-tier failures while treating store-tier
/// failures as fatal.
#[derive(Debug)]
pub enum CachingStoreError<CE, SE> {
    FromCache(CE),
    FromStore(SE),
}

/// What a two-tier read answers, given both tiers' states: the cache's
/// record when the cache holds the identifier active, otherwise the
/// authoritative store's answer.
pub open spec fn load_view<R, C: SessionStore<R>, S: SessionStore<R>>(
    cache: C,
    store: S,
    id: Id,
) -> Option<R> {
    if cache.active(id) {
        Some(cache.contents()[id])
    } else if store.active(id) {
        Some(store.contents()[id])
    } else {
        None
    }
}

/// The cache agrees with the authoritative store: every identifier the cache
/// holds active is active in the store with the same record, and every
/// record the cache would keep, the store would keep too.
pub open spec fn coherent<R, C: SessionStore<R>, S: SessionStore<R>>(cache: C, store: S) -> bool {
    &&& forall|id: Id| #[trigger]
        cache.active(id) ==> store.active(id) && cache.contents().contains_key(id)
            && cache.contents()[id] == store.contents()[id]
    &&& forall|rec: R| #[trigger] cache.unexpired(rec) ==> store.unexpired(rec)
}

/// A storage capability composed of a fast front tier and an authoritative
/// back tier.
///
/// Reads are answered from the cache when possible and hydrate it otherwise;
/// writes go to both tiers, and the store's answer is authoritative. The
/// `*_through` methods state exactly what happens to each tier, with no
/// assumption that the tiers agree; the [`SessionStore`] impl shows that the
/// composition is itself a storage capability whenever the two tiers are
/// [`coherent`].
#[derive(Clone, Debug)]
pub struct CachingSessionStore<C, S> {
    pub cache: C,
    pub store: S,
}

impl<C, S> CachingSessionStore<C, S> {
    /// Create a new `CachingSessionStore` from a front tier and an
    /// authoritative back tier.
    pub fn new(cache: C, store: S) -> (r: CachingSessionStore<C, S>)
        ensures
            r.cache == cache,
            r.store == store,
    {
        CachingSessionStore { cache, store }
    }

    /// Creates in the authoritative store first (it assigns the identifier),
    /// then mirrors the record into the cache under that identifier. If the
    /// authoritative write fails, the cache is never touched.
    pub fn create_through<R>(&mut self, record: &R) -> (r: Result<
        Id,
        CachingStoreError<C::Error, S::Error>,
    >) where C: SessionStore<R>, S: SessionStore<R>
        requires
            old(self).cache.wf(),
            old(self).store.wf(),
        ensures
            r matches Ok(id) ==> ({
                &&& final(self).cache.wf() && final(self).store.wf()
                &&& !old(self).store.contents().contains_key(id)
                &&& final(self).store.contents() =~= old(self).store.contents().insert(id, *record)
                &&& forall|k: Id| #[trigger]
                    final(self).store.active(k) == if k == id {
                        old(self).store.unexpired(*record)
                    } else {
                        old(self).store.active(k)
                    }
                &&& final(self).cache.contents() =~= old(self).cache.contents().insert(id, *record)
                &&& forall|k: Id| #[trigger]
                    final(self).cache.active(k) == if k == id {
                        old(self).cache.unexpired(*record)
                    } else {
                        old(self).cache.active(k)
                    }
                &&& forall|rec: R| #[trigger]
                    final(self).store.unexpired(rec) == old(self).store.unexpired(rec)
                &&& forall|rec: R| #[trigger]
                    final(self).cache.unexpired(rec) == old(self).cache.unexpired(rec)
            }),
            r matches Err(CachingStoreError::FromStore(_)) ==> final(self).cache == old(self).cache,
    {
        let id = match self.store.create(record) {
            Ok(id) => id,
            Err(e) => {
                return Err(CachingStoreError::FromStore(e));
            },
        };
        match self.cache.save_or_create(&id, record) {
            Ok(()) => Ok(id),
            Err(e) => Err(CachingStoreError::FromCache(e)),
        }
    }

    /// Saves to both tiers. The authoritative store's answer is returned;
    /// when the store reports the record absent while the cache held it, the
    /// cache entry is purged, so a cache hit never outlives authoritative
    /// absence.
    pub fn save_through<R>(&mut self, id: &Id, record: &R) -> (r: Result<
        bool,
        CachingStoreError<C::Error, S::Error>,
    >) where C: SessionStore<R>, S: SessionStore<R>
        requires
            old(self).cache.wf(),
            old(self).store.wf(),
        ensures
            r matches Ok(b) ==> ({
                &&& final(self).cache.wf() && final(self).store.wf()
                &&& b == old(self).store.active(*id)
                &&& (b ==> final(self).store.contents() =~= old(self).store.contents().insert(
                    *id,
                    *record,
                ) && forall|k: Id| #[trigger]
                    final(self).store.active(k) == if k == *id {
                        old(self).store.unexpired(*record)
                    } else {
                        old(self).store.active(k)
                    })
                &&& (!b ==> final(self).store.contents() =~= old(self).store.contents() && forall|
                    k: Id,
                |
                    #[trigger] final(self).store.active(k) == old(self).store.active(k))
                &&& (b && old(self).cache.active(*id) ==> final(self).cache.contents() =~= old(self).cache.contents().insert(*id, *record) && forall|k: Id| #[trigger]
                    final(self).cache.active(k) == if k == *id {
                        old(self).cache.unexpired(*record)
                    } else {
                        old(self).cache.active(k)
                    })
                &&& (!b && old(self).cache.active(*id) ==> final(self).cache.contents() =~= old(self).cache.contents().remove(*id) && forall|k: Id| #[trigger]
                    final(self).cache.active(k) == (k != *id && old(self).cache.active(k)))
                &&& (!old(self).cache.active(*id) ==> final(self).cache.contents() =~= old(self).cache.contents() && forall|k: Id| #[trigger]
                    final(self).cache.active(k) == old(self).cache.active(k))
                &&& forall|rec: R| #[trigger]
                    final(self).store.unexpired(rec) == old(self).store.unexpired(rec)
                &&& forall|rec: R| #[trigger]
                    final(self).cache.unexpired(rec) == old(self).cache.unexpired(rec)
            }),
            r matches Err(CachingStoreError::FromCache(_)) ==> ({
                &&& final(self).store.wf()
                &&& final(self).store.contents() =~= old(self).store.contents()
                &&& forall|k: Id| #[trigger]
                    final(self).store.active(k) == old(self).store.active(k)
                &&& forall|rec: R| #[trigger]
                    final(self).store.unexpired(rec) == old(self).store.unexpired(rec)
            }),
            r matches Err(CachingStoreError::FromStore(_)) ==> ({
                &&& final(self).cache.wf()
                &&& (old(self).cache.active(*id) ==> final(self).cache.contents() =~= old(
                    self,
                ).cache.contents().insert(*id, *record) && forall|k: Id| #[trigger]
                    final(self).cache.active(k) == if k == *id {
                        old(self).cache.unexpired(*record)
                    } else {
                        old(self).cache.active(k)
                    })
                &&& (!old(self).cache.active(*id) ==> final(self).cache.contents() =~= old(
                    self,
                ).cache.contents() && forall|k: Id| #[trigger]
                    final(self).cache.active(k) == old(self).cache.active(k))
                &&& forall|rec: R| #[trigger]
                    final(self).cache.unexpired(rec) == old(self).cache.unexpired(rec)
            }),
    {
        let exists_cache = match self.cache.save(id, record) {
            Ok(b) => b,
            Err(e) => {
                return Err(CachingStoreError::FromCache(e));
            },
        };
        let exists_store = match self.store.save(id, record) {
            Ok(b) => b,
            Err(e) => {
                return Err(CachingStoreError::FromStore(e));
            },
        };
        if !exists_store && exists_cache {
            match self.cache.delete(id) {
                Ok(_) => {},
                Err(e) => {
                    return Err(CachingStoreError::FromCache(e));
                },
            }
            proof {
                assert(self.cache.contents() =~= old(self).cache.contents().remove(*id));
            }
        }
        Ok(exists_store)
    }

    /// Unconditionally persists the record in both tiers under the given
    /// identifier. No reconciliation is needed, since neither tier can
    /// report absence here.
    pub fn save_or_create_through<R>(&mut self, id: &Id, record: &R) -> (r: Result<
        (),
        CachingStoreError<C::Error, S::Error>,
    >) where C: SessionStore<R>, S: SessionStore<R>
        requires
            old(self).cache.wf(),
            old(self).store.wf(),
        ensures
            r is Ok ==> ({
                &&& final(self).cache.wf() && final(self).store.wf()
                &&& final(self).store.contents() =~= old(self).store.contents().insert(*id, *record)
                &&& forall|k: Id| #[trigger]
                    final(self).store.active(k) == if k == *id {
                        old(self).store.unexpired(*record)
                    } else {
                        old(self).store.active(k)
                    }
                &&& final(self).cache.contents() =~= old(self).cache.contents().insert(*id, *record)
                &&& forall|k: Id| #[trigger]
                    final(self).cache.active(k) == if k == *id {
                        old(self).cache.unexpired(*record)
                    } else {
                        old(self).cache.active(k)
                    }
                &&& forall|rec: R| #[trigger]
                    final(self).store.unexpired(rec) == old(self).store.unexpired(rec)
                &&& forall|rec: R| #[trigger]
                    final(self).cache.unexpired(rec) == old(self).cache.unexpired(rec)
            }),
            r matches Err(CachingStoreError::FromCache(_)) ==> final(self).store == old(
                self,
            ).store,
            r matches Err(CachingStoreError::FromStore(_)) ==> ({
                &&& final(self).cache.wf()
                &&& final(self).cache.contents() =~= old(self).cache.contents().insert(
                    *id,
                    *record,
                )
                &&& forall|k: Id| #[trigger]
                    final(self).cache.active(k) == if k == *id {
                        old(self).cache.unexpired(*record)
                    } else {
                        old(self).cache.active(k)
                    }
                &&& forall|rec: R| #[trigger]
                    final(self).cache.unexpired(rec) == old(self).cache.unexpired(rec)
            }),
    {
        match self.cache.save_or_create(id, record) {
            Ok(()) => {},
            Err(e) => {
                return Err(CachingStoreError::FromCache(e));
            },
        }
        match self.store.save_or_create(id, record) {
            Ok(()) => Ok(()),
            Err(e) => Err(CachingStoreError::FromStore(e)),
        }
    }

    /// Answers from the cache when it holds the identifier active; on a
    /// cache miss, asks the authoritative store and, on a store hit, mirrors
    /// the record into the cache before returning it (read-through
    /// hydration). A cache error is surfaced without consulting the store.
    pub fn load_through<R>(&mut self, id: &Id) -> (r: Result<
        Option<R>,
        CachingStoreError<C::Error, S::Error>,
    >) where C: SessionStore<R>, S: SessionStore<R>
        requires
            old(self).cache.wf(),
            old(self).store.wf(),
        ensures
            r matches Ok(o) ==> ({
                &&& final(self).cache.wf() && final(self).store.wf()
                &&& o == load_view(old(self).cache, old(self).store, *id)
                &&& final(self).store.contents() =~= old(self).store.contents()
                &&& forall|k: Id| #[trigger]
                    final(self).store.active(k) == old(self).store.active(k)
                &&& (old(self).cache.active(*id) ==> final(self).store == old(self).store
                    && final(self).cache.contents() =~= old(self).cache.contents() && forall|
                    k: Id,
                |
                    #[trigger] final(self).cache.active(k) == old(self).cache.active(k))
                &&& (!old(self).cache.active(*id) && old(self).store.active(*id) ==> final(self).cache.contents() =~= old(self).cache.contents().insert(
                    *id,
                    old(self).store.contents()[*id],
                ) && forall|k: Id| #[trigger]
                    final(self).cache.active(k) == if k == *id {
                        old(self).cache.unexpired(old(self).store.contents()[*id])
                    } else {
                        old(self).cache.active(k)
                    })
                &&& (!old(self).cache.active(*id) && !old(self).store.active(*id) ==> final(self).cache.contents() =~= old(self).cache.contents() && forall|k: Id| #[trigger]
                    final(self).cache.active(k) == old(self).cache.active(k))
                &&& forall|rec: R| #[trigger]
                    final(self).store.unexpired(rec) == old(self).store.unexpired(rec)
                &&& forall|rec: R| #[trigger]
                    final(self).cache.unexpired(rec) == old(self).cache.unexpired(rec)
            }),
            r matches Err(CachingStoreError::FromCache(_)) ==> ({
                &&& final(self).store.wf()
                &&& final(self).store.contents() =~= old(self).store.contents()
                &&& forall|k: Id| #[trigger]
                    final(self).store.active(k) == old(self).store.active(k)
                &&& forall|rec: R| #[trigger]
                    final(self).store.unexpired(rec) == old(self).store.unexpired(rec)
            }),
            r matches Err(CachingStoreError::FromStore(_)) ==> ({
                &&& final(self).cache.wf()
                &&& final(self).cache.contents() =~= old(self).cache.contents()
                &&& forall|k: Id| #[trigger]
                    final(self).cache.active(k) == old(self).cache.active(k)
                &&& forall|rec: R| #[trigger]
                    final(self).cache.unexpired(rec) == old(self).cache.unexpired(rec)
            }),
    {
        match self.cache.load(id) {
            Ok(Some(record)) => Ok(Some(record)),
            Ok(None) => {
                let record = match self.store.load(id) {
                    Ok(o) => o,
                    Err(e) => {
                        return Err(CachingStoreError::FromStore(e));
                    },
                };
                if let Some(ref rec) = record {
                    match self.cache.save_or_create(id, rec) {
                        Ok(()) => {},
                        Err(e) => {
                            return Err(CachingStoreError::FromCache(e));
                        },
                    }
                }
                Ok(record)
            },
            Err(e) => Err(CachingStoreError::FromCache(e)),
        }
    }

    /// Deletes from both tiers; the authoritative store's answer is
    /// returned, whatever the cache held.
    pub fn delete_through<R>(&mut self, id: &Id) -> (r: Result<
        bool,
        CachingStoreError<C::Error, S::Error>,
    >) where C: SessionStore<R>, S: SessionStore<R>
        requires
            old(self).cache.wf(),
            old(self).store.wf(),
        ensures
            r matches Ok(b) ==> ({
                &&& final(self).cache.wf() && final(self).store.wf()
                &&& b == old(self).store.active(*id)
                &&& final(self).store.contents() =~= old(self).store.contents().remove(*id)
                &&& forall|k: Id| #[trigger]
                    final(self).store.active(k) == (k != *id && old(self).store.active(k))
                &&& final(self).cache.contents() =~= old(self).cache.contents().remove(*id)
                &&& forall|k: Id| #[trigger]
                    final(self).cache.active(k) == (k != *id && old(self).cache.active(k))
                &&& forall|rec: R| #[trigger]
                    final(self).store.unexpired(rec) == old(self).store.unexpired(rec)
                &&& forall|rec: R| #[trigger]
                    final(self).cache.unexpired(rec) == old(self).cache.unexpired(rec)
            }),
            r matches Err(CachingStoreError::FromCache(_)) ==> final(self).store == old(
                self,
            ).store,
            r matches Err(CachingStoreError::FromStore(_)) ==> ({
                &&& final(self).cache.wf()
                &&& final(self).cache.contents() =~= old(self).cache.contents().remove(*id)
                &&& forall|k: Id| #[trigger]
                    final(self).cache.active(k) == (k != *id && old(self).cache.active(k))
                &&& forall|rec: R| #[trigger]
                    final(self).cache.unexpired(rec) == old(self).cache.unexpired(rec)
            }),
    {
        match self.cache.delete(id) {
            Ok(_) => {},
            Err(e) => {
                return Err(CachingStoreError::FromCache(e));
            },
        }
        match self.store.delete(id) {
            Ok(b) => Ok(b),
            Err(e) => Err(CachingStoreError::FromStore(e)),
        }
    }

    /// Purges the old identifier from the cache while the authoritative
    /// store rebinds the record; returns the store's new identifier.
    pub fn cycle_id_through<R>(&mut self, old_id: &Id) -> (r: Result<
        Option<Id>,
        CachingStoreError<C::Error, S::Error>,
    >) where C: SessionStore<R>, S: SessionStore<R>
        requires
            old(self).cache.wf(),
            old(self).store.wf(),
        ensures
            r matches Ok(o) ==> ({
                &&& final(self).cache.wf() && final(self).store.wf()
                &&& (o is Some <==> old(self).store.active(*old_id))
                &&& (o matches Some(new_id) ==> {
                    &&& new_id != *old_id
                    &&& !old(self).store.contents().contains_key(new_id)
                    &&& final(self).store.contents() =~= old(self).store.contents().remove(
                        *old_id,
                    ).insert(new_id, old(self).store.contents()[*old_id])
                    &&& !final(self).store.active(*old_id)
                    &&& final(self).store.active(new_id) == old(self).store.unexpired(
                        old(self).store.contents()[*old_id],
                    )
                    &&& forall|k: Id|
                        k != new_id && k != *old_id ==> #[trigger] final(self).store.active(k)
                            == old(self).store.active(k)
                })
                &&& (o is None ==> final(self).store.contents() =~= old(self).store.contents()
                    && forall|k: Id| #[trigger]
                    final(self).store.active(k) == old(self).store.active(k))
                &&& final(self).cache.contents() =~= old(self).cache.contents().remove(*old_id)
                &&& forall|k: Id| #[trigger]
                    final(self).cache.active(k) == (k != *old_id && old(self).cache.active(k))
                &&& forall|rec: R| #[trigger]
                    final(self).store.unexpired(rec) == old(self).store.unexpired(rec)
                &&& forall|rec: R| #[trigger]
                    final(self).cache.unexpired(rec) == old(self).cache.unexpired(rec)
            }),
            r matches Err(CachingStoreError::FromCache(_)) ==> final(self).store == old(
                self,
            ).store,
            r matches Err(CachingStoreError::FromStore(_)) ==> ({
                &&& final(self).cache.wf()
                &&& final(self).cache.contents() =~= old(self).cache.contents().remove(*old_id)
                &&& forall|k: Id| #[trigger]
                    final(self).cache.active(k) == (k != *old_id && old(self).cache.active(k))
                &&& forall|rec: R| #[trigger]
                    final(self).cache.unexpired(rec) == old(self).cache.unexpired(rec)
            }),
    {
        match self.cache.delete(old_id) {
            Ok(_) => {},
            Err(e) => {
                return Err(CachingStoreError::FromCache(e));
            },
        }
        match self.store.cycle_id(old_id) {
            Ok(o) => Ok(o),
            Err(e) => Err(CachingStoreError::FromStore(e)),
        }
    }
}

/// When the authoritative store answered a save with "no active record", the
/// purge rule leaves no tier holding the identifier active, so a subsequent
/// two-tier read answers `None`: a cache hit never outlives authoritative
/// absence. The hypotheses are exactly what [`CachingSessionStore::save_through`]
/// ensures when it returns `Ok(false)`.
pub proof fn lemma_no_stale_read_after_failed_save<R, C: SessionStore<R>, S: SessionStore<R>>(
    pre_cache: C,
    pre_store: S,
    post_cache: C,
    post_store: S,
    id: Id,
)
    requires
        !pre_store.active(id),
        forall|k: Id| #[trigger] post_store.active(k) == pre_store.active(k),
        pre_cache.active(id) ==> forall|k: Id| #[trigger]
            post_cache.active(k) == (k != id && pre_cache.active(k)),
        !pre_cache.active(id) ==> forall|k: Id| #[trigger]
            post_cache.active(k) == pre_cache.active(k),
    ensures
        load_view::<R, C, S>(post_cache, post_store, id) is None,
{
}

/// Read-through hydration is idempotent: after a load that missed the cache
/// but hit the store and mirrored record `v` into the cache -- the state
/// [`CachingSessionStore::load_through`] ensures -- the cache holds the
/// identifier active, provided the cache tier itself would keep the record
/// (tier clocks are independent, so that is the cache's own affair). A
/// second two-tier read for the identifier is then answered by the cache
/// alone, with the same record.
pub proof fn lemma_second_load_answered_by_cache<R, C: SessionStore<R>, S: SessionStore<R>>(
    pre_cache: C,
    post_cache: C,
    store: S,
    id: Id,
    v: R,
)
    requires
        post_cache.contents() == pre_cache.contents().insert(id, v),
        forall|k: Id| #[trigger]
            post_cache.active(k) == if k == id {
                pre_cache.unexpired(v)
            } else {
                pre_cache.active(k)
            },
        pre_cache.unexpired(v),
    ensures
        post_cache.active(id),
        load_view::<R, C, S>(post_cache, store, id) == Some(v),
{
}

/// An identifier the cache holds active is answered by the cache alone, with
/// the record the cache holds: once a miss has hydrated the cache, a second
/// read for the same identifier never reaches the authoritative store.
pub proof fn lemma_hydration_idempotent<R, C: SessionStore<R>, S: SessionStore<R>>(
    cache: C,
    store: S,
    id: Id,
    v: R,
)
    requires
        cache.active(id),
        cache.contents()[id] == v,
    ensures
        load_view::<R, C, S>(cache, store, id) == Some(v),
{
}


impl<R, C: SessionStore<R>, S: SessionStore<R>> SessionStore<R> for CachingSessionStore<C, S> {
    type Error = CachingStoreError<C::Error, S::Error>;

    open spec fn contents(&self) -> Map<Id, R> {
        self.store.contents()
    }

    open spec fn active(&self, id: Id) -> bool {
        self.store.active(id)
    }

    open spec fn unexpired(&self, record: R) -> bool {
        self.store.unexpired(record)
    }

    open spec fn wf(&self) -> bool {
        self.cache.wf() && self.store.wf() && coherent::<R, C, S>(self.cache, self.store)
    }

    open spec fn now_of(&self) -> u64 {
        self.store.now_of()
    }

    proof fn active_is_stored(&self, id: Id) {
        self.store.active_is_stored(id);
    }

    proof fn fixed_expiry_passed_not_active(&self, id: Id, t: u64) where R: Expires {
        self.store.fixed_expiry_passed_not_active(id, t);
    }

    fn create(&mut self, record: &R) -> (r: Result<Id, Self::Error>) {
        match self.create_through(record) {
            Ok(id) => {
                proof {
                    assert forall|k: Id| #[trigger] self.cache.active(k) implies self.store.active(
                        k,
                    ) && self.cache.contents().contains_key(k) && self.cache.contents()[k]
                        == self.store.contents()[k] by {
                        if k != id {
                            assert(old(self).cache.active(k));
                        }
                    }
                    assert(coherent::<R, C, S>(self.cache, self.store));
                }
                Ok(id)
            },
            Err(e) => Err(e),
        }
    }

    fn save(&mut self, id: &Id, record: &R) -> (r: Result<bool, Self::Error>)
        ensures
            r matches Err(CachingStoreError::FromCache(_)) ==> ({
                &&& final(self).contents() =~= old(self).contents()
                &&& forall|k: Id| #[trigger] final(self).active(k) == old(self).active(k)
            }),
    {
        match self.save_through(id, record) {
            Ok(b) => {
                proof {
                    if !b {
                        assert(!old(self).cache.active(*id));
                    }
                    assert forall|k: Id| #[trigger] self.cache.active(k) implies self.store.active(
                        k,
                    ) && self.cache.contents().contains_key(k) && self.cache.contents()[k]
                        == self.store.contents()[k] by {
                        if k != *id {
                            assert(old(self).cache.active(k));
                        }
                    }
                    assert(coherent::<R, C, S>(self.cache, self.store));
                }
                Ok(b)
            },
            Err(e) => Err(e),
        }
    }

    fn save_or_create(&mut self, id: &Id, record: &R) -> (r: Result<(), Self::Error>)
        ensures
            r matches Err(CachingStoreError::FromCache(_)) ==> ({
                &&& final(self).contents() =~= old(self).contents()
                &&& forall|k: Id| #[trigger] final(self).active(k) == old(self).active(k)
            }),
    {
        match self.save_or_create_through(id, record) {
            Ok(()) => {
                proof {
                    assert forall|k: Id| #[trigger] self.cache.active(k) implies self.store.active(
                        k,
                    ) && self.cache.contents().contains_key(k) && self.cache.contents()[k]
                        == self.store.contents()[k] by {
                        if k != *id {
                            assert(old(self).cache.active(k));
                        }
                    }
                    assert(coherent::<R, C, S>(self.cache, self.store));
                }
                Ok(())
            },
            Err(e) => Err(e),
        }
    }

    fn load(&mut self, id: &Id) -> (r: Result<Option<R>, Self::Error>)
        ensures
            r matches Err(CachingStoreError::FromCache(_)) ==> ({
                &&& final(self).contents() =~= old(self).contents()
                &&& forall|k: Id| #[trigger] final(self).active(k) == old(self).active(k)
            }),
    {
        match self.load_through(id) {
            Ok(o) => {
                proof {
                    if old(self).cache.active(*id) {
                        assert(old(self).store.active(*id));
                        assert(o == Some(old(self).store.contents()[*id]));
                    }
                    assert forall|k: Id| #[trigger] self.cache.active(k) implies self.store.active(
                        k,
                    ) && self.cache.contents().contains_key(k) && self.cache.contents()[k]
                        == self.store.contents()[k] by {
                        if k != *id {
                            assert(old(self).cache.active(k));
                        }
                    }
                    assert(coherent::<R, C, S>(self.cache, self.store));
                }
                Ok(o)
            },
            Err(e) => Err(e),
        }
    }

    fn delete(&mut self, id: &Id) -> (r: Result<bool, Self::Error>)
        ensures
            r matches Err(CachingStoreError::FromCache(_)) ==> ({
                &&& final(self).contents() =~= old(self).contents()
                &&& forall|k: Id| #[trigger] final(self).active(k) == old(self).active(k)
            }),
    {
        match self.delete_through(id) {
            Ok(b) => {
                proof {
                    assert forall|k: Id| #[trigger] self.cache.active(k) implies self.store.active(
                        k,
                    ) && self.cache.contents().contains_key(k) && self.cache.contents()[k]
                        == self.store.contents()[k] by {
                        assert(old(self).cache.active(k));
                    }
                    assert(coherent::<R, C, S>(self.cache, self.store));
                }
                Ok(b)
            },
            Err(e) => Err(e),
        }
    }

    fn cycle_id(&mut self, old_id: &Id) -> (r: Result<Option<Id>, Self::Error>)
        ensures
            r matches Err(CachingStoreError::FromCache(_)) ==> ({
                &&& final(self).contents() =~= old(self).contents()
                &&& forall|k: Id| #[trigger] final(self).active(k) == old(self).active(k)
            }),
    {
        match self.cycle_id_through(old_id) {
            Ok(o) => {
                proof {
                    if let Some(new_id) = o {
                        if old(self).cache.active(new_id) {
                            old(self).store.active_is_stored(new_id);
                        }
                    }
                    assert forall|k: Id| #[trigger] self.cache.active(k) implies self.store.active(
                        k,
                    ) && self.cache.contents().contains_key(k) && self.cache.contents()[k]
                        == self.store.contents()[k] by {
                        assert(old(self).cache.active(k));
                        if let Some(new_id) = o {
                            if k == new_id {
                                old(self).store.active_is_stored(new_id);
                            }
                        }
                    }
                    assert(coherent::<R, C, S>(self.cache, self.store));
                }
                Ok(o)
            },
            Err(e) => Err(e),
        }
    }
}

} // verus!
