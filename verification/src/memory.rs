use vstd::prelude::*;
use vstd::pervasive::VecAdditionalExecFns;

use crate::expiry::{compute_deadline, deadline_active, deadline_of, sat_add, still_active, Expires, Expiry};
use crate::id::Id;
use crate::store::SessionStore;

verus! {

/// The error an in-memory store can report: it could not mint a fresh
/// identifier because its identifier space ran out.
#[derive(Clone, Copy, Debug, PartialEq, Eq, Structural)]
pub enum MemoryStoreError {
    IdSpaceExhausted,
}

struct Entry<R> {
    id: Id,
    record: R,
    deadline: Option<u64>,
}

/// An in-memory session backend with an explicit clock.
///
/// Records live in a vector of entries, each stamped with the absolute
/// deadline its expiry policy dictated at write time; an entry whose deadline
/// has passed counts as absent on every read. The clock is a plain instant
/// advanced by [`MemoryStore::set_now`], so expiry is deterministic and fully
/// specified. Identifiers are minted from a counter and never reused, which
/// makes them fresh for everything the store ever held. The store also counts
/// its `load` calls, so a composition layered on top of it can be observed
/// not to consult it.
pub struct MemoryStore<R> {
    entries: Vec<Entry<R>>,
    next: u128,
    now: u64,
    loads: u64,
}

spec fn table_of<R>(s: Seq<Entry<R>>) -> Map<Id, (R, Option<u64>)>
    decreases s.len(),
{
    if s.len() == 0 {
        Map::empty()
    } else {
        table_of(s.drop_last()).insert(
            s.last().id,
            (s.last().record, s.last().deadline),
        )
    }
}

spec fn ids_unique<R>(s: Seq<Entry<R>>) -> bool {
    forall|i: int, j: int| 0 <= i < j < s.len() ==> s[i].id != s[j].id
}

spec fn ids_below<R>(s: Seq<Entry<R>>, next: u128) -> bool {
    forall|i: int| 0 <= i < s.len() ==> (#[trigger] s[i].id).0 < next
}

spec fn fixed_deadline_matches<R: Expires>(e: Entry<R>) -> bool {
    match e.record.expires_spec() {
        Expiry::AtDateTime(t) => e.deadline == Some(t),
        _ => true,
    }
}

spec fn deadlines_fixed<R: Expires>(s: Seq<Entry<R>>) -> bool {
    forall|i: int| 0 <= i < s.len() ==> fixed_deadline_matches(#[trigger] s[i])
}

proof fn lemma_table_contains<R>(s: Seq<Entry<R>>, k: Id)
    ensures
        table_of(s).contains_key(k) <==> exists|i: int| 0 <= i < s.len() && s[i].id == k,
    decreases s.len(),
{
    if s.len() > 0 {
        lemma_table_contains(s.drop_last(), k);
        if s.last().id == k {
            assert(s[s.len() - 1].id == k);
        } else if table_of(s).contains_key(k) {
            let i = choose|i: int| 0 <= i < s.drop_last().len() && s.drop_last()[i].id == k;
            assert(s[i].id == k);
        } else if exists|i: int| 0 <= i < s.len() && s[i].id == k {
            let i = choose|i: int| 0 <= i < s.len() && s[i].id == k;
            assert(i < s.len() - 1);
            assert(s.drop_last()[i].id == k);
        }
    }
}

proof fn lemma_table_index<R>(s: Seq<Entry<R>>, i: int)
    requires
        ids_unique(s),
        0 <= i < s.len(),
    ensures
        table_of(s).contains_key(s[i].id),
        table_of(s)[s[i].id] == (s[i].record, s[i].deadline),
    decreases s.len(),
{
    if i < s.len() - 1 {
        assert(ids_unique(s.drop_last()));
        assert(s.drop_last()[i] == s[i]);
        lemma_table_index(s.drop_last(), i);
        assert(s.last().id != s[i].id);
    }
}

proof fn lemma_table_update<R>(s: Seq<Entry<R>>, i: int, e: Entry<R>)
    requires
        ids_unique(s),
        0 <= i < s.len(),
        s[i].id == e.id,
    ensures
        table_of(s.update(i, e)) =~= table_of(s).insert(e.id, (e.record, e.deadline)),
    decreases s.len(),
{
    let t = s.update(i, e);
    if i == s.len() - 1 {
        assert(t.drop_last() =~= s.drop_last());
        assert(t.last() == e);
    } else {
        assert(t.drop_last() =~= s.drop_last().update(i, e));
        assert(ids_unique(s.drop_last()));
        assert(s.drop_last()[i] == s[i]);
        lemma_table_update(s.drop_last(), i, e);
        assert(s.last().id != e.id);
        assert(t.last() == s.last());
    }
}

proof fn lemma_table_remove<R>(s: Seq<Entry<R>>, i: int)
    requires
        ids_unique(s),
        0 <= i < s.len(),
    ensures
        table_of(s.remove(i)) =~= table_of(s).remove(s[i].id),
    decreases s.len(),
{
    if i == s.len() - 1 {
        assert(s.remove(i) =~= s.drop_last());
        lemma_table_contains(s.drop_last(), s[i].id);
        assert(forall|j: int|
            0 <= j < s.drop_last().len() ==> s.drop_last()[j] == s[j] && s[j].id != s[i].id);
    } else {
        assert(s.remove(i).drop_last() =~= s.drop_last().remove(i));
        assert(s.remove(i).last() == s.last());
        assert(ids_unique(s.drop_last()));
        assert(s.drop_last()[i] == s[i]);
        lemma_table_remove(s.drop_last(), i);
        assert(s.last().id != s[i].id);
    }
}

impl<R: Copy + Expires> MemoryStore<R> {
    /// Every entry the store holds, keyed by identifier: the payload together
    /// with the absolute deadline stamped when it was last written.
    pub closed spec fn table(&self) -> Map<Id, (R, Option<u64>)> {
        table_of(self.entries@)
    }

    /// The store's current instant.
    pub closed spec fn now_spec(&self) -> u64 {
        self.now
    }

    /// How many identifiers the store has minted.
    pub closed spec fn minted(&self) -> u128 {
        self.next
    }

    /// How many `load` calls the store has answered.
    pub closed spec fn load_calls(&self) -> u64 {
        self.loads
    }

    /// Creates an empty store with its clock at instant zero.
    pub fn new() -> (s: MemoryStore<R>)
        ensures
            s.wf(),
            s.table() =~= Map::<Id, (R, Option<u64>)>::empty(),
            s.now_spec() == 0,
            s.minted() == 0,
            s.load_calls() == 0,
    {
        MemoryStore { entries: Vec::new(), next: 0, now: 0, loads: 0 }
    }

    /// Moves the store's clock to the given instant. Records whose deadline
    /// the clock passes become absent on every subsequent read, without ever
    /// being explicitly deleted.
    pub fn set_now(&mut self, now: u64)
        ensures
            final(self).table() == old(self).table(),
            final(self).now_spec() == now,
            final(self).minted() == old(self).minted(),
            final(self).load_calls() == old(self).load_calls(),
            final(self).wf() == old(self).wf(),
    {
        self.now = now;
    }

    /// The store's current instant.
    pub fn now(&self) -> (r: u64)
        ensures
            r == self.now_spec(),
    {
        self.now
    }

    /// How many `load` calls the store has answered, saturating at the top of
    /// the counter's range.
    pub fn loads(&self) -> (r: u64)
        ensures
            r == self.load_calls(),
    {
        self.loads
    }

    fn find_index(&self, id: &Id) -> (r: Option<usize>)
        ensures
            match r {
                Some(i) => i < self.entries@.len() && self.entries@[i as int].id == *id,
                None => forall|j: int| 0 <= j < self.entries@.len() ==> self.entries@[j].id != *id,
            },
    {
        let mut i: usize = 0;
        while i < self.entries.len()
            invariant
                i <= self.entries@.len(),
                forall|j: int| 0 <= j < i ==> self.entries@[j].id != *id,
            decreases self.entries@.len() - i,
        {
            if self.entries[i].id == *id {
                return Some(i);
            }
            i = i + 1;
        }
        None
    }
}


impl<R: Copy + Expires> SessionStore<R> for MemoryStore<R> {
    type Error = MemoryStoreError;

    open spec fn contents(&self) -> Map<Id, R> {
        Map::new(|k: Id| self.table().contains_key(k), |k: Id| self.table()[k].0)
    }

    open spec fn active(&self, id: Id) -> bool {
        self.table().contains_key(id) && still_active(self.table()[id].1, self.now_spec())
    }

    open spec fn unexpired(&self, record: R) -> bool {
        still_active(deadline_of(record.expires_spec(), self.now_spec()), self.now_spec())
    }

    closed spec fn wf(&self) -> bool {
        &&& ids_unique(self.entries@)
        &&& self.next == u128::MAX || ids_below(self.entries@, self.next)
        &&& deadlines_fixed(self.entries@)
    }

    open spec fn now_of(&self) -> u64 {
        self.now_spec()
    }

    proof fn active_is_stored(&self, id: Id) {
    }

    proof fn fixed_expiry_passed_not_active(&self, id: Id, t: u64) where R: Expires {
        lemma_table_contains(self.entries@, id);
        let i = choose|i: int| 0 <= i < self.entries@.len() && self.entries@[i].id == id;
        lemma_table_index(self.entries@, i);
        assert(fixed_deadline_matches(self.entries@[i]));
    }

    fn create(&mut self, record: &R) -> (r: Result<Id, MemoryStoreError>)
        ensures
            r is Ok <==> old(self).minted() < u128::MAX,
            r matches Ok(id) ==> ({
                &&& id == Id(old(self).minted())
                &&& final(self).table() =~= old(self).table().insert(
                    id,
                    (*record, deadline_of(record.expires_spec(), old(self).now_spec())),
                )
                &&& final(self).now_spec() == old(self).now_spec()
                &&& final(self).minted() == old(self).minted() + 1
                &&& final(self).load_calls() == old(self).load_calls()
            }),
            r is Err ==> *final(self) == *old(self),
    {
        if self.next == u128::MAX {
            return Err(MemoryStoreError::IdSpaceExhausted);
        }
        let id = Id(self.next);
        self.next = self.next + 1;
        let deadline = compute_deadline(record.expires(), self.now);
        self.entries.push(Entry { id, record: *record, deadline });
        proof {
            let pre = old(self).entries@;
            assert(self.entries@.drop_last() =~= pre);
            assert(self.entries@.last().id == id);
            assert(forall|j: int| 0 <= j < pre.len() ==> (#[trigger] pre[j].id).0 < id.0);
            lemma_table_contains(pre, id);
            assert(ids_unique(self.entries@)) by {
                assert(forall|j: int| 0 <= j < pre.len() ==> self.entries@[j] == pre[j]);
            }
            assert(self.next == u128::MAX || ids_below(self.entries@, self.next)) by {
                if self.next != u128::MAX {
                    assert(forall|j: int|
                        0 <= j < self.entries@.len() ==> (#[trigger] self.entries@[j].id).0
                            < self.next);
                }
            }
            assert(self.contents() =~= old(self).contents().insert(id, *record));
            assert forall|k: Id| #[trigger]
                self.active(k) == if k == id {
                    old(self).unexpired(*record)
                } else {
                    old(self).active(k)
                } by {
                if k == id {
                    assert(self.table()[id].1 == deadline_of(
                        record.expires_spec(),
                        old(self).now_spec(),
                    ));
                }
            }
        }
        Ok(id)
    }

    fn save(&mut self, id: &Id, record: &R) -> (r: Result<bool, MemoryStoreError>)
        ensures
            r is Ok,
            r matches Ok(b) ==> ({
                &&& (b ==> final(self).table() =~= old(self).table().insert(
                    *id,
                    (*record, deadline_of(record.expires_spec(), old(self).now_spec())),
                ))
                &&& (!b ==> *final(self) == *old(self))
                &&& final(self).now_spec() == old(self).now_spec()
                &&& final(self).minted() == old(self).minted()
                &&& final(self).load_calls() == old(self).load_calls()
            }),
    {
        match self.find_index(id) {
            Some(i) => {
                proof {
                    lemma_table_index(self.entries@, i as int);
                }
                let was_active = deadline_active(self.entries[i].deadline, self.now);
                if was_active {
                    let deadline = compute_deadline(record.expires(), self.now);
                    self.entries.set(i, Entry { id: *id, record: *record, deadline });
                    proof {
                        let pre = old(self).entries@;
                        lemma_table_update(pre, i as int, self.entries@[i as int]);
                        assert(ids_unique(self.entries@)) by {
                            assert(forall|j: int|
                                0 <= j < pre.len() && j != i ==> self.entries@[j] == pre[j]);
                        }
                        assert(self.next == u128::MAX || ids_below(self.entries@, self.next)) by {
                            if self.next != u128::MAX {
                                assert(forall|j: int|
                                    0 <= j < self.entries@.len() ==> (
                                    #[trigger] self.entries@[j].id).0 < self.next);
                            }
                        }
                        assert(self.contents() =~= old(self).contents().insert(*id, *record));
                        assert forall|k: Id| #[trigger]
                            self.active(k) == if k == *id {
                                old(self).unexpired(*record)
                            } else {
                                old(self).active(k)
                            } by {}
                    }
                    Ok(true)
                } else {
                    Ok(false)
                }
            },
            None => {
                proof {
                    lemma_table_contains(self.entries@, *id);
                }
                Ok(false)
            },
        }
    }

    fn save_or_create(&mut self, id: &Id, record: &R) -> (r: Result<(), MemoryStoreError>)
        ensures
            r is Ok,
            final(self).table() =~= old(self).table().insert(
                *id,
                (*record, deadline_of(record.expires_spec(), old(self).now_spec())),
            ),
            final(self).now_spec() == old(self).now_spec(),
            final(self).load_calls() == old(self).load_calls(),
    {
        let deadline = compute_deadline(record.expires(), self.now);
        match self.find_index(id) {
            Some(i) => {
                proof {
                    lemma_table_index(self.entries@, i as int);
                }
                self.entries.set(i, Entry { id: *id, record: *record, deadline });
                proof {
                    let pre = old(self).entries@;
                    lemma_table_update(pre, i as int, self.entries@[i as int]);
                    assert(ids_unique(self.entries@)) by {
                        assert(forall|j: int|
                            0 <= j < pre.len() && j != i ==> self.entries@[j] == pre[j]);
                    }
                    assert(self.next == u128::MAX || ids_below(self.entries@, self.next)) by {
                        if self.next != u128::MAX {
                            assert(forall|j: int|
                                0 <= j < self.entries@.len() ==> (#[trigger] self.entries@[j].id).0
                                    < self.next);
                        }
                    }
                    assert(self.contents() =~= old(self).contents().insert(*id, *record));
                    assert forall|k: Id| #[trigger]
                        self.active(k) == if k == *id {
                            old(self).unexpired(*record)
                        } else {
                            old(self).active(k)
                        } by {}
                }
                Ok(())
            },
            None => {
                proof {
                    lemma_table_contains(self.entries@, *id);
                }
                if id.0 >= self.next {
                    self.next = if id.0 == u128::MAX {
                        u128::MAX
                    } else {
                        id.0 + 1
                    };
                }
                self.entries.push(Entry { id: *id, record: *record, deadline });
                proof {
                    let pre = old(self).entries@;
                    assert(self.entries@.drop_last() =~= pre);
                    assert(self.entries@.last().id == *id);
                    assert(ids_unique(self.entries@)) by {
                        assert(forall|j: int| 0 <= j < pre.len() ==> self.entries@[j] == pre[j]);
                    }
                    assert(self.next == u128::MAX || ids_below(self.entries@, self.next)) by {
                        if self.next != u128::MAX {
                            assert(forall|j: int|
                                0 <= j < self.entries@.len() ==> (#[trigger] self.entries@[j].id).0
                                    < self.next);
                        }
                    }
                    assert(self.contents() =~= old(self).contents().insert(*id, *record));
                    assert forall|k: Id| #[trigger]
                        self.active(k) == if k == *id {
                            old(self).unexpired(*record)
                        } else {
                            old(self).active(k)
                        } by {}
                }
                Ok(())
            },
        }
    }

    fn load(&mut self, id: &Id) -> (r: Result<Option<R>, MemoryStoreError>)
        ensures
            r is Ok,
            final(self).table() == old(self).table(),
            final(self).now_spec() == old(self).now_spec(),
            final(self).minted() == old(self).minted(),
            final(self).load_calls() == sat_add(old(self).load_calls(), 1),
    {
        if self.loads < u64::MAX {
            self.loads = self.loads + 1;
        }
        proof {
            assert(self.contents() =~= old(self).contents());
        }
        match self.find_index(id) {
            Some(i) => {
                proof {
                    lemma_table_index(self.entries@, i as int);
                }
                let live = deadline_active(self.entries[i].deadline, self.now);
                if live {
                    Ok(Some(self.entries[i].record))
                } else {
                    Ok(None)
                }
            },
            None => {
                proof {
                    lemma_table_contains(self.entries@, *id);
                }
                Ok(None)
            },
        }
    }

    fn delete(&mut self, id: &Id) -> (r: Result<bool, MemoryStoreError>)
        ensures
            r is Ok,
            final(self).table() =~= old(self).table().remove(*id),
            final(self).now_spec() == old(self).now_spec(),
            final(self).minted() == old(self).minted(),
            final(self).load_calls() == old(self).load_calls(),
    {
        match self.find_index(id) {
            Some(i) => {
                proof {
                    lemma_table_index(self.entries@, i as int);
                    lemma_table_remove(self.entries@, i as int);
                }
                let was_active = deadline_active(self.entries[i].deadline, self.now);
                self.entries.remove(i);
                proof {
                    let pre = old(self).entries@;
                    assert(ids_unique(self.entries@)) by {
                        assert(forall|j: int|
                            0 <= j < self.entries@.len() ==> #[trigger] self.entries@[j] == if j
                                < i {
                                pre[j]
                            } else {
                                pre[j + 1]
                            });
                    }
                    assert(self.next == u128::MAX || ids_below(self.entries@, self.next)) by {
                        if self.next != u128::MAX {
                            assert(forall|j: int|
                                0 <= j < self.entries@.len() ==> (#[trigger] self.entries@[j].id).0
                                    < self.next);
                        }
                    }
                    assert(self.contents() =~= old(self).contents().remove(*id));
                    assert forall|k: Id| #[trigger]
                        self.active(k) == (k != *id && old(self).active(k)) by {}
                }
                Ok(was_active)
            },
            None => {
                proof {
                    lemma_table_contains(self.entries@, *id);
                    assert(self.table() =~= old(self).table().remove(*id));
                    assert(self.contents() =~= old(self).contents().remove(*id));
                }
                Ok(false)
            },
        }
    }
}


} // verus!
