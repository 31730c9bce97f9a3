use vstd::prelude::*;

use crate::expiry::{Expires, Expiry};
use crate::id::Id;
use crate::store::SessionStore;

verus! {

/// The disposition a finished request reports to the cookie-emitting layer.
#[derive(Clone, Copy, Debug, PartialEq, Eq, Structural)]
pub enum SessionUpdate {
    /// Clear any identifier bound at the client.
    Delete,
    /// Bind this identifier at the client, with this expiry.
    Bind(Id, Expiry),
}

/// The out-of-band slot through which the session lifecycle reports its
/// disposition to the external cookie-emitting layer.
///
/// The response layer creates one per request, hands it to every lifecycle
/// call of that request, and reads it once after all handler work completes:
/// `Bind` binds an identifier with an expiry, `Delete` clears any bound
/// identifier, and an untouched slot means no change. It carries no record
/// data.
pub struct Updater {
    slot: Option<SessionUpdate>,
}

impl View for Updater {
    type V = Option<SessionUpdate>;

    closed spec fn view(&self) -> Option<SessionUpdate> {
        self.slot
    }
}

impl Updater {
    /// An empty slot: no disposition reported yet.
    pub fn new() -> (u: Updater)
        ensures
            u@ is None,
    {
        Updater { slot: None }
    }

    /// The disposition recorded so far.
    pub fn get(&self) -> (r: Option<SessionUpdate>)
        ensures
            r == self@,
    {
        self.slot
    }

    fn put(&mut self, update: SessionUpdate)
        ensures
            final(self)@ == Some(update),
    {
        self.slot = Some(update);
    }
}

/// The rejection reported when a session is requested from a request whose
/// middleware never attached one.
#[derive(Clone, Copy, Debug, PartialEq, Eq, Structural)]
pub struct NoMiddleware;

impl NoMiddleware {
    /// A human-readable description of the failure.
    pub fn message(&self) -> (r: &'static str)
        ensures
            r@ == "Missing session middleware. Is it added to the app?"@,
    {
        "Missing session middleware. Is it added to the app?"
    }
}

/// A session that is lazily loaded: the identifier the request presented, if
/// a valid one was presented at all.
///
/// The ingress layer seeds one per request; the handler resolves it through
/// a store with [`Session::load`] or [`Session::create`]. A presented
/// identifier is only ever used to look a record up, never to assert that
/// one exists.
#[derive(Clone, Debug)]
pub struct Session {
    id: Option<Id>,
}

impl Session {
    /// The identifier this session was seeded with.
    pub closed spec fn id_spec(&self) -> Option<Id> {
        self.id
    }

    /// Seeds a session from the identifier the request presented, or `None`
    /// when none (or none that parsed) was presented.
    pub fn new(id: Option<Id>) -> (s: Session)
        ensures
            s.id_spec() == id,
    {
        Session { id }
    }

    /// Tries to load the session's record from the store: `Err` when the
    /// store fails hard, `Ok(None)` when no identifier was presented (the
    /// store is not consulted) or the record is absent or lapsed, and
    /// `Ok(Some(state))` with the loaded record otherwise.
    pub fn load<R, S: SessionStore<R>>(self, store: &mut S) -> (r: Result<
        Option<SessionState<R>>,
        S::Error,
    >)
        requires
            old(store).wf(),
        ensures
            r matches Ok(o) ==> ({
                &&& final(store).wf()
                &&& final(store).contents() =~= old(store).contents()
                &&& forall|k: Id| #[trigger] final(store).active(k) == old(store).active(k)
                &&& forall|rec: R| #[trigger]
                    final(store).unexpired(rec) == old(store).unexpired(rec)
                &&& (self.id_spec() is None ==> o is None && *final(store) == *old(store))
                &&& (self.id_spec() matches Some(id) ==> {
                    &&& (o is Some <==> old(store).active(id))
                    &&& (o matches Some(st) ==> st.id_spec() == id && st.data_spec() == old(store).contents()[id])
                })
            }),
            self.id_spec() is None ==> r is Ok,
    {
        if let Some(id) = self.id {
            match store.load(&id) {
                Ok(Some(data)) => Ok(Some(SessionState { id, data })),
                Ok(None) => Ok(None),
                Err(e) => Err(e),
            }
        } else {
            Ok(None)
        }
    }

    /// Creates a new record with the given data: the store mints a fresh
    /// identifier, and the updater receives `Set` with that identifier and
    /// the data's expiry. Callable whether or not an identifier was
    /// presented; a previously recorded disposition is overwritten.
    pub fn create<R: Expires, S: SessionStore<R>>(
        self,
        store: &mut S,
        data: R,
        updater: &mut Updater,
    ) -> (r: Result<SessionState<R>, S::Error>)
        requires
            old(store).wf(),
        ensures
            r matches Ok(st) ==> ({
                &&& final(store).wf()
                &&& st.data_spec() == data
                &&& !old(store).contents().contains_key(st.id_spec())
                &&& final(store).contents() =~= old(store).contents().insert(st.id_spec(), data)
                &&& forall|k: Id| #[trigger]
                    final(store).active(k) == if k == st.id_spec() {
                        old(store).unexpired(data)
                    } else {
                        old(store).active(k)
                    }
                &&& forall|rec: R| #[trigger]
                    final(store).unexpired(rec) == old(store).unexpired(rec)
                &&& final(updater)@ == Some(
                    SessionUpdate::Bind(st.id_spec(), data.expires_spec()),
                )
            }),
            r is Err ==> *final(updater) == *old(updater),
    {
        match store.create(&data) {
            Ok(id) => {
                updater.put(SessionUpdate::Bind(id, data.expires()));
                Ok(SessionState { id, data })
            },
            Err(e) => Err(e),
        }
    }
}

/// A loaded session: an identifier that named an active record as of the
/// last store interaction, together with the record data this request owns.
///
/// The identifier is not guaranteed valid at any future instant; a
/// concurrent deletion or expiry elsewhere is tolerated by every operation.
/// Operations that change or retire the record consume the state, so two
/// conflicting operations on the same logical session cannot be written.
#[derive(Debug)]
pub struct SessionState<R> {
    id: Id,
    data: R,
}

impl<R> SessionState<R> {
    /// The identifier this state is bound to.
    pub closed spec fn id_spec(&self) -> Id {
        self.id
    }

    /// The record data, as seen by specifications.
    pub closed spec fn data_spec(&self) -> R {
        self.data
    }

    /// Reads the data associated with the session; no side effects.
    pub fn data(&self) -> (r: &R)
        ensures
            r == self.data_spec(),
    {
        &self.data
    }

    /// Consumes the state for mutable access to the data, returning the
    /// exclusive mutation guard. No store interaction happens here; it is
    /// deferred to [`DataMut::save`].
    pub fn data_mut(self) -> (r: DataMut<R>)
        ensures
            r.id_spec() == self.id_spec(),
            r.data_spec() == self.data_spec(),
    {
        DataMut { session: self }
    }
}

impl<R: Expires> SessionState<R> {
    /// Deletes the session from the store, consuming the state. Returns
    /// whether an active record existed; `false` means it was already gone,
    /// deleted by another request or lapsed. The updater receives `Delete`
    /// either way, so any outstanding cookie is still cleared.
    pub fn delete<S: SessionStore<R>>(self, store: &mut S, updater: &mut Updater) -> (r: Result<
        bool,
        S::Error,
    >)
        requires
            old(store).wf(),
        ensures
            r matches Ok(b) ==> ({
                &&& final(store).wf()
                &&& b == old(store).active(self.id_spec())
                &&& final(store).contents() =~= old(store).contents().remove(self.id_spec())
                &&& forall|k: Id| #[trigger]
                    final(store).active(k) == (k != self.id_spec() && old(store).active(k))
                &&& forall|rec: R| #[trigger]
                    final(store).unexpired(rec) == old(store).unexpired(rec)
                &&& final(updater)@ == Some(SessionUpdate::Delete)
            }),
            r is Err ==> *final(updater) == *old(updater),
    {
        match store.delete(&self.id) {
            Ok(b) => {
                updater.put(SessionUpdate::Delete);
                Ok(b)
            },
            Err(e) => Err(e),
        }
    }

    /// Cycles the session identifier to mitigate session fixation: the store
    /// rebinds the record to a fresh identifier and the updater receives
    /// `Set` with it. Returns `None`, leaving the updater untouched, when
    /// the record vanished between loading and this call.
    pub fn cycle<S: SessionStore<R>>(self, store: &mut S, updater: &mut Updater) -> (r: Result<
        Option<SessionState<R>>,
        S::Error,
    >)
        requires
            old(store).wf(),
        ensures
            r matches Ok(o) ==> ({
                &&& final(store).wf()
                &&& (o is Some <==> old(store).active(self.id_spec()))
                &&& forall|rec: R| #[trigger]
                    final(store).unexpired(rec) == old(store).unexpired(rec)
                &&& (o matches Some(st) ==> {
                    &&& st.data_spec() == self.data_spec()
                    &&& st.id_spec() != self.id_spec()
                    &&& !old(store).contents().contains_key(st.id_spec())
                    &&& final(store).contents() =~= old(store).contents().remove(
                        self.id_spec(),
                    ).insert(st.id_spec(), old(store).contents()[self.id_spec()])
                    &&& !final(store).active(self.id_spec())
                    &&& final(store).active(st.id_spec()) == old(store).unexpired(
                        old(store).contents()[self.id_spec()],
                    )
                    &&& forall|k: Id|
                        k != st.id_spec() && k != self.id_spec() ==> #[trigger] final(store).active(k) == old(store).active(k)
                    &&& final(updater)@ == Some(
                        SessionUpdate::Bind(st.id_spec(), self.data_spec().expires_spec()),
                    )
                })
                &&& (o is None ==> final(store).contents() =~= old(store).contents() && (forall|
                    k: Id,
                |
                    #[trigger] final(store).active(k) == old(store).active(k)) && *final(updater)
                    == *old(updater))
            }),
            r is Err ==> *final(updater) == *old(updater),
    {
        match store.cycle_id(&self.id) {
            Ok(Some(new_id)) => {
                updater.put(SessionUpdate::Bind(new_id, self.data.expires()));
                Ok(Some(SessionState { id: new_id, data: self.data }))
            },
            Ok(None) => Ok(None),
            Err(e) => Err(e),
        }
    }
}

/// Exclusive ownership of a session's data for the duration of a mutation.
///
/// Created by [`SessionState::data_mut`]; resolved by [`DataMut::save`],
/// which either returns a fresh state (mutation persisted) or `None` (the
/// record vanished concurrently). Dropping the guard without saving
/// discards the mutation by design: there is no implicit autosave and no
/// implicit no-op, the caller must choose.
#[derive(Debug)]
#[must_use]
pub struct DataMut<R> {
    session: SessionState<R>,
}

impl<R> DataMut<R> {
    /// The identifier the guarded session is bound to.
    pub closed spec fn id_spec(&self) -> Id {
        self.session.id_spec()
    }

    /// The guarded data, as seen by specifications.
    pub closed spec fn data_spec(&self) -> R {
        self.session.data_spec()
    }

    /// Reads the guarded data.
    pub fn data(&self) -> (r: &R)
        ensures
            r == self.data_spec(),
    {
        &self.session.data
    }

    /// Replaces the guarded data; nothing is persisted until `save`.
    pub fn set_data(&mut self, data: R)
        ensures
            final(self).id_spec() == old(self).id_spec(),
            final(self).data_spec() == data,
    {
        self.session.data = data;
    }

    /// Saves the guarded data to the store. Returns the session state when
    /// the record was still active and is now updated, or `None` when it was
    /// deleted or lapsed between loading and this call: the mutation is then
    /// discarded, never written. The updater is not touched; no identifier
    /// or expiry disposition changes here.
    pub fn save<S: SessionStore<R>>(self, store: &mut S) -> (r: Result<
        Option<SessionState<R>>,
        S::Error,
    >)
        requires
            old(store).wf(),
        ensures
            r matches Ok(o) ==> ({
                &&& final(store).wf()
                &&& (o is Some <==> old(store).active(self.id_spec()))
                &&& forall|rec: R| #[trigger]
                    final(store).unexpired(rec) == old(store).unexpired(rec)
                &&& (o matches Some(st) ==> {
                    &&& st.id_spec() == self.id_spec()
                    &&& st.data_spec() == self.data_spec()
                    &&& final(store).contents() =~= old(store).contents().insert(
                        self.id_spec(),
                        self.data_spec(),
                    )
                    &&& forall|k: Id| #[trigger]
                        final(store).active(k) == if k == self.id_spec() {
                            old(store).unexpired(self.data_spec())
                        } else {
                            old(store).active(k)
                        }
                })
                &&& (o is None ==> final(store).contents() =~= old(store).contents() && forall|
                    k: Id,
                |
                    #[trigger] final(store).active(k) == old(store).active(k))
            }),
    {
        match store.save(&self.session.id, &self.session.data) {
            Ok(true) => Ok(Some(self.session)),
            Ok(false) => Ok(None),
            Err(e) => Err(e),
        }
    }
}

} // verus!
