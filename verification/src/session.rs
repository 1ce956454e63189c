//! The session entity: an id, a lifecycle status, a dirty flag and an owned
//! data container, with the lifecycle operations that talk to a [`Storage`]
//! backend.

use vstd::prelude::*;

use crate::cookie_options::{CookieOptions, CookieOptionsModel};
use crate::data::Data;
use crate::storage::{SessionError, Storage, StoredModel};
use crate::value::{clone_value, value_model, Value, ValueModel};

verus! {

/// The lifecycle states of a [`Session`], in the order they are reached.
#[derive(Clone, Copy, Debug, PartialEq, Eq, Structural)]
pub enum Status {
    /// Freshly created, with no backing store entry written by this handle.
    Created,
    /// `save` has run at least once since creation.
    Saved,
    /// `renew` has replaced the id and cleared the data.
    Renewed,
    /// Terminal: `destroy` has removed the backing entry.
    Destroyed,
}

impl Status {
    /// Position of a status in the lifecycle order; operations act only
    /// below their threshold, which makes them idempotent past it.
    pub open spec fn rank(self) -> int {
        match self {
            Status::Created => 0,
            Status::Saved => 1,
            Status::Renewed => 2,
            Status::Destroyed => 3,
        }
    }
}

/// The status after a `save`: `Created` moves to `Saved`, every other status
/// stays put.
pub open spec fn save_transition(st: Status) -> Status {
    if st is Created {
        Status::Saved
    } else {
        st
    }
}

/// Whether a `save` in status `st` reaches the backend at all.
pub open spec fn save_performs_write(st: Status) -> bool {
    st is Created
}

/// Whether a `renew` in status `st` acts: only below `Renewed`.
pub open spec fn renew_acts(st: Status) -> bool {
    st.rank() < 2
}

/// Whether a `destroy` in status `st` acts: only below `Destroyed`.
pub open spec fn destroy_acts(st: Status) -> bool {
    st.rank() < 3
}

/// A per-client session: an identity, a lifecycle status, a dirty flag for
/// the data container, the container itself, and the cookie configuration it
/// was created under.
#[derive(Debug)]
pub struct Session {
    id: String,
    status: Status,
    dirty: bool,
    data: Data,
    config: CookieOptions,
}

impl Session {
    /// Internal well-formedness of the session's container.
    pub closed spec fn wf(&self) -> bool {
        self.data.wf()
    }

    /// The session's id.
    pub closed spec fn spec_id(&self) -> Seq<char> {
        self.id@
    }

    /// The session's lifecycle status.
    pub closed spec fn spec_status(&self) -> Status {
        self.status
    }

    /// Whether the data has been mutated since the last save.
    pub closed spec fn spec_dirty(&self) -> bool {
        self.dirty
    }

    /// The contents of the session's data container.
    pub closed spec fn spec_data(&self) -> Map<Seq<char>, ValueModel> {
        self.data@
    }

    /// The configuration the session reads its cookie policy from.
    pub closed spec fn spec_config(&self) -> CookieOptionsModel {
        self.config@
    }

    /// Creates a session with `id`, `status`, an empty container and a clean
    /// dirty flag.
    pub fn new(id: &str, status: Status, config: CookieOptions) -> (s: Session)
        ensures
            s.wf(),
            s.spec_id() == id@,
            s.spec_status() == status,
            !s.spec_dirty(),
            s.spec_data() == Map::<Seq<char>, ValueModel>::empty(),
            s.spec_config() == config@,
    {
        Session { id: id.to_owned(), status, dirty: false, data: Data::new(), config }
    }

    /// Creates a session for state loaded back from a backend: status
    /// `Saved`, holding `data`.
    pub fn restore(id: &str, data: Data, config: CookieOptions) -> (s: Session)
        requires
            data.wf(),
        ensures
            s.wf(),
            s.spec_id() == id@,
            s.spec_status() == Status::Saved,
            !s.spec_dirty(),
            s.spec_data() == data@,
            s.spec_config() == config@,
    {
        Session { id: id.to_owned(), status: Status::Saved, dirty: false, data, config }
    }

    /// The maximum age the session persists under, in seconds.
    pub fn max_age(&self) -> (n: u64)
        ensures
            n == self.spec_config().max_age_secs,
    {
        self.config.max_age_secs
    }

    /// Reads the session's data container.
    pub fn data(&self) -> (d: &Data)
        requires
            self.wf(),
        ensures
            d.wf(),
            d@ == self.spec_data(),
    {
        &self.data
    }

    /// Writes the session's data container directly. Mutations made through
    /// the returned reference do not touch the dirty flag.
    pub fn data_mut(&mut self) -> (d: &mut Data)
        ensures
            (*d)@ == old(self).spec_data(),
            (*d).wf() == old(self).wf(),
            final(self).spec_data() == final(d)@,
            final(self).wf() == final(d).wf(),
            final(self).spec_id() == old(self).spec_id(),
            final(self).spec_status() == old(self).spec_status(),
            final(self).spec_dirty() == old(self).spec_dirty(),
            final(self).spec_config() == old(self).spec_config(),
    {
        &mut self.data
    }

    /// The session's id.
    pub fn id(&self) -> (r: String)
        ensures
            r@ == self.spec_id(),
    {
        self.id.clone()
    }

    /// Whether the session is fresh: created here, never saved, renewed or
    /// destroyed.
    pub fn fresh(&self) -> (b: bool)
        ensures
            b == (self.spec_status() is Created),
    {
        matches!(self.status, Status::Created)
    }

    /// Whether the data has been mutated since the last save: advisory, so
    /// callers can skip a save.
    pub fn data_status(&self) -> (b: bool)
        ensures
            b == self.spec_dirty(),
    {
        self.dirty
    }

    /// The session's lifecycle status.
    pub fn status(&self) -> (st: Status)
        ensures
            st == self.spec_status(),
    {
        self.status
    }

    /// A copy of the value at `key`, or nothing when the key is absent.
    pub fn get(&self, key: &str) -> (r: Option<Value>)
        requires
            self.wf(),
        ensures
            (r is Some) == self.spec_data().contains_key(key@),
            r matches Some(v) ==> value_model(v) == self.spec_data()[key@],
    {
        match self.data.get(key) {
            Some(v) => Some(clone_value(v)),
            None => None,
        }
    }

    /// Puts `val` at `key`, marks the session dirty, and hands back the value
    /// previously held there, if any.
    pub fn set(&mut self, key: &str, val: Value) -> (prev: Option<Value>)
        requires
            old(self).wf(),
        ensures
            final(self).wf(),
            final(self).spec_data() == old(self).spec_data().insert(key@, value_model(val)),
            final(self).spec_dirty(),
            final(self).spec_id() == old(self).spec_id(),
            final(self).spec_status() == old(self).spec_status(),
            final(self).spec_config() == old(self).spec_config(),
            (prev is Some) == old(self).spec_data().contains_key(key@),
            prev matches Some(p) ==> value_model(p) == old(self).spec_data()[key@],
    {
        let prev = self.data.insert(key, val);
        self.dirty = true;
        prev
    }

    /// Deletes `key` and hands back the value it held, if any. The dirty flag
    /// is set only when something was actually removed.
    pub fn remove(&mut self, key: &str) -> (prev: Option<Value>)
        requires
            old(self).wf(),
        ensures
            final(self).wf(),
            final(self).spec_data() == old(self).spec_data().remove(key@),
            final(self).spec_dirty() == (old(self).spec_dirty() || old(
                self,
            ).spec_data().contains_key(key@)),
            final(self).spec_id() == old(self).spec_id(),
            final(self).spec_status() == old(self).spec_status(),
            final(self).spec_config() == old(self).spec_config(),
            (prev is Some) == old(self).spec_data().contains_key(key@),
            prev matches Some(p) ==> value_model(p) == old(self).spec_data()[key@],
    {
        let prev = self.data.remove(key);
        match prev {
            Some(p) => {
                self.dirty = true;
                Some(p)
            },
            None => None,
        }
    }

    /// Empties the container and marks the session dirty.
    pub fn clear(&mut self) -> (r: Result<(), SessionError>)
        ensures
            r is Ok,
            final(self).wf(),
            final(self).spec_data() == Map::<Seq<char>, ValueModel>::empty(),
            final(self).spec_dirty(),
            final(self).spec_id() == old(self).spec_id(),
            final(self).spec_status() == old(self).spec_status(),
            final(self).spec_config() == old(self).spec_config(),
    {
        self.data.clear();
        self.dirty = true;
        Ok(())
    }

    /// Persists a snapshot of the data to `store` under the session's id and
    /// maximum age — but only from status `Created`. The status moves to
    /// `Saved` before the backend write and stays there even when the write
    /// fails; a second save never reaches the backend again.
    pub fn save<S: Storage>(&mut self, store: &mut S) -> (r: Result<(), SessionError>)
        requires
            old(self).wf(),
            old(store).inv(),
        ensures
            final(self).wf(),
            final(store).inv(),
            final(self).spec_id() == old(self).spec_id(),
            final(self).spec_data() == old(self).spec_data(),
            final(self).spec_dirty() == old(self).spec_dirty(),
            final(self).spec_config() == old(self).spec_config(),
            final(self).spec_status() == save_transition(old(self).spec_status()),
            final(store).issued() == old(store).issued(),
            !save_performs_write(old(self).spec_status()) ==> r is Ok && final(store).contents()
                == old(store).contents(),
            save_performs_write(old(self).spec_status()) && r is Ok ==> final(store).contents()
                == old(store).contents().insert(
                old(self).spec_id(),
                StoredModel {
                    data: old(self).spec_data(),
                    ttl_secs: old(self).spec_config().max_age_secs,
                },
            ),
    {
        if matches!(self.status, Status::Created) {
            self.status = Status::Saved;
            let snapshot = self.data.duplicate();
            store.save(self.id.as_str(), &snapshot, self.config.max_age_secs)
        } else {
            Ok(())
        }
    }

    /// Removes the old id from `store`, takes a freshly generated id, clears
    /// the data and moves to `Renewed` — but only from `Created` or `Saved`;
    /// afterwards a no-op.
    pub fn renew<S: Storage>(&mut self, store: &mut S) -> (r: Result<(), SessionError>)
        requires
            old(self).wf(),
            old(store).inv(),
        ensures
            final(self).wf(),
            final(store).inv(),
            final(self).spec_config() == old(self).spec_config(),
            !renew_acts(old(self).spec_status()) ==> r is Ok && *final(self) == *old(self)
                && final(store).contents() == old(store).contents() && final(store).issued() == old(
                store,
            ).issued(),
            renew_acts(old(self).spec_status()) && r is Err ==> *final(self) == *old(self)
                && final(store).issued() == old(store).issued(),
            renew_acts(old(self).spec_status()) && r is Ok ==> final(self).spec_status()
                == Status::Renewed && final(self).spec_data() == Map::<
                Seq<char>,
                ValueModel,
            >::empty() && final(self).spec_dirty() == old(self).spec_dirty() && !old(
                store,
            ).issued().contains(final(self).spec_id()) && (old(store).issued().contains(
                old(self).spec_id(),
            ) ==> final(self).spec_id() != old(self).spec_id()) && final(store).contents() == old(
                store,
            ).contents().remove(old(self).spec_id()) && final(store).issued() == old(
                store,
            ).issued().insert(final(self).spec_id()),
    {
        if matches!(self.status, Status::Created | Status::Saved) {
            match store.remove(self.id.as_str()) {
                Ok(_) => {},
                Err(e) => {
                    return Err(e);
                },
            }
            self.id = store.generate_id();
            self.data.clear();
            self.status = Status::Renewed;
            Ok(())
        } else {
            Ok(())
        }
    }

    /// Removes the session's entry from `store` and moves to the terminal
    /// status `Destroyed` — but only once; afterwards a no-op.
    pub fn destroy<S: Storage>(&mut self, store: &mut S) -> (r: Result<(), SessionError>)
        requires
            old(self).wf(),
            old(store).inv(),
        ensures
            final(self).wf(),
            final(store).inv(),
            final(self).spec_id() == old(self).spec_id(),
            final(self).spec_data() == old(self).spec_data(),
            final(self).spec_dirty() == old(self).spec_dirty(),
            final(self).spec_config() == old(self).spec_config(),
            final(store).issued() == old(store).issued(),
            !destroy_acts(old(self).spec_status()) ==> r is Ok && *final(self) == *old(self)
                && final(store).contents() == old(store).contents(),
            destroy_acts(old(self).spec_status()) && r is Ok ==> final(self).spec_status()
                == Status::Destroyed && final(store).contents() == old(store).contents().remove(
                old(self).spec_id(),
            ),
            destroy_acts(old(self).spec_status()) && r is Err ==> *final(self) == *old(self),
    {
        if !matches!(self.status, Status::Destroyed) {
            match store.remove(self.id.as_str()) {
                Ok(_) => {},
                Err(e) => {
                    return Err(e);
                },
            }
            self.status = Status::Destroyed;
            Ok(())
        } else {
            Ok(())
        }
    }
}

/// The status machine moves to `Saved` at most once: after any save, a
/// further save performs no backend write and leaves the status unchanged.
/// Together with the contract of [`Session::save`], two saves on one session
/// reach the backend at most once, whichever comes first.
pub proof fn lemma_save_writes_once(st: Status)
    ensures
        !save_performs_write(save_transition(st)),
        save_transition(save_transition(st)) == save_transition(st),
        st is Created ==> save_transition(st) is Saved,
{
}

/// Renewing is idempotent past `Renewed`, and the terminal status is sticky:
/// once `Destroyed`, neither renew nor destroy acts again.
pub proof fn lemma_lifecycle_idempotent()
    ensures
        !renew_acts(Status::Renewed),
        !renew_acts(Status::Destroyed),
        !destroy_acts(Status::Destroyed),
        destroy_acts(Status::Created),
        destroy_acts(Status::Saved),
        destroy_acts(Status::Renewed),
        renew_acts(Status::Created),
        renew_acts(Status::Saved),
{
}

} // verus!
