//! The storage contract: what any session backend must provide, stated over
//! the backend's mathematical contents so the session layer never depends on
//! backend details.

use vstd::prelude::*;

use crate::cookie_options::CookieOptions;
use crate::data::Data;
use crate::session::{Session, Status};
use crate::value::ValueModel;

verus! {

/// The error kinds a session or storage operation can surface.
#[derive(Clone, Copy, Debug, PartialEq, Eq, Structural)]
pub enum SessionError {
    /// A concurrency guard could not be acquired.
    Lock,
    /// A backend operation failed.
    Storage,
}

/// The model of one stored session state: its data and the expiration it was
/// saved under.
#[verifier::ext_equal]
pub struct StoredModel {
    /// The persisted data container contents.
    pub data: Map<Seq<char>, ValueModel>,
    /// The time-to-live the entry was saved with, in seconds.
    pub ttl_secs: u64,
}

/// Whether an id passes the format check that `load` applies before looking a
/// session up: a non-empty identifier.
pub open spec fn valid_sid(s: Seq<char>) -> bool {
    s.len() > 0
}

/// Runs the id format check that `load` applies.
pub fn verify_sid(sid: &str) -> (b: bool)
    ensures
        b == valid_sid(sid@),
{
    !sid.is_empty()
}

/// A pluggable session backend: load by id, upsert with a time-to-live,
/// remove, and generate fresh ids. `contents` is the stored state by id;
/// `issued` is every id the backend has handed out, so that a freshly
/// generated id is never one of them.
pub trait Storage: Sized {
    /// The stored session states, by id.
    spec fn contents(&self) -> Map<Seq<char>, StoredModel>;

    /// Every id this backend has generated so far.
    spec fn issued(&self) -> Set<Seq<char>>;

    /// Backend-specific well-formedness, preserved by every operation.
    spec fn inv(&self) -> bool;

    /// Looks `sid` up. A hit gives a session holding the stored data, with
    /// status `Saved`. A miss — an unknown or invalid id — gives a fresh
    /// empty session with status `Created` and a newly generated id; absence
    /// is a valid outcome, never an error.
    fn load(&mut self, sid: &str, config: CookieOptions) -> (s: Session)
        requires
            old(self).inv(),
        ensures
            final(self).inv(),
            s.wf(),
            !s.spec_dirty(),
            s.spec_config() == config@,
            final(self).contents() == old(self).contents(),
            valid_sid(sid@) && old(self).contents().contains_key(sid@) ==> s.spec_id() == sid@
                && s.spec_status() == Status::Saved && s.spec_data() == old(
                self,
            ).contents()[sid@].data && final(self).issued() == old(self).issued(),
            !(valid_sid(sid@) && old(self).contents().contains_key(sid@)) ==> s.spec_status()
                == Status::Created && s.spec_data() == Map::<Seq<char>, ValueModel>::empty()
                && valid_sid(s.spec_id()) && !old(self).issued().contains(s.spec_id())
                && final(self).issued() == old(self).issued().insert(s.spec_id());

    /// Upserts the state for `id` with expiration `ttl_secs`, overwriting any
    /// existing entry entirely.
    fn save(&mut self, id: &str, data: &Data, ttl_secs: u64) -> (r: Result<
        (),
        SessionError,
    >)
        requires
            old(self).inv(),
            data.wf(),
        ensures
            final(self).inv(),
            final(self).issued() == old(self).issued(),
            r is Ok ==> final(self).contents() == old(self).contents().insert(
                id@,
                StoredModel { data: data@, ttl_secs },
            );

    /// Deletes the entry for `id` and reports whether one existed.
    fn remove(&mut self, id: &str) -> (r: Result<bool, SessionError>)
        requires
            old(self).inv(),
        ensures
            final(self).inv(),
            final(self).issued() == old(self).issued(),
            r matches Ok(existed) ==> existed == old(self).contents().contains_key(id@)
                && final(self).contents() == old(self).contents().remove(id@);

    /// Produces an id this backend has never handed out before, in a form
    /// that passes the id format check.
    fn generate_id(&mut self) -> (id: String)
        requires
            old(self).inv(),
        ensures
            final(self).inv(),
            final(self).contents() == old(self).contents(),
            valid_sid(id@),
            !old(self).issued().contains(id@),
            final(self).issued() == old(self).issued().insert(id@);
}

} // verus!
