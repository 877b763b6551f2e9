//! Process-local storage behind a reader-writer lock.
use crate::protocol::types::SessionId;
use crate::runtime::engine::{InMemoryState, InMemoryStorageError, MeetingRuntimeStorage, StorageCommit, StoredSessionV1};
use vstd::prelude::*;
use vstd::rwlock::RwLock;

verus! {

/// The sessions the store holds: no two share a session ID or a create
/// idempotency key (each stored session is well formed by the type
/// invariant of `StoredSessionV1`).
pub open spec fn store_ok(state: InMemoryState) -> bool {
    state.wf()
}

/// Process-local, lock-protected storage for tests and embedders that do not
/// need durability across restarts.
pub struct InMemoryMeetingRuntimeStorage {
    inner: RwLock<InMemoryState, spec_fn(InMemoryState) -> bool>,
}

impl InMemoryMeetingRuntimeStorage {
    #[verifier::type_invariant]
    spec fn inv(self) -> bool {
        self.inner.pred() == (|state: InMemoryState| store_ok(state))
    }

    pub fn new() -> (r: Self) {
        InMemoryMeetingRuntimeStorage {
            inner: RwLock::new(InMemoryState::new(), Ghost(|state: InMemoryState| store_ok(state))),
        }
    }

    /// Returns a copy of the stored session without exposing the lock.
    pub fn snapshot(&self, session_id: &SessionId) -> (r: Result<Option<StoredSessionV1>, InMemoryStorageError>)
        ensures
            r matches Ok(Some(s)) ==> s.state().session_id@ == session_id@,
    {
        self.load_session(session_id)
    }
}

impl MeetingRuntimeStorage for InMemoryMeetingRuntimeStorage {
    type Error = InMemoryStorageError;

    fn load_session(&self, session_id: &SessionId) -> (r: Result<Option<StoredSessionV1>, Self::Error>)
        ensures
            r is Ok,
            r matches Ok(Some(s)) ==> s.state().session_id@ == session_id@,
    {
        let handle = self.inner.acquire_read();
        let found = handle.borrow().load(session_id);
        handle.release_read();
        Ok(found)
    }

    fn load_session_by_create_idempotency_key(&self, idempotency_key: &str) -> (r: Result<Option<StoredSessionV1>, Self::Error>)
        ensures
            r is Ok,
            r matches Ok(Some(s)) ==> s.state().create.idempotency_key@ == idempotency_key@,
    {
        let handle = self.inner.acquire_read();
        let found = handle.borrow().load_by_key(idempotency_key);
        handle.release_read();
        Ok(found)
    }

    fn create_session(&self, session: StoredSessionV1) -> (r: Result<StorageCommit, Self::Error>)
        ensures
            r is Ok,
    {
        proof {
            use_type_invariant(self);
        }
        let (mut state, handle) = self.inner.acquire_write();
        let result = state.create(session);
        handle.release_write(state);
        Ok(result)
    }

    fn replace_session(&self, expected_revision: u64, session: StoredSessionV1) -> (r: Result<StorageCommit, Self::Error>)
        ensures
            r is Ok,
    {
        proof {
            use_type_invariant(self);
        }
        let (mut state, handle) = self.inner.acquire_write();
        let result = state.replace(expected_revision, session);
        handle.release_write(state);
        Ok(result)
    }
}

} // verus!
