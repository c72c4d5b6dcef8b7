//! The thread-safe notification manager: a reference-counted handle around
//! one [`Store`] behind a verified reader/writer lock.
//!
//! Every handle cloned from a manager shares the same lock and store, so all
//! of them observe and mutate one sequence.  Each operation holds the lock
//! for its whole body and is therefore atomic with respect to every other
//! manager operation; queries take the shared side of the lock, mutations
//! the exclusive side.  The lock is vstd's verified reader/writer lock, and
//! no verified operation can panic, so there is no poisoned state: the
//! fatal-access conditions of the sequential store surface here as `None`
//! results instead.
//!
//! Other handles may change the shared store between two calls, so no
//! contract here can speak of "the" store.  Instead, each operation returns
//! ghost snapshots of the store state it observed under the lock — queries
//! the one state they read, mutations the state before and after — and its
//! contract ties the result to those snapshots exactly as the [`Store`]
//! contracts do.  The lock maintains [`StoreInv`] as its invariant, so every
//! state any handle can observe satisfies it.

use crate::notification::Notification;
use crate::store::all_read;
use crate::store::cursor_step_continues;
use crate::store::cursor_step_state;
use crate::store::is_first_match;
use crate::store::is_last_unread;
use crate::store::lemma_unread_count_le_len;
use crate::store::lemma_unread_count_zero_iff_all_read;
use crate::store::mark_last_spec;
use crate::store::read_of;
use crate::store::spec_is_unread;
use crate::store::unread_count_of;
use crate::store::Store;
use std::sync::Arc;
use vstd::prelude::*;
use vstd::rwlock::RwLock;
use vstd::rwlock::RwLockPredicate;

verus! {

/// The lock invariant: a store never reports more unread notifications than
/// it holds entries, whatever interleaving of operations produced it.
pub struct StoreInv;

impl RwLockPredicate<Store> for StoreInv {
    open spec fn inv(self, store: Store) -> bool {
        unread_count_of(store@) <= store@.len()
    }
}

/// Notification manager: a shared, thread-safe handle to one store.
pub struct Manager {
    inner: Arc<RwLock<Store, StoreInv>>,
}

/// Relies on std::sync::Arc::clone: the returned handle refers to the same
/// allocation, so it carries the same value.
#[verifier::external_body]
fn share_store_lock(inner: &Arc<RwLock<Store, StoreInv>>) -> (shared: Arc<RwLock<Store, StoreInv>>)
    ensures
        shared == *inner,
{
    Arc::clone(inner)
}

impl Clone for Manager {
    /// A cloned handle shares the lock and store of the original; it is a
    /// view of the same sequence, not an independent copy.
    fn clone(&self) -> (result: Self)
        ensures
            result == *self,
    {
        Manager { inner: share_store_lock(&self.inner) }
    }
}

impl Manager {
    /// Initializes the notification manager; the handle is created over an
    /// empty store, returned as the initial snapshot.
    pub fn init() -> (result: (Manager, Ghost<Seq<Notification>>))
        ensures
            result.1@ == Seq::<Notification>::empty(),
    {
        let store = Store::new();
        let ghost initial = store@;
        proof {
            lemma_unread_count_le_len(store@);
        }
        let manager = Manager { inner: Arc::new(RwLock::new(store, Ghost(StoreInv))) };
        (manager, Ghost(initial))
    }

    /// Appends a notification at the end of the shared store; returns the
    /// snapshots observed before and after the append.
    pub fn add(&self, notification: Notification) -> (result: (
        Ghost<Seq<Notification>>,
        Ghost<Seq<Notification>>,
    ))
        ensures
            result.1@ == result.0@.push(notification),
    {
        let (mut store, handle) = self.inner.acquire_write();
        let ghost before = store@;
        store.add(notification);
        let ghost after = store@;
        proof {
            lemma_unread_count_le_len(store@);
        }
        handle.release_write(store);
        (Ghost(before), Ghost(after))
    }

    /// A copy of the highest-index unread notification of the observed
    /// store, or `None` exactly when every entry of it is read (in
    /// particular when it is empty).
    pub fn get_last_unread(&self) -> (result: (Option<Notification>, Ghost<Seq<Notification>>))
        ensures
            result.0 is None <==> all_read(result.1@),
            forall|i: int| is_last_unread(result.1@, i) ==> result.0 == Some(result.1@[i]),
            result.0 matches Some(n) ==> !n.is_read,
    {
        let read_handle = self.inner.acquire_read();
        let store = read_handle.borrow();
        let ghost observed = store@;
        let result = if store.get_unread_count() > 0 {
            proof {
                lemma_unread_count_zero_iff_all_read(observed);
            }
            Some(store.get_last_unread())
        } else {
            proof {
                lemma_unread_count_zero_iff_all_read(observed);
                assert forall|i: int| is_last_unread(observed, i) implies false by {
                    assert(observed[i].is_read);
                }
            }
            None
        };
        read_handle.release_read();
        (result, Ghost(observed))
    }

    /// Marks the highest-index unread notification of the shared store read;
    /// does nothing when every entry of the observed store is already read.
    pub fn mark_last_as_read(&self) -> (result: (
        Ghost<Seq<Notification>>,
        Ghost<Seq<Notification>>,
    ))
        ensures
            result.1@ == mark_last_spec(result.0@),
            all_read(result.0@) ==> result.1@ == result.0@,
            forall|i: int| is_last_unread(result.0@, i) ==> result.1@ == result.0@.update(
                i,
                read_of(result.0@[i]),
            ),
    {
        let (mut store, handle) = self.inner.acquire_write();
        let ghost before = store@;
        store.mark_last_as_read();
        let ghost after = store@;
        proof {
            lemma_unread_count_le_len(store@);
        }
        handle.release_write(store);
        (Ghost(before), Ghost(after))
    }

    /// One backward step of the unread cursor; see
    /// [`Store::mark_next_as_unread`].
    ///
    /// Returns the step's report together with the snapshots observed before
    /// and after.  The report is `None` exactly when the store was empty:
    /// the wrap-around step has no last entry then, the store is left
    /// unchanged, and the fatal access is reported rather than performed.
    pub fn mark_next_as_unread(&self) -> (result: (
        Option<bool>,
        Ghost<Seq<Notification>>,
        Ghost<Seq<Notification>>,
    ))
        ensures
            result.0 is Some <==> result.1@.len() > 0,
            result.0 matches Some(stepped) ==> result.2@ == cursor_step_state(result.1@)
                && stepped == cursor_step_continues(result.1@),
            result.0 is None ==> result.2@ == result.1@,
    {
        let (mut store, handle) = self.inner.acquire_write();
        let ghost before = store@;
        let result = if store.len() > 0 {
            Some(store.mark_next_as_unread())
        } else {
            None
        };
        let ghost after = store@;
        proof {
            lemma_unread_count_le_len(store@);
        }
        handle.release_write(store);
        (result, Ghost(before), Ghost(after))
    }

    /// Marks the first entry of the shared store whose id matches read; does
    /// nothing when no entry of the observed store matches.
    pub fn mark_as_read(&self, id: u32) -> (result: (
        Ghost<Seq<Notification>>,
        Ghost<Seq<Notification>>,
    ))
        ensures
            (forall|j: int| 0 <= j < result.0@.len() ==> result.0@[j].id != id) ==> result.1@
                == result.0@,
            forall|i: int| is_first_match(result.0@, id, i) ==> result.1@ == result.0@.update(
                i,
                read_of(result.0@[i]),
            ),
    {
        let (mut store, handle) = self.inner.acquire_write();
        let ghost before = store@;
        store.mark_as_read(id);
        let ghost after = store@;
        proof {
            lemma_unread_count_le_len(store@);
        }
        handle.release_write(store);
        (Ghost(before), Ghost(after))
    }

    /// Marks every notification of the shared store read.
    pub fn mark_all_as_read(&self) -> (result: (
        Ghost<Seq<Notification>>,
        Ghost<Seq<Notification>>,
    ))
        ensures
            result.1@.len() == result.0@.len(),
            forall|i: int| 0 <= i < result.0@.len() ==> result.1@[i] == read_of(result.0@[i]),
            all_read(result.1@),
    {
        let (mut store, handle) = self.inner.acquire_write();
        let ghost before = store@;
        store.mark_all_as_read();
        let ghost after = store@;
        proof {
            lemma_unread_count_le_len(store@);
        }
        handle.release_write(store);
        (Ghost(before), Ghost(after))
    }

    /// The number of unread notifications in the observed store.
    pub fn get_unread_count(&self) -> (result: (usize, Ghost<Seq<Notification>>))
        ensures
            result.0 == unread_count_of(result.1@),
    {
        let read_handle = self.inner.acquire_read();
        let store = read_handle.borrow();
        let ghost observed = store@;
        let count = store.get_unread_count();
        read_handle.release_read();
        (count, Ghost(observed))
    }

    /// Whether the first entry with the given id exists in the observed
    /// store and is unread; false when the id is absent or its first match
    /// is read.
    pub fn is_unread(&self, id: u32) -> (result: (bool, Ghost<Seq<Notification>>))
        ensures
            result.0 == spec_is_unread(result.1@, id),
    {
        let read_handle = self.inner.acquire_read();
        let store = read_handle.borrow();
        let ghost observed = store@;
        let unread = store.is_unread(id);
        read_handle.release_read();
        (unread, Ghost(observed))
    }

    /// The number of notifications the observed store holds, read or not.
    pub fn len(&self) -> (result: (usize, Ghost<Seq<Notification>>))
        ensures
            result.0 == result.1@.len(),
    {
        let read_handle = self.inner.acquire_read();
        let store = read_handle.borrow();
        let ghost observed = store@;
        let n = store.len();
        read_handle.release_read();
        (n, Ghost(observed))
    }
}

} // verus!
