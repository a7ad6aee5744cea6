//! The documents that are open, each under its identity, in a concurrent map
//! that lets one thread at a time at each document. What the map holds at any
//! moment depends on the other threads, so nothing is assumed of it. No guard
//! of the map leaves this file: a caller gets copies, taken while the entry
//! is held, and so cannot hold an entry while it calls the store again.

use crate::document::{
    all_valid, apply_all, change_valid, follows, ChangeError, ContentChange, PerFileState,
};
use dashmap::mapref::one::{Ref, RefMut};
use dashmap::DashMap;
use vstd::prelude::*;

verus! {

/// `dashmap::DashMap`: nothing is assumed of what it holds.
#[verifier::external_type_specification]
#[verifier::external_body]
#[verifier::reject_recursive_types(K)]
#[verifier::reject_recursive_types(V)]
#[verifier::reject_recursive_types(S)]
pub struct ExDashMap<K, V, S>(DashMap<K, V, S>);

/// `dashmap::mapref::one::RefMut`: the guard that holds one entry for writing.
#[verifier::external_type_specification]
#[verifier::external_body]
#[verifier::reject_recursive_types(K)]
#[verifier::reject_recursive_types(V)]
#[verifier::reject_recursive_types(S)]
pub struct ExRefMut<'a, K, V, S>(RefMut<'a, K, V, S>);

/// `dashmap::mapref::one::Ref`: the guard that holds one entry for reading.
#[verifier::external_type_specification]
#[verifier::external_body]
#[verifier::reject_recursive_types(K)]
#[verifier::reject_recursive_types(V)]
#[verifier::reject_recursive_types(S)]
pub struct ExRef<'a, K, V, S>(Ref<'a, K, V, S>);

/// `DashMap::new` makes an empty map.
#[verifier::external_body]
fn map_new() -> DashMap<String, PerFileState> {
    DashMap::new()
}

/// `DashMap::insert` puts a document under an identity, in place of the one
/// that was there.
#[verifier::external_body]
fn map_insert(map: &DashMap<String, PerFileState>, id: String, state: PerFileState) {
    map.insert(id, state);
}

/// `DashMap::get_mut` waits until no other thread holds the document, and
/// hands it out to the caller alone; `None` where there is no such document.
#[verifier::external_body]
fn map_get_mut<'a>(map: &'a DashMap<String, PerFileState>, id: &str) -> Option<
    RefMut<'a, String, PerFileState>,
> {
    map.get_mut(id)
}

/// `RefMut::value_mut` is the document that the guard holds.
#[verifier::external_body]
fn guard_state<'a, 'b>(guard: &'a mut RefMut<'b, String, PerFileState>) -> &'a mut PerFileState {
    guard.value_mut()
}

/// `DashMap::get` waits until no other thread is changing the document, and
/// hands it out for reading; `None` where there is no such document.
#[verifier::external_body]
fn map_get<'a>(map: &'a DashMap<String, PerFileState>, id: &str) -> Option<
    Ref<'a, String, PerFileState>,
> {
    map.get(id)
}

/// `Ref::value` is the document that the guard holds.
#[verifier::external_body]
fn guarded_state<'a, 'b>(guard: &'a Ref<'b, String, PerFileState>) -> &'a PerFileState {
    guard.value()
}

/// `DashMap::remove` takes the document under an identity out of the map.
#[verifier::external_body]
fn map_remove(map: &DashMap<String, PerFileState>, id: &str) {
    map.remove(id);
}

/// Why a change to a stored document failed.
#[derive(Clone, Copy, Debug, PartialEq, Eq, Structural)]
pub enum StoreError {
    /// No document is open under the identity.
    NotOpen,
    /// The document is open, and one of the changes could not be applied.
    Change(ChangeError),
}

/// The open documents.
pub struct DocumentStore {
    per_file: DashMap<String, PerFileState>,
}

/// What a change to an entry of the store comes to: without an entry there
/// is no such document, and with one the changes are applied to it as far as
/// they are valid. Where all are, a copy of the changed document comes back.
pub fn change_entry(entry: Option<&mut PerFileState>, changes: &Vec<ContentChange>) -> (r: Result<
    PerFileState,
    StoreError,
>)
    ensures
        entry is None ==> (r matches Err(e) && e == StoreError::NotOpen),
        entry matches Some(state) ==> {
            &&& r is Ok <==> all_valid(state.text(), changes@)
            &&& r matches Ok(copy) ==> {
                &&& copy.same_as(*final(state))
                &&& final(state).text() == apply_all(state.text(), changes@)
                &&& follows(*state, changes@, *final(state))
            }
            &&& r matches Err(e) ==> (e matches StoreError::Change(at) && {
                &&& at.index < changes.len()
                &&& all_valid(state.text(), changes@.take(at.index as int))
                &&& !change_valid(
                    apply_all(state.text(), changes@.take(at.index as int)),
                    changes[at.index as int],
                )
                &&& final(state).text() == apply_all(
                    state.text(),
                    changes@.take(at.index as int),
                )
                &&& follows(*state, changes@.take(at.index as int), *final(state))
            })
            &&& changes.len() == 0 ==> *final(state) == *state
        },
{
    match entry {
        Some(state) => match state.apply_changes(changes) {
            Ok(()) => Ok(state.snapshot()),
            Err(e) => Err(StoreError::Change(e)),
        },
        None => Err(StoreError::NotOpen),
    }
}

/// The text of an entry of the store, if there is one.
pub fn entry_text(entry: Option<&PerFileState>) -> (r: Option<String>)
    ensures
        entry is None ==> r is None,
        entry matches Some(state) ==> r matches Some(text) && text@ == state.text(),
{
    match entry {
        Some(state) => Some(state.contents_string()),
        None => None,
    }
}

impl DocumentStore {
    /// A store with no document in it.
    pub fn new() -> DocumentStore {
        DocumentStore { per_file: map_new() }
    }

    /// Opens a document with `text` under `id`, in place of one that was
    /// open under it, and returns a copy of the opened document.
    pub fn open(&self, id: String, text: &str) -> (copy: PerFileState)
        ensures
            copy.is_fresh_open_of(text@),
    {
        let state = PerFileState::open(text);
        let copy = state.snapshot();
        map_insert(&self.per_file, id, state);
        copy
    }

    /// Applies `changes` to the document under `id`, with no other thread at
    /// that document meanwhile, and returns a copy of the document as the
    /// changes left it, taken before the document is let go of.
    pub fn change(&self, id: &str, changes: &Vec<ContentChange>) -> (r: Result<
        PerFileState,
        StoreError,
    >)
        ensures
            r matches Ok(copy) ==> exists|before: PerFileState, after: PerFileState|
                {
                    &&& #[trigger] follows(before, changes@, after)
                    &&& all_valid(before.text(), changes@)
                    &&& copy.same_as(after)
                },
            r matches Err(StoreError::Change(e)) ==> e.index < changes.len()
                && changes[e.index as int].range is Some,
    {
        match map_get_mut(&self.per_file, id) {
            Some(mut guard) => {
                let state = guard_state(&mut guard);
                let ghost before = *state;
                let r = change_entry(Some(&mut *state), changes);
                assert(r is Ok ==> follows(before, changes@, *state));
                r
            },
            None => change_entry(None, changes),
        }
    }

    /// The text of the document under `id`.
    pub fn text(&self, id: &str) -> Option<String> {
        match map_get(&self.per_file, id) {
            Some(guard) => entry_text(Some(guarded_state(&guard))),
            None => entry_text(None),
        }
    }

    /// Closes the document under `id`.
    pub fn close(&self, id: &str) {
        map_remove(&self.per_file, id)
    }
}

} // verus!
