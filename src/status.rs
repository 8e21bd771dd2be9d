use vstd::prelude::*;

use crate::files::{added_set, deleted_set, moved_set, pairs_of, paths_of};
use crate::lock::{Lock, LocalLock};

verus! {

/// What changed between two snapshots of a tree, and what is staged.
pub struct LockStatus {
    pub files: Vec<String>,
    pub staged: Vec<String>,
    pub to_remove: Vec<String>,
    pub moved: Vec<(String, String)>,
    pub added: Vec<String>,
    pub deleted: Vec<String>,
}

impl LockStatus {
    /// The status of `lock` against the earlier snapshot `old`.
    pub fn new(old: &LocalLock, lock: &LocalLock) -> (r: LockStatus)
        ensures
            paths_of(r.files@).to_set() == lock@.files.values(),
            paths_of(r.staged@).to_set() == lock@.add.difference(lock@.remove),
            paths_of(r.to_remove@).to_set() == lock@.remove.difference(lock@.add),
            pairs_of(r.moved@).to_set() == moved_set(lock@.files, old@.files),
            paths_of(r.added@).to_set() == added_set(lock@.files, old@.files),
            paths_of(r.deleted@).to_set() == deleted_set(lock@.files, old@.files),
    {
        LockStatus {
            files: lock.files(),
            staged: lock.staged(),
            to_remove: lock.to_remove(),
            moved: lock.moved(old),
            added: lock.added(old),
            deleted: lock.deleted(old),
        }
    }
}

} // verus!
