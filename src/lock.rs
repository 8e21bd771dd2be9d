use vstd::prelude::*;

use crate::files::{
    added_set, deleted_set, map_of_entries, moved_set, pairs_of, paths_of, scan_map, FileMap, ContentHash,
};
use crate::paths::PathSet;

verus! {

/// `std::io::Error`, carried through unread as the cause of a failed read.
#[verifier::external_type_specification]
#[verifier::external_body]
pub struct ExIoError(std::io::Error);

/// Why work on a lock could not be done.
#[derive(Debug)]
pub enum LockError {
    /// Reading the tree failed.
    Io(std::io::Error),
    /// A re-scan was refused because changes are staged. `update` does not
    /// refuse: staged paths carry over to the new snapshot.
    StagedChanges,
}

/// What a snapshot exposes: a mapping from content hash to path and a
/// generation number.
pub trait Snapshot {
    /// The mapping from content hash to path.
    spec fn spec_files(&self) -> Map<ContentHash, Seq<char>>;

    /// The generation number.
    spec fn spec_generation(&self) -> usize;

    fn files_map(&self) -> (r: &FileMap)
        ensures
            r@ == self.spec_files(),
    ;

    fn generation(&self) -> (r: usize)
        ensures
            r == self.spec_generation(),
    ;
}

/// The three comparisons of a snapshot with any other.
pub trait Lock: Snapshot {
    /// Moved files: the pairs (path in `other`, path in `self`) of each hash
    /// that both hold at different paths.
    fn moved<L: Snapshot>(&self, other: &L) -> (r: Vec<(String, String)>)
        ensures
            pairs_of(r@).to_set() == moved_set(self.spec_files(), other.spec_files()),
    ;

    /// Deleted files: the paths in `other` of the hashes that `self` lacks.
    fn deleted<L: Snapshot>(&self, other: &L) -> (r: Vec<String>)
        ensures
            paths_of(r@).to_set() == deleted_set(self.spec_files(), other.spec_files()),
    ;

    /// Added files: the paths in `self` of the hashes that `other` lacks.
    fn added<L: Snapshot>(&self, other: &L) -> (r: Vec<String>)
        ensures
            paths_of(r@).to_set() == added_set(self.spec_files(), other.spec_files()),
    ;
}

/// A read-only snapshot kept for comparison.
pub struct RemoteLock {
    generation: usize,
    files: FileMap,
}

impl RemoteLock {
    /// A snapshot of the given generation and mapping.
    pub fn new(generation: usize, files: FileMap) -> (r: RemoteLock)
        ensures
            r.spec_generation() == generation,
            r.spec_files() == files@,
    {
        RemoteLock { generation, files }
    }
}

impl Snapshot for RemoteLock {
    closed spec fn spec_files(&self) -> Map<ContentHash, Seq<char>> {
        self.files@
    }

    closed spec fn spec_generation(&self) -> usize {
        self.generation
    }

    fn files_map(&self) -> (r: &FileMap) {
        &self.files
    }

    fn generation(&self) -> (r: usize) {
        self.generation
    }
}

impl Lock for RemoteLock {
    fn moved<L: Snapshot>(&self, other: &L) -> (r: Vec<(String, String)>) {
        self.files.moved(other.files_map())
    }

    fn deleted<L: Snapshot>(&self, other: &L) -> (r: Vec<String>) {
        self.files.deleted(other.files_map())
    }

    fn added<L: Snapshot>(&self, other: &L) -> (r: Vec<String>) {
        self.files.added(other.files_map())
    }
}

/// What a local snapshot holds, as mathematical values.
pub ghost struct LocalState {
    pub path: Seq<char>,
    pub generation: usize,
    pub add: Set<Seq<char>>,
    pub remove: Set<Seq<char>>,
    pub files: Map<ContentHash, Seq<char>>,
}

/// The snapshot of a working tree, with the paths staged for addition and
/// for removal.
pub struct LocalLock {
    path: String,
    generation: usize,
    remove: PathSet,
    add: PathSet,
    files: FileMap,
}

impl View for LocalLock {
    type V = LocalState;

    closed spec fn view(&self) -> LocalState {
        LocalState {
            path: self.path@,
            generation: self.generation,
            add: self.add@,
            remove: self.remove@,
            files: self.files@,
        }
    }
}

impl LocalLock {
    /// The first snapshot of the tree at `path`, from its files in the order
    /// of the walk, each given as its path and its content: generation 0,
    /// nothing staged.
    pub fn from_path(path: String, files: &Vec<(String, Vec<u8>)>) -> (r: LocalLock)
        ensures
            r@ == (LocalState {
                path: path@,
                generation: 0,
                add: Set::empty(),
                remove: Set::empty(),
                files: scan_map(files@),
            }),
    {
        let files = FileMap::hashed_files(files);
        LocalLock { path, files, generation: 0, add: PathSet::new(), remove: PathSet::new() }
    }

    /// Replaces the snapshot by a new scan of the same tree, given as for
    /// `from_path`: the generation goes up by one and the staged paths stay.
    /// Returns the snapshot as it was before.
    pub fn update(&mut self, files: &Vec<(String, Vec<u8>)>) -> (r: LocalLock)
        requires
            old(self)@.generation < usize::MAX,
        ensures
            r == *old(self),
            final(self)@ == (LocalState {
                generation: (old(self)@.generation + 1) as usize,
                files: scan_map(files@),
                ..old(self)@
            }),
    {
        let files = FileMap::hashed_files(files);
        let mut new_lock = LocalLock {
            path: self.path.clone(),
            files,
            generation: self.generation + 1,
            add: self.add.copied(),
            remove: self.remove.copied(),
        };
        std::mem::swap(self, &mut new_lock);
        new_lock
    }

    /// The paths of the snapshot's files.
    pub fn files(&self) -> (r: Vec<String>)
        ensures
            paths_of(r@).to_set() == self@.files.values(),
    {
        self.files.paths()
    }

    /// Stages `path` for removal; true when it was not staged for removal
    /// before.
    pub fn stage_remove(&mut self, path: String) -> (r: bool)
        ensures
            r == !old(self)@.remove.contains(path@),
            final(self)@ == (LocalState { remove: old(self)@.remove.insert(path@), ..old(self)@ }),
    {
        self.remove.insert(path)
    }

    /// Stages `path` for addition; true when it was not staged for addition
    /// before.
    pub fn stage_add(&mut self, path: String) -> (r: bool)
        ensures
            r == !old(self)@.add.contains(path@),
            final(self)@ == (LocalState { add: old(self)@.add.insert(path@), ..old(self)@ }),
    {
        self.add.insert(path)
    }

    /// The paths to push: staged for addition and not for removal, each once.
    pub fn staged(&self) -> (r: Vec<String>)
        ensures
            paths_of(r@).no_duplicates(),
            paths_of(r@).to_set() == self@.add.difference(self@.remove),
    {
        self.add.difference(&self.remove)
    }

    /// The paths to remove: staged for removal and not for addition, each
    /// once.
    pub fn to_remove(&self) -> (r: Vec<String>)
        ensures
            paths_of(r@).no_duplicates(),
            paths_of(r@).to_set() == self@.remove.difference(self@.add),
    {
        self.remove.difference(&self.add)
    }
}

impl Snapshot for LocalLock {
    open spec fn spec_files(&self) -> Map<ContentHash, Seq<char>> {
        self@.files
    }

    open spec fn spec_generation(&self) -> usize {
        self@.generation
    }

    fn files_map(&self) -> (r: &FileMap) {
        &self.files
    }

    fn generation(&self) -> (r: usize) {
        self.generation
    }
}

impl Lock for LocalLock {
    fn moved<L: Snapshot>(&self, other: &L) -> (r: Vec<(String, String)>) {
        self.files.moved(other.files_map())
    }

    fn deleted<L: Snapshot>(&self, other: &L) -> (r: Vec<String>) {
        self.files.deleted(other.files_map())
    }

    fn added<L: Snapshot>(&self, other: &L) -> (r: Vec<String>) {
        self.files.added(other.files_map())
    }
}

impl LocalLock {
    /// A snapshot rebuilt from its parts: the root, the generation, the paths
    /// staged for addition and for removal, and the `(hash, path)` entries
    /// (a later path replaces an earlier one under the same hash).
    pub fn from_parts(
        path: String,
        generation: usize,
        add: &Vec<String>,
        remove: &Vec<String>,
        files: &Vec<(ContentHash, String)>,
    ) -> (r: LocalLock)
        ensures
            r@ == parts_state(path@, generation, add@, remove@, files@),
    {
        LocalLock {
            path,
            generation,
            add: PathSet::from_vec(add),
            remove: PathSet::from_vec(remove),
            files: FileMap::from_entries(files),
        }
    }

    /// The root of the tree.
    pub fn path(&self) -> (r: &String)
        ensures
            r@ == self@.path,
    {
        &self.path
    }

    /// The paths staged for addition, each once, whether or not they are also
    /// staged for removal.
    pub fn added_paths(&self) -> (r: Vec<String>)
        ensures
            paths_of(r@).no_duplicates(),
            paths_of(r@).to_set() == self@.add,
    {
        self.add.to_vec()
    }

    /// The paths staged for removal, each once, whether or not they are also
    /// staged for addition.
    pub fn removed_paths(&self) -> (r: Vec<String>)
        ensures
            paths_of(r@).no_duplicates(),
            paths_of(r@).to_set() == self@.remove,
    {
        self.remove.to_vec()
    }
}

/// The state of a snapshot built from its parts.
pub open spec fn parts_state(
    path: Seq<char>,
    generation: usize,
    add: Seq<String>,
    remove: Seq<String>,
    files: Seq<(ContentHash, String)>,
) -> LocalState {
    LocalState {
        path,
        generation,
        add: paths_of(add).to_set(),
        remove: paths_of(remove).to_set(),
        files: map_of_entries(files),
    }
}

/// Taking a snapshot apart (its root, generation, staged paths and entries,
/// as `path`, `generation`, `added_paths`, `removed_paths` and
/// `to_entries` give them) and building it again from those parts gives the
/// same snapshot.
pub proof fn lemma_parts_round_trip(
    s: LocalState,
    path: Seq<char>,
    generation: usize,
    add: Seq<String>,
    remove: Seq<String>,
    files: Seq<(ContentHash, String)>,
)
    requires
        path == s.path,
        generation == s.generation,
        paths_of(add).to_set() == s.add,
        paths_of(remove).to_set() == s.remove,
        map_of_entries(files) == s.files,
    ensures
        parts_state(path, generation, add, remove, files) == s,
{
}

/// A path staged both for addition and for removal is neither to be pushed
/// nor to be removed.
pub proof fn lemma_staging_cancels(s: LocalState, p: Seq<char>)
    ensures
        ({
            let t = LocalState { add: s.add.insert(p), remove: s.remove.insert(p), ..s };
            !t.add.difference(t.remove).contains(p) && !t.remove.difference(t.add).contains(p)
        }),
{
}

/// Staging a path for addition twice stages it as once; and in any list of
/// the paths to push without repeats, it then stands exactly once.
pub proof fn lemma_stage_add_idempotent(s: LocalState, p: Seq<char>, staged: Seq<Seq<char>>)
    requires
        !s.remove.contains(p),
        staged.no_duplicates(),
        staged.to_set() == s.add.insert(p).insert(p).difference(s.remove),
    ensures
        s.add.insert(p).insert(p) == s.add.insert(p),
        exists|i: int| 0 <= i < staged.len() && staged[i] == p,
        forall|i: int, j: int|
            0 <= i < staged.len() && 0 <= j < staged.len() && staged[i] == p && staged[j] == p ==> i
                == j,
{
    assert(s.add.insert(p).insert(p) =~= s.add.insert(p));
    assert(staged.to_set().contains(p));
}

} // verus!
