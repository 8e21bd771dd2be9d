use vstd::prelude::*;

verus! {

broadcast use vstd::array::group_array_axioms, vstd::seq_lib::lemma_seq_contains_after_push;

/// A 32-byte content digest.
pub type ContentHash = [u8; 32];

/// The BLAKE3 digest of a byte string.
pub uninterp spec fn blake3_of(bytes: Seq<u8>) -> ContentHash;

/// Relies on `blake3::hash`: the 32-byte BLAKE3 digest of the input, which
/// depends on the input bytes alone.
#[verifier::external_body]
fn hash_bytes(bytes: &[u8]) -> (r: ContentHash)
    ensures
        r == blake3_of(bytes@),
{
    *blake3::hash(bytes).as_bytes()
}

/// Compares two digests byte by byte.
pub fn hash_eq(a: &ContentHash, b: &ContentHash) -> (r: bool)
    ensures
        r == (*a == *b),
{
    let mut i: usize = 0;
    while i < 32
        invariant
            0 <= i <= 32,
            forall|j: int| 0 <= j < i ==> a[j] == b[j],
        decreases 32 - i,
    {
        if a[i] != b[i] {
            return false;
        }
        i = i + 1;
    }
    assert(*a =~= *b);
    true
}

/// Paths of a list of paths.
pub open spec fn paths_of(s: Seq<String>) -> Seq<Seq<char>> {
    s.map_values(|p: String| p@)
}

/// Path pairs of a list of path pairs.
pub open spec fn pairs_of(s: Seq<(String, String)>) -> Seq<(Seq<char>, Seq<char>)> {
    s.map_values(|p: (String, String)| (p.0@, p.1@))
}

/// The mapping that results from recording each `(hash, path)` in order,
/// a later path replacing an earlier one under the same hash.
pub open spec fn map_of_entries(s: Seq<(ContentHash, String)>) -> Map<ContentHash, Seq<char>>
    decreases s.len(),
{
    if s.len() == 0 {
        Map::empty()
    } else {
        map_of_entries(s.drop_last()).insert(s.last().0, s.last().1@)
    }
}

/// The mapping that a scan builds from files met in order, each given as its
/// path and its content: the last file met with a given content wins.
pub open spec fn scan_map(s: Seq<(String, Vec<u8>)>) -> Map<ContentHash, Seq<char>>
    decreases s.len(),
{
    if s.len() == 0 {
        Map::empty()
    } else {
        scan_map(s.drop_last()).insert(blake3_of(s.last().1@), s.last().0@)
    }
}

/// Pairs `(path in other, path in own)` of the hashes that both mappings hold
/// at different paths.
pub open spec fn moved_set(own: Map<ContentHash, Seq<char>>, other: Map<ContentHash, Seq<char>>) -> Set<
    (Seq<char>, Seq<char>),
> {
    Set::new(
        |pr: (Seq<char>, Seq<char>)|
            exists|h: ContentHash|
                #![trigger own[h], other[h]]
                own.contains_key(h) && other.contains_key(h) && own[h] != other[h] && pr == (
                    other[h],
                    own[h],
                ),
    )
}

/// Paths, as recorded in `other`, of the hashes that `own` lacks.
pub open spec fn deleted_set(own: Map<ContentHash, Seq<char>>, other: Map<ContentHash, Seq<char>>) -> Set<
    Seq<char>,
> {
    Set::new(
        |p: Seq<char>|
            exists|h: ContentHash| #![trigger other[h]] other.contains_key(h) && !own.contains_key(h) && p == other[h],
    )
}

/// Paths, as recorded in `own`, of the hashes that `other` lacks.
pub open spec fn added_set(own: Map<ContentHash, Seq<char>>, other: Map<ContentHash, Seq<char>>) -> Set<
    Seq<char>,
> {
    Set::new(
        |p: Seq<char>|
            exists|h: ContentHash| #![trigger own[h]] own.contains_key(h) && !other.contains_key(h) && p == own[h],
    )
}

spec fn keys_unique(s: Seq<(ContentHash, String)>) -> bool {
    forall|i: int, j: int| 0 <= i < s.len() && 0 <= j < s.len() && i != j ==> s[i].0 != s[j].0
}

spec fn has_key(s: Seq<(ContentHash, String)>, h: ContentHash) -> bool {
    exists|i: int| 0 <= i < s.len() && #[trigger] s[i].0 == h
}

spec fn view_of(s: Seq<(ContentHash, String)>) -> Map<ContentHash, Seq<char>> {
    Map::new(
        |h: ContentHash| has_key(s, h),
        |h: ContentHash| s[choose|i: int| 0 <= i < s.len() && #[trigger] s[i].0 == h].1@,
    )
}

proof fn lemma_view_at(s: Seq<(ContentHash, String)>, i: int)
    requires
        keys_unique(s),
        0 <= i < s.len(),
    ensures
        view_of(s).contains_key(s[i].0),
        view_of(s)[s[i].0] == s[i].1@,
{
    assert(has_key(s, s[i].0));
}

proof fn lemma_view_all(s: Seq<(ContentHash, String)>)
    requires
        keys_unique(s),
    ensures
        forall|i: int|
            0 <= i < s.len() ==> view_of(s).contains_key(#[trigger] s[i].0) && view_of(s)[s[i].0]
                == s[i].1@,
        forall|h: ContentHash|
            view_of(s).contains_key(h) ==> exists|i: int| 0 <= i < s.len() && #[trigger] s[i].0 == h,
{
    assert forall|i: int| 0 <= i < s.len() implies view_of(s).contains_key(#[trigger] s[i].0)
        && view_of(s)[s[i].0] == s[i].1@ by {
        lemma_view_at(s, i);
    }
}

/// A mapping from content hash to path: each hash maps to exactly one path.
pub struct FileMap {
    entries: Vec<(ContentHash, String)>,
}

impl View for FileMap {
    type V = Map<ContentHash, Seq<char>>;

    closed spec fn view(&self) -> Map<ContentHash, Seq<char>> {
        view_of(self.entries@)
    }
}

impl FileMap {
    #[verifier::type_invariant]
    spec fn inv(&self) -> bool {
        keys_unique(self.entries@)
    }

    /// An empty mapping.
    pub fn new() -> (r: FileMap)
        ensures
            r@ == Map::<ContentHash, Seq<char>>::empty(),
    {
        let r = FileMap { entries: Vec::new() };
        assert(r@ =~= Map::<ContentHash, Seq<char>>::empty());
        r
    }

    fn find(&self, h: &ContentHash) -> (r: Option<usize>)
        ensures
            match r {
                Some(i) => i < self.entries@.len() && self.entries@[i as int].0 == *h,
                None => !self@.contains_key(*h),
            },
    {
        let mut i: usize = 0;
        while i < self.entries.len()
            invariant
                0 <= i <= self.entries@.len(),
                forall|j: int| 0 <= j < i ==> self.entries@[j].0 != *h,
            decreases self.entries@.len() - i,
        {
            if hash_eq(&self.entries[i].0, h) {
                return Some(i);
            }
            i = i + 1;
        }
        None
    }

    /// The path recorded under `h`, if any.
    pub fn get(&self, h: &ContentHash) -> (r: Option<&String>)
        ensures
            match r {
                Some(p) => self@.contains_key(*h) && p@ == self@[*h],
                None => !self@.contains_key(*h),
            },
    {
        proof {
            use_type_invariant(self);
        }
        match self.find(h) {
            Some(i) => {
                proof {
                    lemma_view_at(self.entries@, i as int);
                }
                Some(&self.entries[i].1)
            },
            None => None,
        }
    }

    /// Records `path` under `h`, replacing the path recorded there before.
    pub fn insert(&mut self, h: ContentHash, path: String)
        ensures
            final(self)@ == old(self)@.insert(h, path@),
    {
        proof {
            use_type_invariant(&*self);
        }
        let ghost old_entries = self.entries@;
        let found = self.find(&h);
        let mut es: Vec<(ContentHash, String)> = Vec::new();
        std::mem::swap(&mut self.entries, &mut es);
        match found {
            Some(i) => {
                es.set(i, (h, path));
                proof {
                    let s = es@;
                    assert(keys_unique(s));
                    lemma_view_all(old_entries);
                    lemma_view_all(s);
                    assert forall|k: ContentHash| #[trigger] has_key(s, k) <==> has_key(old_entries, k) by {
                        if has_key(s, k) {
                            let j = choose|j: int| 0 <= j < s.len() && #[trigger] s[j].0 == k;
                            assert(old_entries[j].0 == k);
                        }
                        if has_key(old_entries, k) {
                            let j = choose|j: int| 0 <= j < s.len() && #[trigger] old_entries[j].0 == k;
                            assert(s[j].0 == k);
                        }
                    }
                    assert(view_of(s) =~= view_of(old_entries).insert(h, path@));
                }
            },
            None => {
                es.push((h, path));
                proof {
                    let s = es@;
                    assert(keys_unique(s)) by {
                        lemma_view_all(old_entries);
                    }
                    lemma_view_all(old_entries);
                    lemma_view_all(s);
                    assert(s[s.len() - 1].0 == h);
                    assert forall|k: ContentHash| #[trigger] has_key(s, k) <==> (has_key(old_entries, k) || k == h) by {
                        if has_key(s, k) {
                            let j = choose|j: int| 0 <= j < s.len() && #[trigger] s[j].0 == k;
                            if j < old_entries.len() {
                                assert(old_entries[j].0 == k);
                            }
                        }
                        if has_key(old_entries, k) {
                            let j = choose|j: int| 0 <= j < old_entries.len() && #[trigger] old_entries[j].0 == k;
                            assert(s[j].0 == k);
                        }
                    }
                    assert(view_of(s) =~= view_of(old_entries).insert(h, path@));
                }
            },
        }
        std::mem::swap(&mut self.entries, &mut es);
    }
}


spec fn moved_entry(e: (ContentHash, String), other: Map<ContentHash, Seq<char>>, pr: (Seq<char>, Seq<char>)) -> bool {
    other.contains_key(e.0) && other[e.0] != e.1@ && pr == (other[e.0], e.1@)
}

spec fn absent_entry(e: (ContentHash, String), other: Map<ContentHash, Seq<char>>, p: Seq<char>) -> bool {
    !other.contains_key(e.0) && p == e.1@
}

impl FileMap {
    /// Moved files: for each hash present in both mappings at different
    /// paths, the pair (path in `other`, path in `self`).
    pub fn moved(&self, other: &FileMap) -> (r: Vec<(String, String)>)
        ensures
            pairs_of(r@).to_set() == moved_set(self@, other@),
    {
        proof {
            use_type_invariant(self);
            use_type_invariant(other);
            lemma_view_all(self.entries@);
            lemma_view_all(other.entries@);
        }
        let mut r: Vec<(String, String)> = Vec::new();
        let mut i: usize = 0;
        while i < self.entries.len()
            invariant
                0 <= i <= self.entries@.len(),
                keys_unique(other.entries@),
                forall|pr| #[trigger] pairs_of(r@).contains(pr) <==> exists|j: int|
                    0 <= j < i && moved_entry(#[trigger] self.entries@[j], other@, pr),
            decreases self.entries@.len() - i,
        {
            let e = &self.entries[i];
            match other.find(&e.0) {
                Some(k) => {
                    proof {
                        lemma_view_at(other.entries@, k as int);
                    }
                    let q = &other.entries[k].1;
                    if !q.eq(&e.1) {
                        let ghost old_r = r@;
                        r.push((q.clone(), e.1.clone()));
                        proof {
                            let x = (q@, e.1@);
                            assert(pairs_of(r@) =~= pairs_of(old_r).push(x));
                            assert forall|pr| #[trigger] pairs_of(r@).contains(pr) <==> exists|j: int|
                                0 <= j < i + 1 && moved_entry(#[trigger] self.entries@[j], other@, pr) by {
                                if pr == x {
                                    assert(moved_entry(self.entries@[i as int], other@, pr));
                                }
                                if exists|j: int| 0 <= j < i + 1 && moved_entry(#[trigger] self.entries@[j], other@, pr) {
                                    let j = choose|j: int| 0 <= j < i + 1 && moved_entry(#[trigger] self.entries@[j], other@, pr);
                                    if j < i {
                                        assert(pairs_of(old_r).contains(pr));
                                    }
                                }
                            }
                        }
                    } else {
                        proof {
                            assert forall|pr| #[trigger] pairs_of(r@).contains(pr) <==> exists|j: int|
                                0 <= j < i + 1 && moved_entry(#[trigger] self.entries@[j], other@, pr) by {
                                if exists|j: int| 0 <= j < i + 1 && moved_entry(#[trigger] self.entries@[j], other@, pr) {
                                    let j = choose|j: int| 0 <= j < i + 1 && moved_entry(#[trigger] self.entries@[j], other@, pr);
                                    assert(j < i);
                                }
                            }
                        }
                    }
                },
                None => {
                    proof {
                        assert forall|pr| #[trigger] pairs_of(r@).contains(pr) <==> exists|j: int|
                            0 <= j < i + 1 && moved_entry(#[trigger] self.entries@[j], other@, pr) by {
                            if exists|j: int| 0 <= j < i + 1 && moved_entry(#[trigger] self.entries@[j], other@, pr) {
                                let j = choose|j: int| 0 <= j < i + 1 && moved_entry(#[trigger] self.entries@[j], other@, pr);
                                assert(j < i);
                            }
                        }
                    }
                },
            }
            i = i + 1;
        }
        proof {
            assert forall|pr| #[trigger] pairs_of(r@).to_set().contains(pr) <==> moved_set(self@, other@).contains(pr) by {
                if pairs_of(r@).contains(pr) {
                    let j = choose|j: int| 0 <= j < self.entries@.len() && moved_entry(#[trigger] self.entries@[j], other@, pr);
                    let h = self.entries@[j].0;
                    assert(self@[h] == self.entries@[j].1@);
                    assert(self@.contains_key(h) && other@.contains_key(h) && self@[h] != other@[h] && pr == (other@[h], self@[h]));
                }
                if moved_set(self@, other@).contains(pr) {
                    let h = choose|h: ContentHash| #![trigger self@[h], other@[h]] self@.contains_key(h) && other@.contains_key(h) && self@[h] != other@[h] && pr == (other@[h], self@[h]);
                    let j = choose|j: int| 0 <= j < self.entries@.len() && #[trigger] self.entries@[j].0 == h;
                    assert(moved_entry(self.entries@[j], other@, pr));
                }
            }
            assert(pairs_of(r@).to_set() =~= moved_set(self@, other@));
        }
        r
    }

    /// The paths of `self` whose hashes `other` lacks; as a list, in the
    /// order of `self`'s entries.
    fn absent_from(&self, other: &FileMap) -> (r: Vec<String>)
        ensures
            paths_of(r@).to_set() == added_set(self@, other@),
    {
        proof {
            use_type_invariant(self);
            use_type_invariant(other);
            lemma_view_all(self.entries@);
        }
        let mut r: Vec<String> = Vec::new();
        let mut i: usize = 0;
        while i < self.entries.len()
            invariant
                0 <= i <= self.entries@.len(),
                keys_unique(other.entries@),
                forall|p| #[trigger] paths_of(r@).contains(p) <==> exists|j: int|
                    0 <= j < i && absent_entry(#[trigger] self.entries@[j], other@, p),
            decreases self.entries@.len() - i,
        {
            let e = &self.entries[i];
            let ghost old_r = r@;
            let found = other.find(&e.0);
            if found.is_none() {
                r.push(e.1.clone());
                proof {
                    assert(paths_of(r@) =~= paths_of(old_r).push(e.1@));
                }
            }
            proof {
                assert forall|p| #[trigger] paths_of(r@).contains(p) <==> exists|j: int|
                    0 <= j < i + 1 && absent_entry(#[trigger] self.entries@[j], other@, p) by {
                    if found.is_none() && p == e.1@ {
                        assert(absent_entry(self.entries@[i as int], other@, p));
                    }
                    if exists|j: int| 0 <= j < i + 1 && absent_entry(#[trigger] self.entries@[j], other@, p) {
                        let j = choose|j: int| 0 <= j < i + 1 && absent_entry(#[trigger] self.entries@[j], other@, p);
                        if j < i {
                            assert(paths_of(old_r).contains(p));
                        } else if found.is_some() {
                            let k = found.unwrap();
                            lemma_view_at(other.entries@, k as int);
                        }
                    }
                }
            }
            i = i + 1;
        }
        proof {
            assert forall|p| #[trigger] paths_of(r@).to_set().contains(p) <==> added_set(self@, other@).contains(p) by {
                if paths_of(r@).contains(p) {
                    let j = choose|j: int| 0 <= j < self.entries@.len() && absent_entry(#[trigger] self.entries@[j], other@, p);
                    let h = self.entries@[j].0;
                    assert(self@[h] == self.entries@[j].1@);
                }
                if added_set(self@, other@).contains(p) {
                    let h = choose|h: ContentHash| #![trigger self@[h]] self@.contains_key(h) && !other@.contains_key(h) && p == self@[h];
                    let j = choose|j: int| 0 <= j < self.entries@.len() && #[trigger] self.entries@[j].0 == h;
                    assert(absent_entry(self.entries@[j], other@, p));
                }
            }
            assert(paths_of(r@).to_set() =~= added_set(self@, other@));
        }
        r
    }

    /// Added files: the paths of `self` whose hashes `other` lacks.
    pub fn added(&self, other: &FileMap) -> (r: Vec<String>)
        ensures
            paths_of(r@).to_set() == added_set(self@, other@),
    {
        self.absent_from(other)
    }

    /// Deleted files: the paths of `other` whose hashes `self` lacks.
    pub fn deleted(&self, other: &FileMap) -> (r: Vec<String>)
        ensures
            paths_of(r@).to_set() == deleted_set(self@, other@),
    {
        let r = other.absent_from(self);
        assert(added_set(other@, self@) =~= deleted_set(self@, other@));
        r
    }
}

proof fn lemma_map_of_unique(s: Seq<(ContentHash, String)>)
    requires
        keys_unique(s),
    ensures
        map_of_entries(s) == view_of(s),
    decreases s.len(),
{
    if s.len() > 0 {
        let t = s.drop_last();
        assert(keys_unique(t));
        lemma_map_of_unique(t);
        lemma_view_all(s);
        lemma_view_all(t);
        let l = s[s.len() - 1];
        assert forall|k: ContentHash| #[trigger] has_key(s, k) <==> (has_key(t, k) || k == l.0) by {
            if has_key(s, k) {
                let j = choose|j: int| 0 <= j < s.len() && #[trigger] s[j].0 == k;
                if j < t.len() {
                    assert(t[j].0 == k);
                }
            }
            if has_key(t, k) {
                let j = choose|j: int| 0 <= j < t.len() && #[trigger] t[j].0 == k;
                assert(s[j].0 == k);
            }
        }
        assert(view_of(s) =~= view_of(t).insert(l.0, l.1@));
    }
}

impl FileMap {
    /// Hashes each file, given as its path and its content, in order, and
    /// records its path under its hash: of two files with the same content,
    /// the later one wins.
    pub fn hashed_files(files: &Vec<(String, Vec<u8>)>) -> (r: FileMap)
        ensures
            r@ == scan_map(files@),
    {
        let mut m = FileMap::new();
        let mut i: usize = 0;
        while i < files.len()
            invariant
                0 <= i <= files@.len(),
                m@ == scan_map(files@.take(i as int)),
            decreases files@.len() - i,
        {
            let h = hash_bytes(files[i].1.as_slice());
            m.insert(h, files[i].0.clone());
            assert(files@.take(i + 1).drop_last() =~= files@.take(i as int));
            i = i + 1;
        }
        assert(files@.take(files@.len() as int) =~= files@);
        m
    }

    /// Builds a mapping from `(hash, path)` entries taken in order: a later
    /// path replaces an earlier one under the same hash.
    pub fn from_entries(entries: &Vec<(ContentHash, String)>) -> (r: FileMap)
        ensures
            r@ == map_of_entries(entries@),
    {
        let mut m = FileMap::new();
        let mut i: usize = 0;
        while i < entries.len()
            invariant
                0 <= i <= entries@.len(),
                m@ == map_of_entries(entries@.take(i as int)),
            decreases entries@.len() - i,
        {
            m.insert(entries[i].0, entries[i].1.clone());
            assert(entries@.take(i + 1).drop_last() =~= entries@.take(i as int));
            i = i + 1;
        }
        assert(entries@.take(entries@.len() as int) =~= entries@);
        m
    }

    /// The `(hash, path)` entries of the mapping, each hash once.
    pub fn to_entries(&self) -> (r: Vec<(ContentHash, String)>)
        ensures
            map_of_entries(r@) == self@,
    {
        proof {
            use_type_invariant(self);
        }
        let mut r: Vec<(ContentHash, String)> = Vec::new();
        let mut i: usize = 0;
        while i < self.entries.len()
            invariant
                0 <= i <= self.entries@.len(),
                r@.len() == i,
                forall|j: int| 0 <= j < i ==> #[trigger] r@[j] == self.entries@[j],
            decreases self.entries@.len() - i,
        {
            r.push((self.entries[i].0, self.entries[i].1.clone()));
            i = i + 1;
        }
        proof {
            assert(r@ =~= self.entries@);
            lemma_map_of_unique(self.entries@);
        }
        r
    }

    /// The recorded paths, each entry once.
    pub fn paths(&self) -> (r: Vec<String>)
        ensures
            paths_of(r@).to_set() == self@.values(),
    {
        proof {
            use_type_invariant(self);
            lemma_view_all(self.entries@);
        }
        let mut r: Vec<String> = Vec::new();
        let mut i: usize = 0;
        while i < self.entries.len()
            invariant
                0 <= i <= self.entries@.len(),
                r@.len() == i,
                forall|j: int| 0 <= j < i ==> #[trigger] r@[j] == self.entries@[j].1,
            decreases self.entries@.len() - i,
        {
            r.push(self.entries[i].1.clone());
            i = i + 1;
        }
        proof {
            assert forall|p| #[trigger] paths_of(r@).to_set().contains(p) <==> self@.values().contains(p) by {
                if paths_of(r@).contains(p) {
                    let j = choose|j: int| 0 <= j < r@.len() && #[trigger] paths_of(r@)[j] == p;
                    assert(self@[self.entries@[j].0] == p);
                }
                if self@.values().contains(p) {
                    let h = choose|h: ContentHash| #[trigger] self@.contains_key(h) && self@[h] == p;
                    let j = choose|j: int| 0 <= j < self.entries@.len() && #[trigger] self.entries@[j].0 == h;
                    assert(paths_of(r@)[j] == p);
                }
            }
            assert(paths_of(r@).to_set() =~= self@.values());
        }
        r
    }
}

/// Comparing a mapping with itself finds nothing moved, added or deleted.
pub proof fn lemma_diff_self(m: Map<ContentHash, Seq<char>>)
    ensures
        moved_set(m, m) == Set::<(Seq<char>, Seq<char>)>::empty(),
        added_set(m, m) == Set::<Seq<char>>::empty(),
        deleted_set(m, m) == Set::<Seq<char>>::empty(),
{
    assert(moved_set(m, m) =~= Set::<(Seq<char>, Seq<char>)>::empty());
    assert(added_set(m, m) =~= Set::<Seq<char>>::empty());
    assert(deleted_set(m, m) =~= Set::<Seq<char>>::empty());
}

/// The same content found at a new path is one move, from the old path to
/// the new one, and neither an addition nor a deletion.
pub proof fn lemma_move_detected(h: ContentHash, old_path: Seq<char>, new_path: Seq<char>)
    requires
        old_path != new_path,
    ensures
        moved_set(map![h => new_path], map![h => old_path]) == set![(old_path, new_path)],
        added_set(map![h => new_path], map![h => old_path]) == Set::<Seq<char>>::empty(),
        deleted_set(map![h => new_path], map![h => old_path]) == Set::<Seq<char>>::empty(),
{
    let own = map![h => new_path];
    let other = map![h => old_path];
    assert(own[h] == new_path && other[h] == old_path);
    assert(moved_set(own, other) =~= set![(old_path, new_path)]);
    assert(added_set(own, other) =~= Set::<Seq<char>>::empty());
    assert(deleted_set(own, other) =~= Set::<Seq<char>>::empty());
}

/// New content at the same path is an addition of the path and a deletion
/// of it, and no move.
pub proof fn lemma_content_change(old_hash: ContentHash, new_hash: ContentHash, path: Seq<char>)
    requires
        old_hash != new_hash,
    ensures
        added_set(map![new_hash => path], map![old_hash => path]) == set![path],
        deleted_set(map![new_hash => path], map![old_hash => path]) == set![path],
        moved_set(map![new_hash => path], map![old_hash => path]) == Set::<(Seq<char>, Seq<char>)>::empty(),
{
    let own = map![new_hash => path];
    let other = map![old_hash => path];
    assert(own[new_hash] == path && other[old_hash] == path);
    assert(added_set(own, other) =~= set![path]);
    assert(deleted_set(own, other) =~= set![path]);
    assert(moved_set(own, other) =~= Set::<(Seq<char>, Seq<char>)>::empty());
}

/// Two files with the same content collapse onto one entry of a scan, which
/// records the path of the file met last.
pub proof fn lemma_same_content_collapses(first: String, second: String, a: Vec<u8>, b: Vec<u8>)
    requires
        a@ == b@,
    ensures
        scan_map(seq![(first, a), (second, b)]) == map![blake3_of(a@) => second@],
{
    let s = seq![(first, a), (second, b)];
    assert(s.drop_last() =~= seq![(first, a)]);
    assert(s.drop_last().drop_last() =~= Seq::<(String, Vec<u8>)>::empty());
    assert(scan_map(s.drop_last().drop_last()) == Map::<ContentHash, Seq<char>>::empty());
    assert(scan_map(s.drop_last()) == Map::<ContentHash, Seq<char>>::empty().insert(blake3_of(a@), first@));
    assert(scan_map(s) == scan_map(s.drop_last()).insert(blake3_of(b@), second@));
    assert(scan_map(s) =~= map![blake3_of(a@) => second@]);
}

} // verus!
