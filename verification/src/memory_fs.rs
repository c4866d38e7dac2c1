use vstd::prelude::*;
use vstd::hash_map::StringHashMap;
use vstd::hash_set::StringHashSet;
use vstd::slice::slice_to_vec;
use crate::errors::FsError;

verus! {

/// The mathematical state of the in-memory backend: a mapping from the text
/// of a normalized path to the byte content filed under it, and the set of
/// paths recorded as directories.
pub struct StoreModel {
    pub files: Map<Seq<char>, Seq<u8>>,
    pub dirs: Set<Seq<char>>,
}

/// The byte-sequence abstraction of a raw file table.
pub open spec fn bytes_model(m: Map<Seq<char>, Vec<u8>>) -> Map<Seq<char>, Seq<u8>> {
    m.map_values(|v: Vec<u8>| v@)
}

/// What a read of `path` observes in a file table: the content filed under
/// the path, or nothing when the table has no record of it.
pub open spec fn spec_read(files: Map<Seq<char>, Seq<u8>>, path: Seq<char>) -> Option<Seq<u8>> {
    if files.contains_key(path) {
        Some(files[path])
    } else {
        None
    }
}

/// What an entry is, as reported by a metadata query.
#[derive(Clone, Copy, Debug, PartialEq, Eq, Structural)]
pub enum EntryKind {
    File,
    Directory,
}

/// Entry kind and size, the result of a metadata query.
#[derive(Clone, Copy, Debug, PartialEq, Eq, Structural)]
pub struct FileMetadata {
    pub kind: EntryKind,
    pub size: usize,
}

/// The in-memory storage backend: hermetic, deterministic storage for tests
/// and for sandboxed builds that must not touch the real disk.
///
/// Writes are deliberately permissive — a write never checks that the parent
/// directory was created, unlike the real-disk backend's stricter directory
/// handling. The store is optimized for collecting build artifacts, not for
/// faithful filesystem emulation, and this asymmetry can mask real-filesystem
/// errors if a build is only ever tested against this backend.
///
/// The store keys files by the owned, comparable text of a normalized path;
/// callers resolve any surface representation before handing a path in. The
/// layer that shares one store across callers and across blocking and
/// suspending call sites holds it behind a single lock; the operations here
/// describe what any one serialized operation does to the state.
pub struct MockFileSystem {
    files: StringHashMap<Vec<u8>>,
    file_order: Vec<String>,
    dirs: StringHashSet,
}

impl View for MockFileSystem {
    type V = StoreModel;

    closed spec fn view(&self) -> StoreModel {
        StoreModel { files: bytes_model(self.files@), dirs: self.dirs@ }
    }
}

impl MockFileSystem {
    /// The file table and the insertion-order record agree: the record lists
    /// each filed path exactly once.
    pub closed spec fn wf(&self) -> bool {
        &&& (forall|i: int, j: int|
            0 <= i < j < self.file_order@.len() ==> (#[trigger] self.file_order@[i]@)
                != (#[trigger] self.file_order@[j]@))
        &&& (forall|i: int|
            0 <= i < self.file_order@.len() ==> self.files@.contains_key(
                #[trigger] self.file_order@[i]@,
            ))
        &&& (forall|k: Seq<char>|
            #[trigger] self.files@.contains_key(k) ==> exists|i: int|
                0 <= i < self.file_order@.len() && (#[trigger] self.file_order@[i]@) == k)
    }

    /// An empty store: no files, no directories.
    pub fn new() -> (r: MockFileSystem)
        ensures
            r@.files == Map::<Seq<char>, Seq<u8>>::empty(),
            r@.dirs == Set::<Seq<char>>::empty(),
            r.wf(),
    {
        let r = MockFileSystem {
            files: StringHashMap::new(),
            file_order: Vec::new(),
            dirs: StringHashSet::new(),
        };
        proof {
            assert(bytes_model(r.files@) =~= Map::<Seq<char>, Seq<u8>>::empty());
        }
        r
    }

    /// Blocking-writable capability: file `data` under `path`, replacing any
    /// existing entry wholesale. Always succeeds; no parent-directory check
    /// is made.
    pub fn write(&mut self, path: &str, data: &[u8]) -> (r: Result<(), FsError>)
        requires
            old(self).wf(),
        ensures
            final(self)@.files == old(self)@.files.insert(path@, data@),
            final(self)@.dirs == old(self)@.dirs,
            final(self).wf(),
            r is Ok,
    {
        let ghost pre = *self;
        if !self.files.contains_key(path) {
            self.file_order.push(path.to_owned());
        }
        let content: Vec<u8> = slice_to_vec(data);
        self.files.insert(path.to_owned(), content);
        proof {
            assert(self@.files =~= pre@.files.insert(path@, data@));
            let order = self.file_order@;
            if !pre.files@.contains_key(path@) {
                assert forall|i: int, j: int| 0 <= i < j < order.len() implies (
                #[trigger] order[i]@) != (#[trigger] order[j]@) by {
                    if j == order.len() - 1 {
                        assert(pre.files@.contains_key(order[i]@));
                    }
                }
            }
            assert forall|k: Seq<char>| #[trigger] self.files@.contains_key(k) implies exists|
                i: int,
            | 0 <= i < order.len() && (#[trigger] order[i]@) == k by {
                if k == path@ && !pre.files@.contains_key(path@) {
                    assert(order[order.len() - 1]@ == k);
                } else {
                    let i = choose|i: int|
                        0 <= i < pre.file_order@.len() && (#[trigger] pre.file_order@[i]@) == k;
                    assert(order[i]@ == k);
                }
            }
        }
        Ok(())
    }

    /// Blocking-readable capability: the content filed under `path`, exactly
    /// and never partially, or `NotFound` when the store has no record of it.
    pub fn read(&self, path: &str) -> (r: Result<Vec<u8>, FsError>)
        ensures
            match r {
                Ok(data) => spec_read(self@.files, path@) == Some(data@),
                Err(e) => spec_read(self@.files, path@) is None && e == FsError::NotFound,
            },
    {
        match self.files.get(path) {
            Some(v) => {
                let data = copy_bytes(v);
                Ok(data)
            },
            None => Err(FsError::NotFound),
        }
    }

    /// Whether a file is filed under `path`.
    pub fn contains_file(&self, path: &str) -> (r: bool)
        ensures
            r == self@.files.contains_key(path@),
    {
        self.files.contains_key(path)
    }

    /// Record that the directory `path` exists. The in-memory backend merely
    /// records the entry: creation never fails here, even when intermediate
    /// segments were never created.
    pub fn create_dir(&mut self, path: &str) -> (r: Result<(), FsError>)
        requires
            old(self).wf(),
        ensures
            final(self)@.dirs == old(self)@.dirs.insert(path@),
            final(self)@.files == old(self)@.files,
            final(self).wf(),
            r is Ok,
    {
        self.dirs.insert(path.to_owned());
        proof {
            assert(self.files == old(self).files);
            assert(self.file_order == old(self).file_order);
            assert(self.wf());
        }
        Ok(())
    }

    /// Record that the directory `path` and its intermediate segments exist.
    /// Like `create_dir`, the in-memory backend merely records the one entry
    /// and never fails.
    pub fn create_dir_all(&mut self, path: &str) -> (r: Result<(), FsError>)
        requires
            old(self).wf(),
        ensures
            final(self)@.dirs == old(self)@.dirs.insert(path@),
            final(self)@.files == old(self)@.files,
            final(self).wf(),
            r is Ok,
    {
        self.dirs.insert(path.to_owned());
        proof {
            assert(self.files == old(self).files);
            assert(self.file_order == old(self).file_order);
            assert(self.wf());
        }
        Ok(())
    }

    /// Remove the file under `path`. Absence of the target is success, not an
    /// error: deletions are best-effort cleanup.
    pub fn remove_file(&mut self, path: &str) -> (r: Result<(), FsError>)
        requires
            old(self).wf(),
        ensures
            final(self)@.files == old(self)@.files.remove(path@),
            final(self)@.dirs == old(self)@.dirs,
            final(self).wf(),
            r is Ok,
    {
        let ghost pre = *self;
        if self.files.contains_key(path) {
            self.files.remove(path);
            let needle: String = path.to_owned();
            let found = index_of_text(&self.file_order, &needle);
            let i = match found {
                Some(i) => i,
                None => {
                    proof {
                        assert(pre.files@.contains_key(path@));
                        let j = choose|j: int|
                            0 <= j < pre.file_order@.len() && (#[trigger] pre.file_order@[j]@)
                                == path@;
                        assert(false);
                    }
                    unreached()
                },
            };
            let ghost idx = i as int;
            self.file_order.remove(i);
            proof {
                assert(pre.file_order@[idx]@ == path@);
                pre.file_order@.remove_ensures(idx);
                let order = self.file_order@;
                assert forall|a: int, b: int| 0 <= a < b < order.len() implies (
                #[trigger] order[a]@) != (#[trigger] order[b]@) by {
                    let ra = if a < idx {
                        a
                    } else {
                        a + 1
                    };
                    let rb = if b < idx {
                        b
                    } else {
                        b + 1
                    };
                    assert(order[a] == pre.file_order@[ra]);
                    assert(order[b] == pre.file_order@[rb]);
                }
                assert forall|a: int| 0 <= a < order.len() implies self.files@.contains_key(
                    #[trigger] order[a]@,
                ) by {
                    let ra = if a < idx {
                        a
                    } else {
                        a + 1
                    };
                    assert(order[a] == pre.file_order@[ra]);
                    if ra != idx {
                        assert(pre.file_order@[ra]@ != pre.file_order@[idx]@);
                    }
                }
                assert forall|k: Seq<char>| #[trigger] self.files@.contains_key(k) implies exists|
                    a: int,
                | 0 <= a < order.len() && (#[trigger] order[a]@) == k by {
                    assert(pre.files@.contains_key(k) && k != path@);
                    let j = choose|j: int|
                        0 <= j < pre.file_order@.len() && (#[trigger] pre.file_order@[j]@) == k;
                    assert(j != idx);
                    let a = if j < idx {
                        j
                    } else {
                        j - 1
                    };
                    assert(order[a] == pre.file_order@[j]);
                }
                assert(self@.files =~= pre@.files.remove(path@));
            }
        } else {
            proof {
                assert(self@.files =~= pre@.files.remove(path@));
            }
        }
        Ok(())
    }

    /// Remove the directory entry under `path`. Absence of the target is
    /// success, not an error: deletions are best-effort cleanup.
    pub fn remove_dir_all(&mut self, path: &str) -> (r: Result<(), FsError>)
        requires
            old(self).wf(),
        ensures
            final(self)@.dirs == old(self)@.dirs.remove(path@),
            final(self)@.files == old(self)@.files,
            final(self).wf(),
            r is Ok,
    {
        self.dirs.remove(path);
        proof {
            assert(self.files == old(self).files);
            assert(self.file_order == old(self).file_order);
            assert(self.wf());
        }
        Ok(())
    }

    /// Blocking-readable capability: entry kind and size. A filed path is a
    /// file of its content's size; a recorded directory is a directory of
    /// size zero; a path that is both reports the file. Anything else is
    /// `NotFound`.
    pub fn metadata(&self, path: &str) -> (r: Result<FileMetadata, FsError>)
        ensures
            match r {
                Ok(m) => if self@.files.contains_key(path@) {
                    m.kind == EntryKind::File && m.size == self@.files[path@].len()
                } else {
                    self@.dirs.contains(path@) && m.kind == EntryKind::Directory && m.size == 0
                },
                Err(e) => !self@.files.contains_key(path@) && !self@.dirs.contains(path@) && e
                    == FsError::NotFound,
            },
    {
        match self.files.get(path) {
            Some(v) => Ok(FileMetadata { kind: EntryKind::File, size: v.len() }),
            None => {
                if self.dirs.contains(path) {
                    Ok(FileMetadata { kind: EntryKind::Directory, size: 0 })
                } else {
                    Err(FsError::NotFound)
                }
            },
        }
    }

    /// Metadata without following links. The in-memory store holds no
    /// symbolic links, so this observes exactly what `metadata` observes.
    pub fn symlink_metadata(&self, path: &str) -> (r: Result<FileMetadata, FsError>)
        ensures
            match r {
                Ok(m) => if self@.files.contains_key(path@) {
                    m.kind == EntryKind::File && m.size == self@.files[path@].len()
                } else {
                    self@.dirs.contains(path@) && m.kind == EntryKind::Directory && m.size == 0
                },
                Err(e) => !self@.files.contains_key(path@) && !self@.dirs.contains(path@) && e
                    == FsError::NotFound,
            },
    {
        self.metadata(path)
    }

    /// The absolute form of `path`. Paths in the store are already
    /// normalized, so an existing path canonicalizes to itself; an absent one
    /// is `NotFound` rather than silently echoed.
    pub fn canonicalize(&self, path: &str) -> (r: Result<String, FsError>)
        ensures
            match r {
                Ok(p) => (self@.files.contains_key(path@) || self@.dirs.contains(path@)) && p@
                    == path@,
                Err(e) => !self@.files.contains_key(path@) && !self@.dirs.contains(path@) && e
                    == FsError::NotFound,
            },
    {
        if self.files.contains_key(path) || self.dirs.contains(path) {
            Ok(path.to_owned())
        } else {
            Err(FsError::NotFound)
        }
    }

    /// Drain the store's files as the final artifact set: every filed path,
    /// in the order first written, with its content. Each filed path appears
    /// exactly once.
    pub fn entries(&self) -> (r: Vec<(String, Vec<u8>)>)
        requires
            self.wf(),
        ensures
            forall|i: int|
                0 <= i < r@.len() ==> self@.files.contains_key(#[trigger] r@[i].0@) && r@[i].1@
                    == self@.files[r@[i].0@],
            forall|k: Seq<char>|
                #[trigger] self@.files.contains_key(k) ==> exists|i: int|
                    0 <= i < r@.len() && (#[trigger] r@[i].0@) == k,
            forall|i: int, j: int| 0 <= i < j < r@.len() ==> (#[trigger] r@[i].0@) != (#[trigger] r@[j].0@),
    {
        let mut r: Vec<(String, Vec<u8>)> = Vec::new();
        let mut i: usize = 0;
        while i < self.file_order.len()
            invariant
                self.wf(),
                i <= self.file_order@.len(),
                r@.len() == i,
                forall|j: int| 0 <= j < i ==> (#[trigger] r@[j].0@) == self.file_order@[j]@,
                forall|j: int|
                    0 <= j < i ==> self@.files.contains_key(#[trigger] r@[j].0@) && r@[j].1@
                        == self@.files[r@[j].0@],
            decreases self.file_order@.len() - i,
        {
            let key = &self.file_order[i];
            match self.files.get(key.as_str()) {
                Some(v) => {
                    let content = copy_bytes(v);
                    r.push((key.clone(), content));
                },
                None => {
                    proof {
                        assert(self.files@.contains_key(self.file_order@[i as int]@));
                    }
                    unreached()
                },
            }
            i = i + 1;
        }
        proof {
            assert forall|k: Seq<char>| #[trigger] self@.files.contains_key(k) implies exists|
                i: int,
            | 0 <= i < r@.len() && (#[trigger] r@[i].0@) == k by {
                let j = choose|j: int|
                    0 <= j < self.file_order@.len() && (#[trigger] self.file_order@[j]@) == k;
                assert(r@[j].0@ == k);
            }
        }
        r
    }

}

/// The position of the first element whose text equals `needle`, if any.
fn index_of_text(order: &Vec<String>, needle: &String) -> (r: Option<usize>)
    ensures
        match r {
            Some(i) => i < order@.len() && order@[i as int]@ == needle@,
            None => forall|j: int| 0 <= j < order@.len() ==> (#[trigger] order@[j]@) != needle@,
        },
{
    let mut i: usize = 0;
    while i < order.len()
        invariant
            i <= order@.len(),
            forall|j: int| 0 <= j < i ==> (#[trigger] order@[j]@) != needle@,
        decreases order@.len() - i,
    {
        if order[i] == *needle {
            return Some(i);
        }
        i = i + 1;
    }
    None
}

/// An element-by-element copy of byte content.
fn copy_bytes(v: &Vec<u8>) -> (r: Vec<u8>)
    ensures
        r@ == v@,
{
    let mut r: Vec<u8> = Vec::new();
    let mut i: usize = 0;
    while i < v.len()
        invariant
            i <= v.len(),
            r@ =~= v@.take(i as int),
        decreases v.len() - i,
    {
        r.push(v[i]);
        proof {
            assert(r@ =~= v@.take(i + 1));
        }
        i = i + 1;
    }
    proof {
        assert(r@ =~= v@);
    }
    r
}

/// Law: a write followed by a read of the same path returns exactly the
/// bytes written.
pub proof fn lemma_write_read_round_trip(
    files: Map<Seq<char>, Seq<u8>>,
    path: Seq<char>,
    data: Seq<u8>,
)
    ensures
        spec_read(files.insert(path, data), path) == Some(data),
{
}

/// Law: a read of a path never written observes nothing, which the readable
/// capability surfaces as `NotFound`.
pub proof fn lemma_read_absent_not_found(files: Map<Seq<char>, Seq<u8>>, path: Seq<char>)
    requires
        !files.contains_key(path),
    ensures
        spec_read(files, path) is None,
{
}

/// Law: removing a file that is absent leaves the file table unchanged, so
/// deletion of an absent target is an idempotent no-op.
pub proof fn lemma_remove_absent_file_is_noop(files: Map<Seq<char>, Seq<u8>>, path: Seq<char>)
    requires
        !files.contains_key(path),
    ensures
        files.remove(path) == files,
{
    assert(files.remove(path) =~= files);
}

/// Law: removing a directory entry that is absent leaves the directory set
/// unchanged, so deletion of an absent target is an idempotent no-op.
pub proof fn lemma_remove_absent_dir_is_noop(dirs: Set<Seq<char>>, path: Seq<char>)
    requires
        !dirs.contains(path),
    ensures
        dirs.remove(path) == dirs,
{
    assert(dirs.remove(path) =~= dirs);
}

/// Law: writes to distinct paths do not disturb one another — after both
/// complete, each path reads back exactly what was written to it.
pub proof fn lemma_distinct_writes_no_lost_update(
    files: Map<Seq<char>, Seq<u8>>,
    path1: Seq<char>,
    data1: Seq<u8>,
    path2: Seq<char>,
    data2: Seq<u8>,
)
    requires
        path1 != path2,
    ensures
        spec_read(files.insert(path1, data1).insert(path2, data2), path1) == Some(data1),
        spec_read(files.insert(path1, data1).insert(path2, data2), path2) == Some(data2),
{
}

} // verus!
