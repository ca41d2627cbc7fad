//! The directories that the memory worker works in, and the lock file that
//! guards them.

use vstd::prelude::*;
use vstd::utf8::{
    decode_utf8, encode_utf8, encode_utf8_decode_utf8, is_ascii_chars_encode_utf8,
};

verus! {

/// A path as the sequence of its components, each one by the bytes of its
/// name. The root directory is a component too.
#[derive(Debug, Clone, PartialEq, Eq)]
pub struct HomePath {
    pub components: Vec<Vec<u8>>,
}

impl View for HomePath {
    type V = Seq<Seq<u8>>;

    open spec fn view(&self) -> Seq<Seq<u8>> {
        self.components@.map_values(|name: Vec<u8>| name@)
    }
}

/// `path` is `base` or lies below it.
pub open spec fn lies_in(path: Seq<Seq<u8>>, base: Seq<Seq<u8>>) -> bool {
    base.is_prefix_of(path)
}

/// Whether two names are the same.
fn same_name(left: &Vec<u8>, right: &Vec<u8>) -> (same: bool)
    ensures
        same == (left@ == right@),
{
    if left.len() != right.len() {
        return false;
    }
    let mut i: usize = 0;
    while i < left.len()
        invariant
            i <= left.len(),
            left.len() == right.len(),
            forall|j: int| 0 <= j < i ==> left@[j] == right@[j],
        decreases left.len() - i,
    {
        if left[i] != right[i] {
            return false;
        }
        i += 1;
    }
    assert(left@ =~= right@);
    true
}

/// A copy of a name.
fn copy_name(name: &Vec<u8>) -> (copy: Vec<u8>)
    ensures
        copy@ == name@,
{
    let mut copy: Vec<u8> = Vec::new();
    let mut i: usize = 0;
    while i < name.len()
        invariant
            i <= name.len(),
            copy@ == name@.take(i as int),
        decreases name.len() - i,
    {
        copy.push(name[i]);
        assert(copy@ =~= name@.take(i + 1));
        i += 1;
    }
    assert(name@.take(name.len() as int) =~= name@);
    copy
}

impl HomePath {
    /// Whether this path is `base` or lies below it.
    pub fn starts_with(&self, base: &HomePath) -> (inside: bool)
        ensures
            inside == lies_in(self@, base@),
    {
        if base.components.len() > self.components.len() {
            return false;
        }
        let mut i: usize = 0;
        while i < base.components.len()
            invariant
                i <= base.components.len() <= self.components.len(),
                forall|j: int| 0 <= j < i ==> #[trigger] base@[j] == self@[j],
            decreases base.components.len() - i,
        {
            if !same_name(&self.components[i], &base.components[i]) {
                assert(base@[i as int] != self@[i as int]);
                assert(self@.subrange(0, base@.len() as int)[i as int] == self@[i as int]);
                return false;
            }
            assert(base@[i as int] == self@[i as int]);
            i += 1;
        }
        assert(base@ =~= self@.subrange(0, base@.len() as int));
        true
    }

    /// Whether both are the same path.
    pub fn same_path(&self, other: &HomePath) -> (same: bool)
        ensures
            same == (self@ == other@),
    {
        if self.components.len() != other.components.len() {
            assert(self@.len() != other@.len());
            return false;
        }
        let inside = self.starts_with(other);
        assert(self@.subrange(0, other@.len() as int) =~= self@);
        inside
    }

    /// A copy of the path.
    pub fn copied(&self) -> (copy: HomePath)
        ensures
            copy@ == self@,
    {
        let copy = self.tail(0);
        assert(self@.skip(0) =~= self@);
        copy
    }

    /// The path without its first `count` components.
    fn tail(&self, count: usize) -> (rest: HomePath)
        requires
            count <= self@.len(),
        ensures
            rest@ == self@.skip(count as int),
    {
        let mut components: Vec<Vec<u8>> = Vec::new();
        let mut i: usize = count;
        while i < self.components.len()
            invariant
                count <= i <= self.components.len(),
                components@.len() == i - count,
                forall|j: int|
                    0 <= j < components@.len() ==> (#[trigger] components@[j])@ == self@[j + count],
            decreases self.components.len() - i,
        {
            let copy = copy_name(&self.components[i]);
            assert(self@[i as int] == self.components@[i as int]@);
            components.push(copy);
            i += 1;
        }
        let rest = HomePath { components };
        assert(rest@ =~= self@.skip(count as int));
        rest
    }

    /// What follows `base` in this path, where it lies in `base`.
    pub fn strip_prefix(&self, base: &HomePath) -> (relative: Option<HomePath>)
        ensures
            relative is Some == lies_in(self@, base@),
            relative matches Some(rest) ==> self@ == base@ + rest@,
    {
        if !self.starts_with(base) {
            return None;
        }
        let rest = self.tail(base.components.len());
        assert(self@ =~= base@ + rest@) by {
            assert(base@ =~= self@.subrange(0, base@.len() as int));
        }
        Some(rest)
    }

    /// The path that leads on from this one through `relative`.
    pub fn join(&self, relative: &HomePath) -> (joined: HomePath)
        ensures
            joined@ == self@ + relative@,
    {
        let mut components = self.copied().components;
        let ghost start = components@;
        proof {
            assert forall|j: int| 0 <= j < start.len() implies (#[trigger] start[j])@
                == self@[j] by {
                let copy = HomePath { components };
                assert(copy@[j] == start[j]@);
            }
        }
        let mut i: usize = 0;
        while i < relative.components.len()
            invariant
                i <= relative.components.len(),
                start.len() == self@.len(),
                components@.len() == start.len() + i,
                forall|j: int| 0 <= j < start.len() ==> (#[trigger] components@[j])@ == self@[j],
                forall|j: int|
                    start.len() <= j < components@.len() ==> (#[trigger] components@[j])@
                        == relative@[j - start.len()],
            decreases relative.components.len() - i,
        {
            let copy = copy_name(&relative.components[i]);
            assert(relative@[i as int] == relative.components@[i as int]@);
            components.push(copy);
            i += 1;
        }
        let joined = HomePath { components };
        assert(joined@ =~= self@ + relative@);
        joined
    }
}

/// The directories of one configuration: where the agent's files live, and
/// where its database lives.
#[derive(Debug, Clone, PartialEq, Eq)]
pub struct MemoryHomes {
    pub codex_home: HomePath,
    pub sqlite_home: HomePath,
}

/// Where `path` lies once `logical` is known to be `canonical`: what lies in
/// `logical` moves along, anything else stays.
pub open spec fn rebased(
    path: Seq<Seq<u8>>,
    logical: Seq<Seq<u8>>,
    canonical: Seq<Seq<u8>>,
) -> Seq<Seq<u8>> {
    if lies_in(path, logical) {
        canonical + path.skip(logical.len() as int)
    } else {
        path
    }
}

/// The configuration once the home directory is resolved to `canonical_home`.
/// A database that lies in the home directory moves along with it, so that
/// lock, files and database belong to one and the same home; one that was
/// placed elsewhere stays there.
pub fn canonicalize_memory_config(homes: &MemoryHomes, canonical_home: &HomePath) -> (resolved:
    MemoryHomes)
    ensures
        resolved.codex_home@ == canonical_home@,
        resolved.sqlite_home@ == rebased(
            homes.sqlite_home@,
            homes.codex_home@,
            canonical_home@,
        ),
{
    let sqlite_home = match homes.sqlite_home.strip_prefix(&homes.codex_home) {
        Some(relative) => {
            assert(relative@ =~= homes.sqlite_home@.skip(homes.codex_home@.len() as int));
            canonical_home.join(&relative)
        },
        None => homes.sqlite_home.copied(),
    };
    MemoryHomes { codex_home: canonical_home.copied(), sqlite_home }
}

/// How a lock file is to be opened before it is locked.
#[derive(Debug, Clone, PartialEq, Eq)]
pub struct LockFileRequest {
    pub path: HomePath,
    pub read: bool,
    pub write: bool,
    pub create: bool,
    /// The permissions of a newly created file, where the system has such.
    pub unix_mode: u32,
}

/// The name of the lock file.
pub const LOCK_FILE_NAME: &'static str = ".memory-worker.lock";

/// The directories of a home that hold memories, and that clearing empties.
pub open spec fn memory_root_names() -> Seq<Seq<char>> {
    seq!["memories"@, "memories_extensions"@]
}

/// The path of the entry `name` in the directory `dir`.
pub open spec fn entry_in(dir: Seq<Seq<u8>>, name: Seq<char>) -> Seq<Seq<u8>> {
    dir.push(encode_utf8(name))
}

/// How the lock file of a home is opened: for reading and writing, created
/// where it is missing, and then for its owner alone.
pub fn memory_home_lock_request(canonical_home: &HomePath) -> (request: LockFileRequest)
    ensures
        request.path@ == entry_in(canonical_home@, LOCK_FILE_NAME@),
        request.read,
        request.write,
        request.create,
        request.unix_mode == 0o600,
{
    let mut name: Vec<Vec<u8>> = Vec::new();
    name.push(LOCK_FILE_NAME.as_bytes_vec());
    let name = HomePath { components: name };
    let path = canonical_home.join(&name);
    assert(path@ =~= entry_in(canonical_home@, LOCK_FILE_NAME@));
    LockFileRequest { path, read: true, write: true, create: true, unix_mode: 0o600 }
}

/// The lock file lies in the home that it guards, and neither in nor above a
/// directory that clearing empties: clearing never removes the lock.
pub proof fn lock_file_survives_clearing(home: Seq<Seq<u8>>, root: Seq<char>)
    requires
        memory_root_names().contains(root),
    ensures
        lies_in(entry_in(home, LOCK_FILE_NAME@), home),
        !lies_in(entry_in(home, LOCK_FILE_NAME@), entry_in(home, root)),
        !lies_in(entry_in(home, root), entry_in(home, LOCK_FILE_NAME@)),
{
    let lock = entry_in(home, LOCK_FILE_NAME@);
    let dir = entry_in(home, root);
    reveal_strlit(".memory-worker.lock");
    reveal_strlit("memories");
    reveal_strlit("memories_extensions");
    is_ascii_chars_encode_utf8(LOCK_FILE_NAME@);
    is_ascii_chars_encode_utf8(root);
    assert(encode_utf8(LOCK_FILE_NAME@)[0] == 0x2e);
    assert(encode_utf8(root)[0] == 0x6d);
    assert(lock.subrange(0, home.len() as int) =~= home);
    assert(lock.subrange(0, dir.len() as int) =~= lock);
    assert(dir.subrange(0, lock.len() as int) =~= dir);
    assert(lock.last() != dir.last());
}

/// A database in the home directory itself, as by default, ends up in the
/// resolved home itself.
pub proof fn default_database_follows_the_home(
    logical: Seq<Seq<u8>>,
    canonical: Seq<Seq<u8>>,
)
    ensures
        rebased(logical, logical, canonical) == canonical,
{
    assert(logical.subrange(0, logical.len() as int) =~= logical);
    assert(canonical + logical.skip(logical.len() as int) =~= canonical);
}

/// A database somewhere in the home directory ends up at the same place in the
/// resolved home, and one elsewhere stays where it is.
pub proof fn database_keeps_its_place(
    logical: Seq<Seq<u8>>,
    below: Seq<Seq<u8>>,
    elsewhere: Seq<Seq<u8>>,
    canonical: Seq<Seq<u8>>,
)
    requires
        !lies_in(elsewhere, logical),
    ensures
        rebased(logical + below, logical, canonical) == canonical + below,
        rebased(elsewhere, logical, canonical) == elsewhere,
{
    assert((logical + below).subrange(0, logical.len() as int) =~= logical);
    assert((logical + below).skip(logical.len() as int) =~= below);
}

/// Resolving a home that is already resolved changes nothing.
pub proof fn resolving_twice_is_resolving_once(
    path: Seq<Seq<u8>>,
    logical: Seq<Seq<u8>>,
    canonical: Seq<Seq<u8>>,
)
    ensures
        rebased(rebased(path, logical, canonical), canonical, canonical) == rebased(
            path,
            logical,
            canonical,
        ),
{
    let once = rebased(path, logical, canonical);
    if lies_in(once, canonical) {
        assert(canonical + once.skip(canonical.len() as int) =~= once);
    }
}

/// A path lies in another exactly where it leads on from it.
pub proof fn lying_in_is_leading_on(path: Seq<Seq<u8>>, base: Seq<Seq<u8>>)
    ensures
        lies_in(path, base) == exists|below: Seq<Seq<u8>>| path == #[trigger] (base + below),
{
    if lies_in(path, base) {
        assert(path =~= base + path.skip(base.len() as int));
    }
    if exists|below: Seq<Seq<u8>>| path == #[trigger] (base + below) {
        let below = choose|below: Seq<Seq<u8>>| path == #[trigger] (base + below);
        assert(base =~= path.subrange(0, base.len() as int));
    }
}

/// A path is its components, each by its name.
pub proof fn path_is_its_components(path: HomePath, i: int)
    ensures
        path@.len() == path.components@.len(),
        0 <= i < path@.len() ==> path@[i] == path.components@[i]@,
{
}

/// An entry stands right in its directory, under its own name.
pub proof fn entry_stands_in_its_directory(dir: Seq<Seq<u8>>, name: Seq<char>)
    ensures
        entry_in(dir, name).len() == dir.len() + 1,
        entry_in(dir, name).drop_last() == dir,
        decode_utf8(entry_in(dir, name).last()) == name,
        LOCK_FILE_NAME@ == ".memory-worker.lock"@,
{
    encode_utf8_decode_utf8(name);
    assert(entry_in(dir, name).drop_last() =~= dir);
}

} // verus!
