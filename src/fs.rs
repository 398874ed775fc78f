//! A virtual filesystem: backends mounted on path prefixes, where the mount
//! added last has the highest priority.
use vstd::prelude::*;

use crate::path;
use crate::path::{join_path, rest_after, same_path, starts_with};

verus! {

/// What a backend reports when an operation on it fails.
#[derive(Debug)]
pub enum FsError {
    NotFound,
    PermissionDenied,
    Other(String),
}

/// Why a virtual filesystem operation failed.
#[derive(Debug)]
pub enum VfsError {
    /// No mount answers the path.
    NoMount,
    /// No writable mount answers the path.
    NoWritableMount,
    /// The mount that answered failed.
    Backend(FsError),
}

/// A filesystem that can be mounted. Every path handed to it is relative to its own root.
pub trait FileSystem {
    /// Reads a file as UTF-8 text.
    fn read_to_string(&self, path: &str) -> Result<String, FsError>;

    /// Reads a file as raw bytes.
    fn read_bytes(&self, path: &str) -> Result<Vec<u8>, FsError>;

    /// Writes a file, creating its parent directories where needed.
    fn write_bytes(&self, path: &str, data: &[u8]) -> Result<(), FsError>;

    /// Whether the path exists.
    fn path_exists(&self, path: &str) -> bool;

    /// A name for diagnostics.
    fn name(&self) -> &str;
}

/// A directory of the host filesystem, named for diagnostics.
pub struct Ofs {
    root: String,
    name: String,
}

impl Ofs {
    pub closed spec fn root_path(&self) -> Seq<char> {
        self.root@
    }

    pub closed spec fn label(&self) -> Seq<char> {
        self.name@
    }

    /// An OS filesystem rooted at `root`, e.g. `Ofs::new("/home/me/game/assets", "game_assets")`.
    pub fn new(root: &str, name: &str) -> (r: Ofs)
        ensures
            r.root_path() == root@,
            r.label() == name@,
    {
        Ofs { root: root.to_owned(), name: name.to_owned() }
    }

    pub fn root(&self) -> (r: &str)
        ensures
            r@ == self.root_path(),
    {
        self.root.as_str()
    }

    pub fn name(&self) -> (r: &str)
        ensures
            r@ == self.label(),
    {
        self.name.as_str()
    }

    /// The host path of `rel`: `rel` itself when absolute, else `rel` under the root.
    pub fn resolve_path(&self, rel: &str) -> (r: String)
        ensures
            r@ == path::path_join(self.root_path(), rel@),
    {
        join_path(self.root.as_str(), rel)
    }
}

/// `fs` is what converting the host directory `root`, named `name`, gives.
pub open spec fn os_backend<F: From<Ofs>>(fs: F, root: Seq<char>, name: Seq<char>) -> bool {
    <F as vstd::std_specs::convert::FromSpec<Ofs>>::obeys_from_spec() ==> exists|os: Ofs|
        {
            &&& os.root_path() == root
            &&& os.label() == name
            &&& fs == <F as vstd::std_specs::convert::FromSpec<Ofs>>::from_spec(os)
        }
}

/// A backend bound to a path prefix. An empty prefix answers every path.
pub struct Mount<F> {
    pub prefix: String,
    pub fs: F,
    pub writable: bool,
}

/// A mount on `prefix` answers `path`.
pub open spec fn mount_matches(prefix: Seq<char>, path: Seq<char>) -> bool {
    prefix.len() == 0 || path::path_starts_with(path, prefix)
}

/// The path handed to the backend of a mount on `prefix` for `path`.
pub open spec fn mount_relative(prefix: Seq<char>, path: Seq<char>) -> Seq<char> {
    if prefix.len() == 0 {
        path
    } else if path::path_starts_with(path, prefix) {
        path::path_rest(path, prefix)
    } else {
        Seq::empty()
    }
}

impl<F> Mount<F> {
    pub fn matches(&self, path: &str) -> (r: bool)
        ensures
            r == mount_matches(self.prefix@, path@),
    {
        if self.prefix.as_str().is_empty() {
            true
        } else {
            starts_with(path, self.prefix.as_str())
        }
    }

    pub fn relative_path(&self, path: &str) -> (r: String)
        ensures
            r@ == mount_relative(self.prefix@, path@),
    {
        if self.prefix.as_str().is_empty() {
            path.to_owned()
        } else if starts_with(path, self.prefix.as_str()) {
            rest_after(path, self.prefix.as_str())
        } else {
            String::new()
        }
    }
}

/// The index of the mount that answers `path`: the last one that matches.
pub open spec fn resolve_index<F>(ms: Seq<Mount<F>>, path: Seq<char>) -> Option<int>
    decreases ms.len(),
{
    if ms.len() == 0 {
        None
    } else if mount_matches(ms.last().prefix@, path) {
        Some(ms.len() - 1)
    } else {
        resolve_index(ms.drop_last(), path)
    }
}

/// The index of the mount that takes writes to `path`: the last writable one that matches.
pub open spec fn writable_index<F>(ms: Seq<Mount<F>>, path: Seq<char>) -> Option<int>
    decreases ms.len(),
{
    if ms.len() == 0 {
        None
    } else if ms.last().writable && mount_matches(ms.last().prefix@, path) {
        Some(ms.len() - 1)
    } else {
        writable_index(ms.drop_last(), path)
    }
}

/// The index of the mount of highest priority whose prefix is the path `prefix`.
pub open spec fn last_on<F>(ms: Seq<Mount<F>>, prefix: Seq<char>) -> Option<int>
    decreases ms.len(),
{
    if ms.len() == 0 {
        None
    } else if path::path_equal(ms.last().prefix@, prefix) {
        Some(ms.len() - 1)
    } else {
        last_on(ms.drop_last(), prefix)
    }
}

/// `ms` without its mount of highest priority on `prefix`; `ms` itself when there is none.
pub open spec fn unmounted<F>(ms: Seq<Mount<F>>, prefix: Seq<char>) -> Seq<Mount<F>> {
    match last_on(ms, prefix) {
        Some(k) => ms.remove(k),
        None => ms,
    }
}

pub proof fn lemma_resolve_index_bounds<F>(ms: Seq<Mount<F>>, path: Seq<char>)
    ensures
        resolve_index(ms, path) matches Some(i) ==> 0 <= i < ms.len() && mount_matches(
            ms[i].prefix@,
            path,
        ),
        writable_index(ms, path) matches Some(i) ==> 0 <= i < ms.len() && ms[i].writable
            && mount_matches(ms[i].prefix@, path),
    decreases ms.len(),
{
    if ms.len() > 0 {
        lemma_resolve_index_bounds(ms.drop_last(), path);
    }
}

pub open spec fn is_no_mount<T>(r: Result<T, VfsError>) -> bool {
    r matches Err(VfsError::NoMount)
}

pub open spec fn is_no_writable_mount<T>(r: Result<T, VfsError>) -> bool {
    r matches Err(VfsError::NoWritableMount)
}

/// A set of mounts. The mount added last takes priority where prefixes overlap.
pub struct Vfs<F> {
    mounts: Vec<Mount<F>>,
}

impl<F: FileSystem> Vfs<F> {
    /// The mounts, from lowest to highest priority.
    pub closed spec fn mounts(&self) -> Seq<Mount<F>> {
        self.mounts@
    }

    pub fn new() -> (r: Self)
        ensures
            r.mounts() == Seq::<Mount<F>>::empty(),
    {
        Vfs { mounts: Vec::new() }
    }

    /// Mounts `fs` on `prefix`, above every mount already there.
    /// Writes may go to it only when `writable` holds.
    pub fn mount(&mut self, prefix: &str, fs: F, writable: bool)
        ensures
            final(self).mounts().len() == old(self).mounts().len() + 1,
            final(self).mounts().drop_last() == old(self).mounts(),
            final(self).mounts().last().prefix@ == prefix@,
            final(self).mounts().last().fs == fs,
            final(self).mounts().last().writable == writable,
    {
        let m = Mount { prefix: prefix.to_owned(), fs, writable };
        self.mounts.push(m);
        assert(self.mounts@.drop_last() =~= old(self).mounts@);
    }

    /// Mounts the host directory `root`, under the name `name`, on `prefix`.
    pub fn mount_os(&mut self, prefix: &str, root: &str, name: &str, writable: bool) where
        F: From<Ofs>,

        ensures
            final(self).mounts().len() == old(self).mounts().len() + 1,
            final(self).mounts().drop_last() == old(self).mounts(),
            final(self).mounts().last().prefix@ == prefix@,
            final(self).mounts().last().writable == writable,
            os_backend(final(self).mounts().last().fs, root@, name@),
    {
        let os = Ofs::new(root, name);
        self.mount(prefix, F::from(os), writable);
    }

    /// Removes the mount of highest priority whose prefix is the path `prefix`, so
    /// that the one it covered answers again; nothing when no mount is on `prefix`.
    pub fn unmount(&mut self, prefix: &str)
        ensures
            final(self).mounts() == unmounted(old(self).mounts(), prefix@),
    {
        let mut k: usize = self.mounts.len();
        assert(self.mounts@.take(k as int) =~= self.mounts@);
        while k > 0
            invariant
                k <= self.mounts@.len(),
                self.mounts@ == old(self).mounts@,
                last_on(self.mounts@, prefix@) == last_on(self.mounts@.take(k as int), prefix@),
            decreases k,
        {
            proof {
                assert(self.mounts@.take(k as int).drop_last() =~= self.mounts@.take(k - 1));
            }
            if same_path(self.mounts[k - 1].prefix.as_str(), prefix) {
                self.mounts.remove(k - 1);
                return;
            }
            k = k - 1;
        }
        assert(self.mounts@.take(0) =~= Seq::<Mount<F>>::empty());
    }

    /// The mount that answers `path`: its index, the path relative to it, and
    /// whether it takes writes.
    pub fn resolve_mount_for(&self, path: &str) -> (r: Option<(usize, String, bool)>)
        ensures
            match r {
                None => resolve_index(self.mounts(), path@) is None,
                Some((i, rel, w)) => {
                    &&& resolve_index(self.mounts(), path@) == Some(i as int)
                    &&& rel@ == mount_relative(self.mounts()[i as int].prefix@, path@)
                    &&& w == self.mounts()[i as int].writable
                },
            },
    {
        let mut k: usize = self.mounts.len();
        assert(self.mounts@.take(k as int) =~= self.mounts@);
        while k > 0
            invariant
                k <= self.mounts@.len(),
                resolve_index(self.mounts@, path@) == resolve_index(self.mounts@.take(k as int), path@),
            decreases k,
        {
            let m = &self.mounts[k - 1];
            proof {
                assert(self.mounts@.take(k as int).drop_last() =~= self.mounts@.take(k - 1));
            }
            if m.matches(path) {
                let rel = m.relative_path(path);
                return Some((k - 1, rel, m.writable));
            }
            k = k - 1;
        }
        assert(self.mounts@.take(0) =~= Seq::<Mount<F>>::empty());
        None
    }
}

impl<F: FileSystem> Vfs<F> {
    /// The mount that takes writes to `path`: its index and the path relative to it.
    pub fn resolve_writable_for(&self, path: &str) -> (r: Option<(usize, String)>)
        ensures
            match r {
                None => writable_index(self.mounts(), path@) is None,
                Some((i, rel)) => {
                    &&& writable_index(self.mounts(), path@) == Some(i as int)
                    &&& rel@ == mount_relative(self.mounts()[i as int].prefix@, path@)
                },
            },
    {
        let mut k: usize = self.mounts.len();
        assert(self.mounts@.take(k as int) =~= self.mounts@);
        while k > 0
            invariant
                k <= self.mounts@.len(),
                writable_index(self.mounts@, path@) == writable_index(
                    self.mounts@.take(k as int),
                    path@,
                ),
            decreases k,
        {
            let m = &self.mounts[k - 1];
            proof {
                assert(self.mounts@.take(k as int).drop_last() =~= self.mounts@.take(k - 1));
            }
            if m.writable && m.matches(path) {
                let rel = m.relative_path(path);
                return Some((k - 1, rel));
            }
            k = k - 1;
        }
        assert(self.mounts@.take(0) =~= Seq::<Mount<F>>::empty());
        None
    }

    /// Reads the bytes of `path` from the mount that answers it.
    pub fn read_bytes(&self, path: &str) -> (r: Result<Vec<u8>, VfsError>)
        ensures
            is_no_mount(r) <==> resolve_index(self.mounts(), path@) is None,
            !is_no_writable_mount(r),
    {
        match self.resolve_mount_for(path) {
            Some((i, rel, _)) => {
                proof {
                    lemma_resolve_index_bounds(self.mounts@, path@);
                }
                match self.mounts[i].fs.read_bytes(rel.as_str()) {
                    Ok(bytes) => Ok(bytes),
                    Err(e) => Err(VfsError::Backend(e)),
                }
            },
            None => Err(VfsError::NoMount),
        }
    }

    /// Reads `path` as text from the mount that answers it.
    pub fn read_to_string(&self, path: &str) -> (r: Result<String, VfsError>)
        ensures
            is_no_mount(r) <==> resolve_index(self.mounts(), path@) is None,
            !is_no_writable_mount(r),
    {
        match self.resolve_mount_for(path) {
            Some((i, rel, _)) => {
                proof {
                    lemma_resolve_index_bounds(self.mounts@, path@);
                }
                match self.mounts[i].fs.read_to_string(rel.as_str()) {
                    Ok(text) => Ok(text),
                    Err(e) => Err(VfsError::Backend(e)),
                }
            },
            None => Err(VfsError::NoMount),
        }
    }

    /// Writes `data` to `path` through the writable mount of highest priority that answers it.
    pub fn write_bytes(&self, path: &str, data: &[u8]) -> (r: Result<(), VfsError>)
        ensures
            is_no_writable_mount(r) <==> writable_index(self.mounts(), path@) is None,
            is_no_mount(r) == false,
    {
        match self.resolve_writable_for(path) {
            Some((i, rel)) => {
                proof {
                    lemma_resolve_index_bounds(self.mounts@, path@);
                }
                match self.mounts[i].fs.write_bytes(rel.as_str(), data) {
                    Ok(()) => Ok(()),
                    Err(e) => Err(VfsError::Backend(e)),
                }
            },
            None => Err(VfsError::NoWritableMount),
        }
    }

    /// Whether `path` exists in the mount that answers it; false when none does.
    pub fn path_exists(&self, path: &str) -> (r: bool)
        ensures
            resolve_index(self.mounts(), path@) is None ==> !r,
    {
        match self.resolve_mount_for(path) {
            Some((i, rel, _)) => {
                proof {
                    lemma_resolve_index_bounds(self.mounts@, path@);
                }
                self.mounts[i].fs.path_exists(rel.as_str())
            },
            None => false,
        }
    }

    /// Each mount as (prefix, backend name, writable), from lowest to highest priority.
    pub fn debug_list_mounts(&self) -> (r: Vec<(String, String, bool)>)
        ensures
            r@.len() == self.mounts().len(),
            forall|i: int|
                0 <= i < r@.len() ==> r@[i].0@ == self.mounts()[i].prefix@ && r@[i].2
                    == self.mounts()[i].writable,
    {
        let mut out: Vec<(String, String, bool)> = Vec::new();
        let mut k: usize = 0;
        while k < self.mounts.len()
            invariant
                k <= self.mounts@.len(),
                out@.len() == k,
                forall|i: int|
                    0 <= i < k ==> out@[i].0@ == self.mounts@[i].prefix@ && out@[i].2
                        == self.mounts@[i].writable,
            decreases self.mounts.len() - k,
        {
            let m = &self.mounts[k];
            out.push((m.prefix.clone(), m.fs.name().to_owned(), m.writable));
            k = k + 1;
        }
        out
    }
}

/// Of two mounts that both answer a path, the one added later answers it,
/// whatever was mounted before them.
pub proof fn lemma_later_mount_wins<F>(
    earlier: Seq<Mount<F>>,
    a: Mount<F>,
    b: Mount<F>,
    path: Seq<char>,
)
    requires
        mount_matches(a.prefix@, path),
        mount_matches(b.prefix@, path),
    ensures
        resolve_index(earlier.push(a).push(b), path) == Some(earlier.len() + 1 as int),
        earlier.push(a).push(b)[earlier.len() + 1 as int] == b,
{
}

/// Once the later of two mounts that answer a path is unmounted, by its prefix, the
/// earlier one answers the path again, whether or not the two share that prefix.
pub proof fn lemma_unmount_restores_earlier<F>(
    earlier: Seq<Mount<F>>,
    a: Mount<F>,
    b: Mount<F>,
    path: Seq<char>,
)
    requires
        mount_matches(a.prefix@, path),
        mount_matches(b.prefix@, path),
    ensures
        ({
            let rest = unmounted(earlier.push(a).push(b), b.prefix@);
            &&& rest == earlier.push(a)
            &&& resolve_index(rest, path) == Some(rest.len() - 1)
            &&& rest[rest.len() - 1] == a
        }),
{
    let two = earlier.push(a).push(b);
    assert(path::path_equal(b.prefix@, b.prefix@));
    assert(two.last() == b);
    assert(last_on(two, b.prefix@) == Some(two.len() - 1));
    assert(two.remove(two.len() - 1) =~= earlier.push(a));
    assert(earlier.push(a).last() == a);
}

} // verus!
