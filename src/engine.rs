//! The engine context: the virtual filesystem and the asset loader reading through it.
use vstd::prelude::*;

use crate::assets::AssetLoader;
use crate::fs;
use crate::fs::{FileSystem, Mount, Ofs, Vfs};

verus! {

/// Owns the virtual filesystem, through its asset loader.
pub struct Engine<F> {
    pub loader: AssetLoader<F>,
}

impl<F: FileSystem> Default for Engine<F> {
    fn default() -> (r: Self)
        ensures
            r.mounts() == Seq::<Mount<F>>::empty(),
    {
        Engine { loader: AssetLoader::new(Vfs::new()) }
    }
}

impl<F: FileSystem> Engine<F> {
    pub const NAME: &'static str = "Gena";

    /// The mounts, from lowest to highest priority.
    pub closed spec fn mounts(&self) -> Seq<Mount<F>> {
        self.loader.mounts()
    }

    pub fn vfs(&self) -> (r: &Vfs<F>)
        ensures
            r.mounts() == self.mounts(),
    {
        self.loader.vfs()
    }

    /// Mounts the engine's own directory, read-only, on `engine`, and the game's
    /// assets, writable, on `assets`.
    pub fn init(&mut self) where F: From<Ofs>
        ensures
            final(self).mounts().len() == old(self).mounts().len() + 2,
            final(self).mounts().take(old(self).mounts().len() as int) == old(self).mounts(),
            final(self).mounts()[old(self).mounts().len() as int].prefix@ == "engine"@,
            !final(self).mounts()[old(self).mounts().len() as int].writable,
            fs::os_backend(
                final(self).mounts()[old(self).mounts().len() as int].fs,
                "engine"@,
                "Engine"@,
            ),
            final(self).mounts().last().prefix@ == "assets"@,
            final(self).mounts().last().writable,
            fs::os_backend(final(self).mounts().last().fs, "assets"@, "Assets"@),
    {
        self.loader.mount_os("engine", "engine", "Engine", false);
        self.loader.mount_os("assets", "assets", "Assets", true);
        assert(self.mounts().drop_last().take(old(self).mounts().len() as int) =~= self.mounts().take(
            old(self).mounts().len() as int,
        ));
    }

    /// Mounts the host directory `root` on `prefix`; writes may go there when `writable` holds.
    pub fn mount_os(&mut self, prefix: &str, root: &str, name: &str, writable: bool) where
        F: From<Ofs>,

        ensures
            final(self).mounts().len() == old(self).mounts().len() + 1,
            final(self).mounts().drop_last() == old(self).mounts(),
            final(self).mounts().last().prefix@ == prefix@,
            final(self).mounts().last().writable == writable,
            fs::os_backend(final(self).mounts().last().fs, root@, name@),
    {
        self.loader.mount_os(prefix, root, name, writable);
    }

    /// Removes the mount of highest priority on `prefix`.
    pub fn unmount(&mut self, prefix: &str)
        ensures
            final(self).mounts() == fs::unmounted(old(self).mounts(), prefix@),
    {
        self.loader.unmount(prefix);
    }
}

} // verus!
