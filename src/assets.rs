//! Loading assets through the virtual filesystem.
use vstd::prelude::*;

use crate::fs;
use crate::fs::{FileSystem, Mount, Ofs, Vfs, VfsError};
use crate::texture;
use crate::texture::{TextureError, TextureImage};

verus! {

/// Why an asset could not be loaded.
#[derive(Debug)]
pub enum AssetError {
    /// Its bytes could not be read.
    Read(VfsError),
    /// Its bytes are not a supported image.
    Decode,
}

/// A resource held in memory as raw bytes, with the path it came from.
pub struct RawResource {
    pub path: String,
    pub data: Vec<u8>,
}

impl RawResource {
    pub fn new(path: &str, data: Vec<u8>) -> (r: RawResource)
        ensures
            r.path@ == path@,
            r.data@ == data@,
    {
        RawResource { path: path.to_owned(), data }
    }
}

/// Turns paths of the virtual filesystem into bytes and images.
pub struct AssetLoader<F> {
    pub(crate) vfs: Vfs<F>,
}

impl<F: FileSystem> AssetLoader<F> {
    /// The mounts of the filesystem it reads through.
    pub closed spec fn mounts(&self) -> Seq<Mount<F>> {
        self.vfs.mounts()
    }

    pub fn new(vfs: Vfs<F>) -> (r: Self)
        ensures
            r.mounts() == vfs.mounts(),
    {
        AssetLoader { vfs }
    }

    pub fn vfs(&self) -> (r: &Vfs<F>)
        ensures
            r.mounts() == self.mounts(),
    {
        &self.vfs
    }

    pub(crate) fn mount_os(&mut self, prefix: &str, root: &str, name: &str, writable: bool) where
        F: From<Ofs>,

        ensures
            final(self).mounts().len() == old(self).mounts().len() + 1,
            final(self).mounts().drop_last() == old(self).mounts(),
            final(self).mounts().last().prefix@ == prefix@,
            final(self).mounts().last().writable == writable,
            fs::os_backend(final(self).mounts().last().fs, root@, name@),
    {
        self.vfs.mount_os(prefix, root, name, writable);
    }

    pub(crate) fn unmount(&mut self, prefix: &str)
        ensures
            final(self).mounts() == fs::unmounted(old(self).mounts(), prefix@),
    {
        self.vfs.unmount(prefix);
    }

    /// The bytes at `path`.
    pub fn load_bytes(&self, path: &str) -> (r: Result<Vec<u8>, VfsError>)
        ensures
            fs::is_no_mount(r) <==> fs::resolve_index(self.mounts(), path@) is None,
            !fs::is_no_writable_mount(r),
    {
        self.vfs.read_bytes(path)
    }

    /// The image at `path`, decoded.
    pub fn load_image(&self, path: &str) -> (r: Result<TextureImage, AssetError>)
        ensures
            r matches Err(AssetError::Read(VfsError::NoMount)) <==> fs::resolve_index(
                self.mounts(),
                path@,
            ) is None,
            r matches Ok(t) ==> exists|bytes: Seq<u8>|
                texture::decoded_rgba8(bytes) == Some((t.width, t.height, t.pixels@)),
            r matches Err(AssetError::Decode) ==> fs::resolve_index(self.mounts(), path@) is Some
                && exists|bytes: Seq<u8>| texture::decoded_rgba8(bytes) is None,
    {
        match self.vfs.read_bytes(path) {
            Ok(bytes) => match TextureImage::from_bytes(bytes.as_slice()) {
                Ok(t) => Ok(t),
                Err(TextureError::Decode) => Err(AssetError::Decode),
            },
            Err(e) => Err(AssetError::Read(e)),
        }
    }

    /// Writes `data` at `path`, through the writable mount of highest priority.
    pub fn write_bytes(&self, path: &str, data: &[u8]) -> (r: Result<(), VfsError>)
        ensures
            fs::is_no_writable_mount(r) <==> fs::writable_index(self.mounts(), path@) is None,
            !fs::is_no_mount(r),
    {
        self.vfs.write_bytes(path, data)
    }
}

} // verus!
