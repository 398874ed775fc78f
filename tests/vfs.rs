use std::cell::RefCell;
use std::collections::HashMap;
use std::rc::Rc;
use std::sync::Mutex;

use gena::{AssetError, AssetLoader, Engine, FileSystem, FsError, Ofs, RawResource, Vfs, VfsError};

type Store = Rc<RefCell<HashMap<String, Vec<u8>>>>;

/// The host disk stand-in that directories mounted with `mount_os` live on.
static DISK: Mutex<Vec<(String, Vec<u8>)>> = Mutex::new(Vec::new());

fn disk_put(key: &str, data: &[u8]) {
    let mut disk = DISK.lock().unwrap();
    disk.retain(|(k, _)| k != key);
    disk.push((key.to_string(), data.to_vec()));
}

fn disk_get(key: &str) -> Option<Vec<u8>> {
    DISK.lock().unwrap().iter().find(|(k, _)| k == key).map(|(_, d)| d.clone())
}

/// A filesystem held in memory: files are keyed by their full path under the root,
/// in a store of their own or, for host directories, on the shared disk.
struct MemFs {
    dir: Ofs,
    files: Option<Store>,
}

impl MemFs {
    fn new(files: &Store, root: &str, name: &str) -> MemFs {
        MemFs { dir: Ofs::new(root, name), files: Some(files.clone()) }
    }
}

impl From<Ofs> for MemFs {
    fn from(dir: Ofs) -> MemFs {
        MemFs { dir, files: None }
    }
}

impl FileSystem for MemFs {
    fn read_to_string(&self, path: &str) -> Result<String, FsError> {
        let bytes = self.read_bytes(path)?;
        String::from_utf8(bytes).map_err(|_| FsError::Other("not UTF-8".to_string()))
    }

    fn read_bytes(&self, path: &str) -> Result<Vec<u8>, FsError> {
        let key = self.dir.resolve_path(path);
        let found = match &self.files {
            Some(files) => files.borrow().get(&key).cloned(),
            None => disk_get(&key),
        };
        found.ok_or(FsError::NotFound)
    }

    fn write_bytes(&self, path: &str, data: &[u8]) -> Result<(), FsError> {
        let key = self.dir.resolve_path(path);
        match &self.files {
            Some(files) => {
                files.borrow_mut().insert(key, data.to_vec());
            }
            None => disk_put(&key, data),
        }
        Ok(())
    }

    fn path_exists(&self, path: &str) -> bool {
        self.read_bytes(path).is_ok()
    }

    fn name(&self) -> &str {
        self.dir.name()
    }
}

fn store() -> Store {
    Rc::new(RefCell::new(HashMap::new()))
}

fn put(files: &Store, key: &str, text: &str) {
    files.borrow_mut().insert(key.to_string(), text.as_bytes().to_vec());
}

fn get(files: &Store, key: &str) -> Option<String> {
    files.borrow().get(key).map(|b| String::from_utf8(b.clone()).unwrap())
}

#[test]
fn mount_and_read_write_osfs() {
    let files = store();
    put(&files, "root/hello.txt", "world");

    let mut vfs = Vfs::new();
    vfs.mount("game", MemFs::new(&files, "root", "game_assets"), true);

    assert!(vfs.path_exists("game/hello.txt"));
    let s = vfs.read_to_string("game/hello.txt").unwrap();
    assert_eq!(s, "world");

    vfs.write_bytes("game/new.txt", b"abc").unwrap();
    assert_eq!(get(&files, "root/new.txt").unwrap(), "abc");
}

#[test]
fn mount_priority() {
    let files = store();
    put(&files, "a/x.txt", "from_a");
    put(&files, "b/x.txt", "from_b");

    let mut vfs = Vfs::new();
    vfs.mount("common", MemFs::new(&files, "a", "A"), false);
    vfs.mount("common", MemFs::new(&files, "b", "B"), false);

    let s = vfs.read_to_string("common/x.txt").unwrap();
    assert_eq!(s, "from_b");
}

#[test]
fn engine_basic_flow() {
    disk_put("engine_flow_root/a.txt", b"hello");

    let mut engine: Engine<MemFs> = Engine::default();
    engine.mount_os("game", "engine_flow_root", "game", true);

    let b = engine.loader.load_bytes("game/a.txt").unwrap();
    assert_eq!(std::str::from_utf8(&b[..]).unwrap(), "hello");

    engine.loader.write_bytes("game/b.txt", b"xyz").unwrap();
    assert_eq!(disk_get("engine_flow_root/b.txt").unwrap(), b"xyz".to_vec());
}

#[test]
fn unmount_of_later_prefix_restores_catch_all() {
    let files = store();
    put(&files, "base/x/file", "from_a");
    put(&files, "over/file", "from_b");

    let mut vfs = Vfs::new();
    vfs.mount("", MemFs::new(&files, "base", "A"), false);
    vfs.mount("x", MemFs::new(&files, "over", "B"), false);
    assert_eq!(vfs.read_to_string("x/file").unwrap(), "from_b");

    vfs.unmount("x");
    assert_eq!(vfs.read_to_string("x/file").unwrap(), "from_a");
}

#[test]
fn unmount_uncovers_the_mount_below() {
    let files = store();
    put(&files, "a/file", "from_a");
    put(&files, "b/file", "from_b");

    let mut vfs = Vfs::new();
    vfs.mount("x", MemFs::new(&files, "a", "A"), false);
    vfs.mount("x", MemFs::new(&files, "b", "B"), false);
    assert_eq!(vfs.read_to_string("x/file").unwrap(), "from_b");
    vfs.unmount("x/");
    assert_eq!(vfs.read_to_string("x/file").unwrap(), "from_a");
    assert_eq!(vfs.debug_list_mounts().len(), 1);
    vfs.unmount("x");
    assert!(matches!(vfs.read_to_string("x/file"), Err(VfsError::NoMount)));
    vfs.unmount("x");
    assert_eq!(vfs.debug_list_mounts().len(), 0);
}

#[test]
fn prefix_matches_whole_components_only() {
    let files = store();
    put(&files, "a/x.txt", "from_a");

    let mut vfs = Vfs::new();
    vfs.mount("common", MemFs::new(&files, "a", "A"), false);
    assert!(matches!(vfs.read_bytes("commonx/x.txt"), Err(VfsError::NoMount)));
    assert!(!vfs.path_exists("commonx/x.txt"));
    assert_eq!(vfs.read_to_string("common//x.txt").unwrap(), "from_a");
    assert_eq!(vfs.read_to_string("./common/x.txt").is_err(), true);
}

#[test]
fn read_without_mount_is_no_mount() {
    let vfs: Vfs<MemFs> = Vfs::new();
    assert!(matches!(vfs.read_bytes("game/a.txt"), Err(VfsError::NoMount)));
    assert!(matches!(vfs.read_to_string("game/a.txt"), Err(VfsError::NoMount)));
    assert!(!vfs.path_exists("game/a.txt"));
}

#[test]
fn missing_file_is_a_backend_error() {
    let files = store();
    let mut vfs = Vfs::new();
    vfs.mount("game", MemFs::new(&files, "root", "game"), true);
    assert!(matches!(vfs.read_bytes("game/none.txt"), Err(VfsError::Backend(FsError::NotFound))));
}

#[test]
fn write_needs_a_writable_mount() {
    let files = store();
    let mut vfs = Vfs::new();
    vfs.mount("game", MemFs::new(&files, "ro", "ro"), false);
    assert!(matches!(vfs.write_bytes("game/a.txt", b"1"), Err(VfsError::NoWritableMount)));

    vfs.mount("", MemFs::new(&files, "rw", "rw"), true);
    vfs.mount("game", MemFs::new(&files, "ro2", "ro2"), false);
    vfs.write_bytes("game/a.txt", b"1").unwrap();
    assert_eq!(get(&files, "rw/game/a.txt").unwrap(), "1");
}

#[test]
fn mounts_are_listed_from_lowest_priority() {
    let files = store();
    let mut vfs = Vfs::new();
    vfs.mount("engine", MemFs::new(&files, "e", "Engine"), false);
    vfs.mount("assets", MemFs::new(&files, "s", "Assets"), true);
    let list = vfs.debug_list_mounts();
    assert_eq!(
        list,
        vec![
            ("engine".to_string(), "Engine".to_string(), false),
            ("assets".to_string(), "Assets".to_string(), true)
        ]
    );
}

#[test]
fn engine_init_mounts_engine_and_assets() {
    let mut engine: Engine<MemFs> = Engine::default();
    assert_eq!(Engine::<MemFs>::NAME, "Gena");
    assert_eq!(engine.vfs().debug_list_mounts().len(), 0);
    engine.init();
    let list = engine.vfs().debug_list_mounts();
    assert_eq!(
        list,
        vec![
            ("engine".to_string(), "Engine".to_string(), false),
            ("assets".to_string(), "Assets".to_string(), true)
        ]
    );
    engine.mount_os("mods", "mods_dir", "Mods", false);
    assert_eq!(engine.vfs().debug_list_mounts().len(), 3);
    engine.unmount("assets");
    let names: Vec<String> = engine.vfs().debug_list_mounts().into_iter().map(|m| m.0).collect();
    assert_eq!(names, vec!["engine".to_string(), "mods".to_string()]);
}

#[test]
fn mount_os_binds_the_backend_to_its_root() {
    let mut vfs: Vfs<MemFs> = Vfs::new();
    vfs.mount_os("game", "game_dir", "Game", true);
    vfs.write_bytes("game/sub/a.txt", b"q").unwrap();
    assert_eq!(vfs.read_to_string("game/sub/a.txt").unwrap(), "q");
    assert_eq!(disk_get("game_dir/sub/a.txt").unwrap(), b"q".to_vec());
    let resolved = vfs.resolve_mount_for("game/sub/a.txt").unwrap();
    assert_eq!(resolved, (0, "sub/a.txt".to_string(), true));
}

#[test]
fn resolve_gives_the_relative_path() {
    let files = store();
    let mut vfs = Vfs::new();
    vfs.mount("", MemFs::new(&files, "all", "all"), false);
    vfs.mount("a/b", MemFs::new(&files, "ab", "ab"), true);
    assert_eq!(vfs.resolve_mount_for("a/b/c/d.png").unwrap(), (1, "c/d.png".to_string(), true));
    assert_eq!(vfs.resolve_mount_for("a/c.png").unwrap(), (0, "a/c.png".to_string(), false));
    assert_eq!(vfs.resolve_writable_for("a/c.png"), None);
    assert_eq!(vfs.resolve_writable_for("a/b/x").unwrap(), (1, "x".to_string()));
}

#[test]
fn ofs_resolves_under_its_root() {
    let o = Ofs::new("root", "r");
    assert_eq!(o.resolve_path("a.txt"), "root/a.txt");
    assert_eq!(o.resolve_path("/abs/a.txt"), "/abs/a.txt");
    assert_eq!(Ofs::new("root/", "r").resolve_path("a.txt"), "root/a.txt");
    assert_eq!(Ofs::new("", "r").resolve_path("a.txt"), "a.txt");
    assert_eq!(o.root(), "root");
    assert_eq!(o.name(), "r");
}

#[test]
fn raw_resource_keeps_path_and_bytes() {
    let r = RawResource::new("game/a.bin", vec![1, 2, 3]);
    assert_eq!(r.path, "game/a.bin");
    assert_eq!(r.data, vec![1, 2, 3]);
}

#[test]
fn load_image_reports_missing_mount_and_bad_bytes() {
    let files = store();
    put(&files, "root/bad.png", "not an image");
    let mut vfs = Vfs::new();
    vfs.mount("game", MemFs::new(&files, "root", "game"), false);
    let loader = AssetLoader::new(vfs);
    assert!(matches!(loader.load_image("other/bad.png"), Err(AssetError::Read(VfsError::NoMount))));
    assert!(matches!(loader.load_image("game/bad.png"), Err(AssetError::Decode)));
}
