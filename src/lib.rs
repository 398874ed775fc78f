//! A small 2D engine core: a virtual filesystem with prioritised mounts, asset
//! loading, surface and input state, sprite batching, ordered render passes and
//! a registry of windows.

pub mod assets;
pub mod batch;
pub mod camera;
pub mod engine;
pub mod fs;
pub mod input;
pub mod passes;
pub mod path;
pub mod surface;
pub mod texture;
pub mod windows;

pub use assets::{AssetError, AssetLoader, RawResource};
pub use batch::{plan_batches, DrawBatch, INSTANCE_CAPACITY};
pub use camera::CameraMovement2D;
pub use engine::Engine;
pub use fs::{FileSystem, FsError, Mount, Ofs, Vfs, VfsError};
pub use input::{route_input, InputAction, InputEvent};
pub use passes::{EguiPass, PassManager, RenderPass};
pub use surface::{
    pick_format, pick_present_mode, FrameStep, PresentMode, SurfaceSize, SurfaceStatus, WindowState,
};
pub use texture::{TextureError, TextureImage};
pub use windows::WindowManager;
