//! Per-window surface and input state: the configured surface size, the keys
//! held down, mouse capture, UI frame bracketing, and what to do with a frame
//! once the surface has been asked for its next texture.
use std::collections::HashSet;
use vstd::prelude::*;

verus! {

broadcast use vstd::std_specs::hash::group_hash_axioms;

/// The size the presentable surface is configured with, in pixels.
#[derive(Clone, Copy, Debug, PartialEq, Eq, Structural)]
pub struct SurfaceSize {
    pub width: u32,
    pub height: u32,
}

/// How asking the surface for its next texture went.
#[derive(Clone, Copy, Debug, PartialEq, Eq, Structural)]
pub enum SurfaceStatus {
    Acquired,
    Timeout,
    Outdated,
    Lost,
    OutOfMemory,
    Other,
}

/// What the frame does next.
#[derive(Clone, Copy, Debug, PartialEq, Eq, Structural)]
pub enum FrameStep {
    /// Record and present the frame.
    Draw,
    /// Drop the frame quietly.
    Skip,
    /// Configure the surface again at this size, and drop the frame.
    Reconfigure(SurfaceSize),
    /// Report the condition, and drop the frame.
    Report,
}

/// How the surface hands finished frames to the display.
#[derive(Clone, Copy, Debug, PartialEq, Eq, Structural)]
pub enum PresentMode {
    Fifo,
    Mailbox,
}

/// Input and surface state of one window.
pub struct WindowState {
    config: SurfaceSize,
    pressed_keys: HashSet<u32>,
    mouse_captured: bool,
    frame_started: bool,
}

impl WindowState {
    pub closed spec fn size(&self) -> SurfaceSize {
        self.config
    }

    /// Codes of the keys held down.
    pub closed spec fn keys(&self) -> Set<u32> {
        self.pressed_keys@
    }

    pub closed spec fn captured(&self) -> bool {
        self.mouse_captured
    }

    /// A UI frame has begun and not yet ended.
    pub closed spec fn in_frame(&self) -> bool {
        self.frame_started
    }

    /// A window whose surface is configured at `width` by `height`, with no key
    /// down, the mouse free and no UI frame open.
    pub fn new(width: u32, height: u32) -> (r: WindowState)
        ensures
            r.size() == (SurfaceSize { width, height }),
            r.keys() == Set::<u32>::empty(),
            !r.captured(),
            !r.in_frame(),
    {
        WindowState {
            config: SurfaceSize { width, height },
            pressed_keys: HashSet::new(),
            mouse_captured: false,
            frame_started: false,
        }
    }

    pub fn surface_size(&self) -> (r: SurfaceSize)
        ensures
            r == self.size(),
    {
        self.config
    }

    pub fn press_key(&mut self, key: u32)
        ensures
            final(self).keys() == old(self).keys().insert(key),
            final(self).size() == old(self).size(),
            final(self).captured() == old(self).captured(),
            final(self).in_frame() == old(self).in_frame(),
    {
        self.pressed_keys.insert(key);
    }

    pub fn release_key(&mut self, key: u32)
        ensures
            final(self).keys() == old(self).keys().remove(key),
            final(self).size() == old(self).size(),
            final(self).captured() == old(self).captured(),
            final(self).in_frame() == old(self).in_frame(),
    {
        self.pressed_keys.remove(&key);
    }

    pub fn is_key_pressed(&self, key: u32) -> (r: bool)
        ensures
            r == self.keys().contains(key),
    {
        self.pressed_keys.contains(&key)
    }

    /// Records whether pointer motion is captured; the platform grab is the caller's.
    pub fn set_mouse_capture(&mut self, capture: bool)
        ensures
            final(self).captured() == capture,
            final(self).size() == old(self).size(),
            final(self).keys() == old(self).keys(),
            final(self).in_frame() == old(self).in_frame(),
    {
        self.mouse_captured = capture;
    }

    pub fn is_mouse_captured(&self) -> (r: bool)
        ensures
            r == self.captured(),
    {
        self.mouse_captured
    }

    /// Takes the new surface size. A zero width or height leaves everything as it
    /// was; otherwise the size is stored, and true says that the surface must be
    /// configured again.
    pub fn resize_surface(&mut self, width: u32, height: u32) -> (reconfigure: bool)
        ensures
            reconfigure == (width != 0 && height != 0),
            reconfigure ==> final(self).size() == (SurfaceSize { width, height }),
            !reconfigure ==> final(self).size() == old(self).size(),
            final(self).keys() == old(self).keys(),
            final(self).captured() == old(self).captured(),
            final(self).in_frame() == old(self).in_frame(),
    {
        if width == 0 || height == 0 {
            return false;
        }
        self.config = SurfaceSize { width, height };
        true
    }

    /// Opens a UI frame.
    pub fn begin_frame(&mut self)
        ensures
            final(self).in_frame(),
            final(self).size() == old(self).size(),
            final(self).keys() == old(self).keys(),
            final(self).captured() == old(self).captured(),
    {
        self.frame_started = true;
    }

    /// Closes the UI frame. True when one was open and its output is to be drawn;
    /// false when none was, and nothing is to be drawn.
    pub fn end_frame(&mut self) -> (draw: bool)
        ensures
            draw == old(self).in_frame(),
            !final(self).in_frame(),
            final(self).size() == old(self).size(),
            final(self).keys() == old(self).keys(),
            final(self).captured() == old(self).captured(),
    {
        let draw = self.frame_started;
        self.frame_started = false;
        draw
    }

    /// What to do once the surface has answered with `status`: draw when a texture
    /// came; drop an outdated frame; configure a lost surface again at the last size;
    /// report anything else.
    pub fn frame_step(&self, status: SurfaceStatus) -> (r: FrameStep)
        ensures
            r == match status {
                SurfaceStatus::Acquired => FrameStep::Draw,
                SurfaceStatus::Outdated => FrameStep::Skip,
                SurfaceStatus::Lost => FrameStep::Reconfigure(self.size()),
                _ => FrameStep::Report,
            },
    {
        match status {
            SurfaceStatus::Acquired => FrameStep::Draw,
            SurfaceStatus::Outdated => FrameStep::Skip,
            SurfaceStatus::Lost => FrameStep::Reconfigure(self.config),
            _ => FrameStep::Report,
        }
    }
}

/// Among the formats a surface offers, flagged where they are the preferred one:
/// the first preferred format, else the first offered; none when none is offered.
pub fn pick_format(preferred: &Vec<bool>) -> (r: Option<usize>)
    ensures
        r is None <==> preferred@.len() == 0,
        r matches Some(i) ==> i < preferred@.len() && if preferred@.contains(true) {
            preferred@[i as int] && forall|j: int| 0 <= j < i ==> !preferred@[j]
        } else {
            i == 0
        },
{
    let mut i: usize = 0;
    while i < preferred.len() && !preferred[i]
        invariant
            i <= preferred@.len(),
            forall|j: int| 0 <= j < i ==> !preferred@[j],
        decreases preferred.len() - i,
    {
        i = i + 1;
    }
    if i < preferred.len() {
        proof {
            assert(preferred@[i as int]);
        }
        Some(i)
    } else if preferred.len() > 0 {
        proof {
            assert(!preferred@.contains(true));
        }
        Some(0)
    } else {
        None
    }
}

/// Mailbox where the surface supports it, else Fifo, which every surface supports.
pub fn pick_present_mode(mailbox_supported: bool) -> (r: PresentMode)
    ensures
        r == (if mailbox_supported {
            PresentMode::Mailbox
        } else {
            PresentMode::Fifo
        }),
{
    if mailbox_supported {
        PresentMode::Mailbox
    } else {
        PresentMode::Fifo
    }
}

} // verus!
