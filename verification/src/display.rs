//! Display backends: what each one has set up, and what it has to do next.
//!
//! The windowing calls themselves are the caller's. It tells a display what the
//! window reports and carries out what the display decides.

use crate::num::{larger, lemma_product_not_negative};
use crate::post::{effective, PostChain, PostEffect};
use vstd::prelude::*;

verus! {

/// A width and a height, in pixels.
#[derive(Debug, Clone, Copy, PartialEq, Eq, Structural)]
pub struct Extent {
    pub width: u32,
    pub height: u32,
}

impl Extent {
    /// The extent with neither side below one.
    pub open spec fn spec_at_least_one(self) -> Extent {
        Extent {
            width: larger(self.width as int, 1) as u32,
            height: larger(self.height as int, 1) as u32,
        }
    }

    /// The extent with neither side below one.
    pub fn at_least_one(self) -> (extent: Extent)
        ensures
            extent == self.spec_at_least_one(),
    {
        Extent {
            width: if self.width >= 1 {
                self.width
            } else {
                1
            },
            height: if self.height >= 1 {
                self.height
            } else {
                1
            },
        }
    }
}

/// How a window covers the screen.
#[derive(Debug, Clone, Copy, PartialEq, Eq, Structural)]
pub enum FullscreenMode {
    Windowed,
    Borderless,
    Exclusive,
}

impl FullscreenMode {
    /// 0=windowed, 1=borderless, 2=exclusive. Any other number is windowed.
    pub open spec fn spec_from_mode(mode: u8) -> FullscreenMode {
        if mode == 1 {
            FullscreenMode::Borderless
        } else if mode == 2 {
            FullscreenMode::Exclusive
        } else {
            FullscreenMode::Windowed
        }
    }

    /// 0=windowed, 1=borderless, 2=exclusive. Any other number is windowed.
    pub fn from_mode(mode: u8) -> (r: FullscreenMode)
        ensures
            r == FullscreenMode::spec_from_mode(mode),
    {
        match mode {
            1 => FullscreenMode::Borderless,
            2 => FullscreenMode::Exclusive,
            _ => FullscreenMode::Windowed,
        }
    }
}

/// What is known of a monitor.
#[derive(Debug, Clone, Copy, PartialEq, Eq, Structural)]
pub enum Monitor {
    /// There is no such monitor.
    Missing,
    /// The monitor lists no video mode.
    Bare,
    /// The monitor lists a video mode.
    Ready,
}

/// What a winit window is set to.
#[derive(Debug, Clone, Copy, PartialEq, Eq, Structural)]
pub enum WindowState {
    Windowed,
    Borderless,
    /// Exclusive, in the first video mode of the window's own monitor.
    ExclusiveOnCurrent,
    /// Exclusive, in the first video mode of the primary monitor.
    ExclusiveOnPrimary,
}

/// What a winit window is set to for `mode`. Exclusive mode takes the monitor
/// that the window is on, or the primary one if it is on none; a monitor
/// without video modes leaves the window windowed.
pub open spec fn spec_window_state(mode: u8, current: Monitor, primary: Monitor) -> WindowState {
    match FullscreenMode::spec_from_mode(mode) {
        FullscreenMode::Windowed => WindowState::Windowed,
        FullscreenMode::Borderless => WindowState::Borderless,
        FullscreenMode::Exclusive => match current {
            Monitor::Ready => WindowState::ExclusiveOnCurrent,
            Monitor::Bare => WindowState::Windowed,
            Monitor::Missing => match primary {
                Monitor::Ready => WindowState::ExclusiveOnPrimary,
                _ => WindowState::Windowed,
            },
        },
    }
}

/// What a winit window is set to for `mode`.
pub fn window_state(mode: u8, current: Monitor, primary: Monitor) -> (state: WindowState)
    ensures
        state == spec_window_state(mode, current, primary),
{
    match FullscreenMode::from_mode(mode) {
        FullscreenMode::Windowed => WindowState::Windowed,
        FullscreenMode::Borderless => WindowState::Borderless,
        FullscreenMode::Exclusive => match current {
            Monitor::Ready => WindowState::ExclusiveOnCurrent,
            Monitor::Bare => WindowState::Windowed,
            Monitor::Missing => match primary {
                Monitor::Ready => WindowState::ExclusiveOnPrimary,
                Monitor::Bare => WindowState::Windowed,
                Monitor::Missing => WindowState::Windowed,
            },
        },
    }
}

/// Pixel formats of an SDL2 streaming texture.
#[derive(Debug, Clone, Copy, PartialEq, Eq, Structural)]
pub enum TextureFormat {
    Rgb888,
    Rgb565,
}

/// The texture format for pixels of `pixel_size` bytes; there is none for other
/// sizes than four and two.
pub open spec fn spec_texture_format(pixel_size: usize) -> Option<TextureFormat> {
    if pixel_size == 4 {
        Some(TextureFormat::Rgb888)
    } else if pixel_size == 2 {
        Some(TextureFormat::Rgb565)
    } else {
        None
    }
}

/// The texture format for pixels of `pixel_size` bytes.
pub fn texture_format(pixel_size: usize) -> (format: Option<TextureFormat>)
    ensures
        format == spec_texture_format(pixel_size),
{
    match pixel_size {
        4 => Some(TextureFormat::Rgb888),
        2 => Some(TextureFormat::Rgb565),
        _ => None,
    }
}

/// SDL2 display: the streaming texture and the part of the canvas it fills.
#[derive(Debug, Clone, Copy)]
pub struct Sdl2Display {
    pub tex_size: Extent,
    /// `None` until the first frame.
    pub tex_format: Option<TextureFormat>,
    pub crop: Extent,
}

impl Sdl2Display {
    /// The display of a canvas with a drawable area of this size. The texture is
    /// created lazily on first blit to match the framebuffer dimensions.
    pub fn from_canvas(drawable: Extent) -> (display: Self)
        ensures
            display == (Sdl2Display {
                tex_size: Extent { width: 0, height: 0 },
                tex_format: None,
                crop: drawable,
            }),
    {
        Self { tex_size: Extent { width: 0, height: 0 }, tex_format: None, crop: drawable }
    }

    /// Whether the streaming texture has this size and format.
    pub open spec fn has_texture(self, size: Extent, format: TextureFormat) -> bool {
        self.tex_size == size && self.tex_format == Some(format)
    }

    /// The display once it has a texture of this size and format: the one it had
    /// if it fits, else a new one that fills the whole of `drawable`.
    pub open spec fn with_texture(
        self,
        size: Extent,
        format: TextureFormat,
        drawable: Extent,
    ) -> Sdl2Display {
        if self.has_texture(size, format) {
            self
        } else {
            Sdl2Display { tex_size: size, tex_format: Some(format), crop: drawable }
        }
    }

    /// Ensure the streaming texture matches the buffer dimensions and pixel
    /// format. Returns whether it has to be created anew; it then fills the
    /// whole of `drawable`.
    pub fn ensure_texture(&mut self, size: Extent, format: TextureFormat, drawable: Extent) -> (create:
        bool)
        ensures
            create == !old(self).has_texture(size, format),
            *final(self) == old(self).with_texture(size, format, drawable),
    {
        let same_format = match self.tex_format {
            Some(f) => f == format,
            None => false,
        };
        if self.tex_size == size && same_format {
            return false;
        }
        self.tex_size = size;
        self.tex_format = Some(format);
        self.crop = drawable;
        true
    }

    /// How the SDL2 window covers the screen for `mode`.
    pub fn set_fullscreen(&self, mode: u8) -> (r: FullscreenMode)
        ensures
            r == FullscreenMode::spec_from_mode(mode),
    {
        FullscreenMode::from_mode(mode)
    }
}

/// How many pixels of `pixel_size` bytes `bytes` bytes are.
pub fn in_pixels(bytes: usize, pixel_size: usize) -> (n: usize)
    requires
        pixel_size > 0,
    ensures
        n == bytes / pixel_size,
{
    bytes / pixel_size
}

/// Softbuffer display: it keeps nothing between frames.
#[derive(Debug, Clone, Copy)]
pub struct SoftbufferDisplay {}

impl SoftbufferDisplay {
    /// The size that the surface is given for a frame: that of the buffer, but
    /// a surface cannot be empty.
    pub fn surface_size(&self, buffer: Extent) -> (size: Extent)
        ensures
            size == buffer.spec_at_least_one(),
    {
        buffer.at_least_one()
    }
}

/// Pixels display: the size of the framebuffer texture.
#[derive(Debug, Clone, Copy)]
pub struct PixelsDisplay {
    pub texture: Extent,
}

impl PixelsDisplay {
    /// The texture starts as large as the window.
    pub fn new(window: Extent) -> (display: Self)
        ensures
            display.texture == window,
    {
        Self { texture: window }
    }

    /// Makes the texture as large as the frame. Returns whether it has to be
    /// resized, and what draws it rebound.
    pub fn ensure_texture(&mut self, frame: Extent) -> (resize: bool)
        ensures
            resize == (old(self).texture != frame),
            final(self).texture == frame,
    {
        let resize = self.texture.width != frame.width || self.texture.height != frame.height;
        self.texture = frame;
        resize
    }
}

/// Backend-agnostic display presentation.
#[derive(Debug, Clone, Copy)]
pub enum DisplayBackend {
    Sdl2(Sdl2Display),
    Softbuffer(SoftbufferDisplay),
    Pixels(PixelsDisplay),
}

/// What a display has to do to its window to change fullscreen mode.
#[derive(Debug, Clone, Copy, PartialEq, Eq, Structural)]
pub enum FullscreenAction {
    Sdl2(FullscreenMode),
    Winit(WindowState),
}

/// What a display has to set up before a frame is composed.
#[derive(Debug, Clone, Copy, PartialEq, Eq, Structural)]
pub enum FrameSetup {
    /// Whether to create the streaming texture, and the part of the canvas that
    /// it is copied to.
    Sdl2 { create: bool, crop: Extent },
    /// The size to give to the surface.
    Softbuffer { surface: Extent },
    /// Whether to resize the texture, and the size to give to the surface.
    Pixels { resize: bool, surface: Extent },
}

impl DisplayBackend {
    /// What the window has to be set to for `mode`.
    pub open spec fn fullscreen_action(
        self,
        mode: u8,
        current: Monitor,
        primary: Monitor,
    ) -> FullscreenAction {
        match self {
            DisplayBackend::Sdl2(_) => FullscreenAction::Sdl2(FullscreenMode::spec_from_mode(mode)),
            _ => FullscreenAction::Winit(spec_window_state(mode, current, primary)),
        }
    }

    /// The display once it is ready for a frame of u32 pixels of this size.
    pub open spec fn prepared(self, frame: Extent, area: Extent) -> DisplayBackend {
        match self {
            DisplayBackend::Sdl2(d) => DisplayBackend::Sdl2(
                d.with_texture(frame, TextureFormat::Rgb888, area),
            ),
            DisplayBackend::Softbuffer(_) => self,
            DisplayBackend::Pixels(_) => DisplayBackend::Pixels(PixelsDisplay { texture: frame }),
        }
    }

    /// What has to be set up for a frame of u32 pixels of this size.
    pub open spec fn setup(self, frame: Extent, area: Extent) -> FrameSetup {
        match self {
            DisplayBackend::Sdl2(d) => FrameSetup::Sdl2 {
                create: !d.has_texture(frame, TextureFormat::Rgb888),
                crop: d.with_texture(frame, TextureFormat::Rgb888, area).crop,
            },
            DisplayBackend::Softbuffer(_) => FrameSetup::Softbuffer {
                surface: frame.spec_at_least_one(),
            },
            DisplayBackend::Pixels(d) => FrameSetup::Pixels {
                resize: d.texture != frame,
                surface: area,
            },
        }
    }

    /// Set fullscreen mode: 0=windowed, 1=borderless, 2=exclusive.
    pub fn set_fullscreen(&self, mode: u8, current: Monitor, primary: Monitor) -> (action:
        FullscreenAction)
        ensures
            action == self.fullscreen_action(mode, current, primary),
    {
        match self {
            DisplayBackend::Sdl2(d) => FullscreenAction::Sdl2(d.set_fullscreen(mode)),
            DisplayBackend::Softbuffer(_) => FullscreenAction::Winit(
                window_state(mode, current, primary),
            ),
            DisplayBackend::Pixels(_) => FullscreenAction::Winit(
                window_state(mode, current, primary),
            ),
        }
    }

    /// Prepares the display for a frame of u32 pixels of this size. `area` is
    /// what the window has room for: the drawable area of an SDL2 canvas, the
    /// inner size of a winit window.
    pub fn render_frame(&mut self, frame: Extent, area: Extent) -> (setup: FrameSetup)
        ensures
            *final(self) == old(self).prepared(frame, area),
            setup == old(self).setup(frame, area),
    {
        match self {
            DisplayBackend::Sdl2(d) => {
                let create = d.ensure_texture(frame, TextureFormat::Rgb888, area);
                FrameSetup::Sdl2 { create, crop: d.crop }
            },
            DisplayBackend::Softbuffer(d) => FrameSetup::Softbuffer {
                surface: d.surface_size(frame),
            },
            DisplayBackend::Pixels(d) => {
                let resize = d.ensure_texture(frame);
                FrameSetup::Pixels { resize, surface: area }
            },
        }
    }
}

/// The engine framebuffer's CPU scratch and dimensions.
pub struct FrameTexture {
    /// CPU-side framebuffer the engine composes into; uploaded each frame.
    pub scratch: Vec<u32>,
    pub size: Extent,
}

impl FrameTexture {
    /// The scratch has a pixel for every texel.
    pub open spec fn wf(&self) -> bool {
        self.scratch@.len() == self.size.width * self.size.height
    }

    /// A cleared framebuffer.
    pub fn new(size: Extent) -> (frame: Self)
        requires
            size.width * size.height <= u32::MAX,
        ensures
            frame.wf(),
            frame.size == size,
            frame.scratch@ == Seq::new((size.width * size.height) as nat, |i: int| 0u32),
    {
        proof {
            lemma_product_not_negative(size.width as int, size.height as int);
        }
        let n: u32 = size.width * size.height;
        let frame = Self { scratch: vec![0u32; n as usize], size };
        assert(frame.scratch@ =~= Seq::new((size.width * size.height) as nat, |i: int| 0u32));
        frame
    }

    /// Bytes of one row of the framebuffer.
    pub fn bytes_per_row(&self) -> (n: u32)
        requires
            self.size.width * 4 <= u32::MAX,
        ensures
            n == self.size.width * 4,
    {
        self.size.width * 4
    }
}

/// What a wgpu display has to bring up to date before a frame is composed.
#[derive(Debug, Clone, Copy, PartialEq, Eq, Structural)]
pub struct SizeSync {
    /// The framebuffer texture has to be created anew.
    pub frame_changed: bool,
    /// The surface has to be reconfigured.
    pub surface_changed: bool,
    /// The post chain has to be rebuilt over its new inputs.
    pub rebuild_chain: bool,
}

/// What is out of date in a display whose framebuffer and surface have these
/// sizes, for an engine buffer and a window of those.
pub open spec fn out_of_date(
    frame: Extent,
    surface: Extent,
    buffer: Extent,
    window: Extent,
) -> SizeSync {
    SizeSync {
        frame_changed: frame != buffer,
        surface_changed: surface != window.spec_at_least_one(),
        rebuild_chain: frame != buffer || surface != window.spec_at_least_one(),
    }
}

/// wgpu display: the framebuffer, the post-process chain and the last
/// configured surface size.
pub struct WgpuDisplay {
    pub frame: FrameTexture,
    pub chain: PostChain,
    /// Reconfigure only on change (a surface's reconfiguration may be a pipeline
    /// stall).
    pub surface_size: Extent,
}

impl WgpuDisplay {
    /// What every wgpu display keeps.
    pub open spec fn wf(&self) -> bool {
        &&& self.frame.wf()
        &&& self.chain.wf()
        &&& self.surface_size.width >= 1
        &&& self.surface_size.height >= 1
    }

    /// The display of a window of this size. The framebuffer starts at the window
    /// size; the first frame resizes it to the engine buffer size.
    pub fn new(window: Extent, post: Vec<PostEffect>) -> (display: Self)
        requires
            window.spec_at_least_one().width * window.spec_at_least_one().height <= u32::MAX,
        ensures
            display.wf(),
            display.surface_size == window.spec_at_least_one(),
            display.frame.size == window.spec_at_least_one(),
            display.frame.scratch@ == Seq::new(
                (window.spec_at_least_one().width * window.spec_at_least_one().height) as nat,
                |i: int| 0u32,
            ),
            display.chain@ == effective(post@),
    {
        let size: Extent = window.at_least_one();
        Self { frame: FrameTexture::new(size), chain: PostChain::new(post), surface_size: size }
    }

    /// Resize the framebuffer to the engine buffer and the surface to the window
    /// when either changed. A new framebuffer is cleared.
    pub fn sync_sizes(&mut self, buffer: Extent, window: Extent) -> (sync: SizeSync)
        requires
            old(self).wf(),
            buffer.width * buffer.height <= u32::MAX,
        ensures
            final(self).wf(),
            final(self).chain@ == old(self).chain@,
            final(self).frame.size == buffer,
            final(self).surface_size == window.spec_at_least_one(),
            final(self).frame.scratch@ == (if sync.frame_changed {
                Seq::new((buffer.width * buffer.height) as nat, |i: int| 0u32)
            } else {
                old(self).frame.scratch@
            }),
            sync == out_of_date(old(self).frame.size, old(self).surface_size, buffer, window),
    {
        let frame_changed = self.frame.size.width != buffer.width || self.frame.size.height
            != buffer.height;
        if frame_changed {
            self.frame = FrameTexture::new(buffer);
        }
        let win: Extent = window.at_least_one();
        let surface_changed = win.width != self.surface_size.width || win.height
            != self.surface_size.height;
        if surface_changed {
            self.surface_size = win;
        }
        SizeSync { frame_changed, surface_changed, rebuild_chain: frame_changed || surface_changed }
    }
}

/// What to do after an attempt to acquire the next swapchain texture.
#[derive(Debug, Clone, Copy, PartialEq, Eq, Structural)]
pub enum AcquireStep {
    /// Draw into the texture.
    Draw,
    /// Reconfigure the surface and try again.
    Reconfigure,
    /// Drop the frame.
    DropFrame,
}

/// Acquire the next swapchain texture, reconfiguring and retrying once if the
/// surface is lost/outdated. `retried` says whether this was the second attempt.
pub fn acquire_step(available: bool, retried: bool) -> (step: AcquireStep)
    ensures
        step == AcquireStep::Draw <==> available,
        step == AcquireStep::Reconfigure <==> !available && !retried,
        step == AcquireStep::DropFrame <==> !available && retried,
{
    if available {
        AcquireStep::Draw
    } else if retried {
        AcquireStep::DropFrame
    } else {
        AcquireStep::Reconfigure
    }
}

/// A texture is created once: a second frame of the same size and format finds
/// it there, whatever the drawable area has become.
pub proof fn law_texture_is_created_once(
    display: Sdl2Display,
    size: Extent,
    format: TextureFormat,
    drawable: Extent,
    later: Extent,
)
    ensures
        display.with_texture(size, format, drawable).has_texture(size, format),
        display.with_texture(size, format, drawable).with_texture(size, format, later)
            == display.with_texture(size, format, drawable),
{
}

/// A display that is ready for a frame has nothing to create or resize for the
/// next one of the same size, whatever became of the window.
pub proof fn law_ready_display_rests(
    display: DisplayBackend,
    frame: Extent,
    area: Extent,
    later: Extent,
)
    ensures
        display.prepared(frame, area).prepared(frame, later) == display.prepared(frame, area),
        match display.prepared(frame, area).setup(frame, later) {
            FrameSetup::Sdl2 { create, .. } => !create,
            FrameSetup::Softbuffer { .. } => true,
            FrameSetup::Pixels { resize, .. } => !resize,
        },
{
}

/// A display that has been brought up to date stays so while neither the buffer
/// nor the window changes.
pub proof fn law_synced_display_rests(buffer: Extent, window: Extent)
    ensures
        out_of_date(buffer, window.spec_at_least_one(), buffer, window) == (SizeSync {
            frame_changed: false,
            surface_changed: false,
            rebuild_chain: false,
        }),
{
}

/// Only the mode numbers for borderless and exclusive leave the window mode.
pub proof fn law_other_modes_are_windowed(mode: u8, current: Monitor, primary: Monitor)
    requires
        mode != 1,
        mode != 2,
    ensures
        FullscreenMode::spec_from_mode(mode) == FullscreenMode::Windowed,
        spec_window_state(mode, current, primary) == WindowState::Windowed,
{
}

/// A side that is not empty stays as it is; an empty one becomes one pixel.
pub proof fn law_sides_are_at_least_one(extent: Extent)
    ensures
        extent.width >= 1 ==> extent.spec_at_least_one().width == extent.width,
        extent.width == 0 ==> extent.spec_at_least_one().width == 1,
        extent.height >= 1 ==> extent.spec_at_least_one().height == extent.height,
        extent.height == 0 ==> extent.spec_at_least_one().height == 1,
{
}

/// One is borderless and two exclusive. An exclusive winit window takes the
/// monitor that it is on, whether that has video modes or not, and the primary one
/// only if it is on none.
pub proof fn law_modes_choose_window_state(mode: u8, current: Monitor, primary: Monitor)
    ensures
        mode == 1 <==> FullscreenMode::spec_from_mode(mode) == FullscreenMode::Borderless,
        mode == 2 <==> FullscreenMode::spec_from_mode(mode) == FullscreenMode::Exclusive,
        spec_window_state(mode, current, primary) == WindowState::Borderless <==> mode == 1,
        spec_window_state(mode, current, primary) == WindowState::ExclusiveOnCurrent <==> mode == 2
            && current == Monitor::Ready,
        spec_window_state(mode, current, primary) == WindowState::ExclusiveOnPrimary <==> mode == 2
            && current == Monitor::Missing && primary == Monitor::Ready,
{
}

/// An SDL2 display asks SDL2 for the mode, the others ask winit.
pub proof fn law_display_asks_its_own_window(
    display: DisplayBackend,
    mode: u8,
    current: Monitor,
    primary: Monitor,
)
    ensures
        match display {
            DisplayBackend::Sdl2(_) => display.fullscreen_action(mode, current, primary)
                == FullscreenAction::Sdl2(FullscreenMode::spec_from_mode(mode)),
            DisplayBackend::Softbuffer(_) => display.fullscreen_action(mode, current, primary)
                == FullscreenAction::Winit(spec_window_state(mode, current, primary)),
            DisplayBackend::Pixels(_) => display.fullscreen_action(mode, current, primary)
                == FullscreenAction::Winit(spec_window_state(mode, current, primary)),
        },
{
}

/// Pixels of four bytes are RGB888, of two bytes RGB565, and there is no other
/// format.
pub proof fn law_pixel_size_chooses_format(pixel_size: usize)
    ensures
        spec_texture_format(pixel_size) == Some(TextureFormat::Rgb888) <==> pixel_size == 4,
        spec_texture_format(pixel_size) == Some(TextureFormat::Rgb565) <==> pixel_size == 2,
        spec_texture_format(pixel_size) is None <==> pixel_size != 4 && pixel_size != 2,
{
}

/// A texture is created anew exactly if its size or its format changes, and only
/// then the display looks at the drawable area again.
pub proof fn law_texture_follows_frame(
    display: Sdl2Display,
    size: Extent,
    format: TextureFormat,
    drawable: Extent,
)
    ensures
        display.has_texture(size, format) <==> display.tex_size.width == size.width
            && display.tex_size.height == size.height && display.tex_format == Some(format),
        display.with_texture(size, format, drawable).tex_size == size,
        display.with_texture(size, format, drawable).tex_format == Some(format),
        display.tex_size == size && display.tex_format == Some(format) ==> display.with_texture(
            size,
            format,
            drawable,
        ).crop == display.crop,
        display.tex_size != size || display.tex_format != Some(format) ==> display.with_texture(
            size,
            format,
            drawable,
        ).crop == drawable,
{
}

/// What each display sets up for a frame of u32 pixels: SDL2 a texture of the
/// frame's size where it has none, copied to the whole drawable area of the time
/// when it was created; softbuffer a surface of the frame's size, which cannot be
/// empty; pixels a texture of the frame's size, and a surface of the window's.
pub proof fn law_setup_follows_frame(display: DisplayBackend, frame: Extent, area: Extent)
    ensures
        match display {
            DisplayBackend::Sdl2(d) => {
                let kept = d.tex_size == frame && d.tex_format == Some(TextureFormat::Rgb888);
                &&& display.setup(frame, area) == (FrameSetup::Sdl2 {
                    create: !kept,
                    crop: if kept {
                        d.crop
                    } else {
                        area
                    },
                })
                &&& display.prepared(frame, area) == DisplayBackend::Sdl2(
                    Sdl2Display {
                        tex_size: frame,
                        tex_format: Some(TextureFormat::Rgb888),
                        crop: if kept {
                            d.crop
                        } else {
                            area
                        },
                    },
                )
            },
            DisplayBackend::Softbuffer(_) => {
                &&& frame.width >= 1 && frame.height >= 1 ==> display.setup(frame, area) == (
                FrameSetup::Softbuffer { surface: frame })
                &&& display.setup(frame, area) matches FrameSetup::Softbuffer { surface }
                    && surface.width >= 1 && surface.height >= 1
                &&& display.prepared(frame, area) == display
            },
            DisplayBackend::Pixels(d) => {
                &&& display.setup(frame, area) == (FrameSetup::Pixels {
                    resize: d.texture.width != frame.width || d.texture.height != frame.height,
                    surface: area,
                })
                &&& display.prepared(frame, area) == DisplayBackend::Pixels(
                    PixelsDisplay { texture: frame },
                )
            },
        },
{
}

/// The framebuffer is out of date if the buffer's size is another, the surface if
/// the window's is, where an empty side counts as one pixel; and the chain is
/// rebuilt if either is.
pub proof fn law_display_follows_buffer_and_window(
    frame: Extent,
    surface: Extent,
    buffer: Extent,
    window: Extent,
)
    requires
        surface.width >= 1,
        surface.height >= 1,
    ensures
        ({
            let sync = out_of_date(frame, surface, buffer, window);
            &&& sync.frame_changed <==> frame.width != buffer.width || frame.height
                != buffer.height
            &&& !sync.surface_changed <==> (surface.width == window.width || surface.width == 1
                && window.width == 0) && (surface.height == window.height || surface.height == 1
                && window.height == 0)
            &&& sync.rebuild_chain <==> sync.frame_changed || sync.surface_changed
        }),
{
}

} // verus!
