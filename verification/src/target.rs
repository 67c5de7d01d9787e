//! The render target: what a renderer keeps from frame to frame.

use std::time::Instant;

use crate::bleed::{BleedView, HealthBleed};
use crate::display::{DisplayBackend, Extent, FrameSetup, FullscreenAction, Monitor};
use crate::draw::BufferView;
use crate::frame::FrameCtx;
use crate::num::{larger, lemma_product_not_negative};
use crate::size::{BufferSize, SizeView};
use crate::wipe::{holds_frame, law_melt_completes, offsets, Wipe, WipeView};
use vstd::prelude::*;

verus! {

/// Which renderer draws the scene.
#[derive(Debug, Default, PartialEq, Eq, Structural, PartialOrd, Clone, Copy)]
pub enum RenderType {
    /// Purely software. Typically used with blitting a framebuffer maintained
    /// in memory directly to screen using SDL2
    #[default]
    Software,
    /// Fully 3D software rendering.
    Software3D,
}

/// What a render target is.
#[verifier::ext_equal]
pub struct TargetView {
    pub render_type: RenderType,
    pub display: DisplayBackend,
    pub size: SizeView,
    /// 8-bit palette-index plane; the scene rasterizes into it, then it is
    /// resolved into the display surface.
    pub index: Seq<u8>,
    pub bleed: BleedView,
    pub wipe: WipeView,
}

/// Buffer rows: fixed at 200, or 400 in high resolution.
pub open spec fn rows(double: bool) -> int {
    if double {
        400
    } else {
        200
    }
}

/// Buffer columns: as wide as the window asks, but never narrower than high.
pub open spec fn columns(double: bool, stretched_width: u32) -> int {
    larger(stretched_width as int, rows(double))
}

impl TargetView {
    /// A target on which nothing has been drawn, made at `made_at`.
    pub open spec fn blank(
        double: bool,
        stretched_width: u32,
        display: DisplayBackend,
        render_type: RenderType,
        draws: Seq<i32>,
        made_at: Instant,
    ) -> TargetView {
        let w = columns(double, stretched_width);
        let h = rows(double);
        TargetView {
            render_type,
            display,
            size: SizeView { width: w as usize, height: h as usize, statusbar_height: 0 },
            index: Seq::new((w * h) as nat, |i: int| 0u8),
            bleed: BleedView {
                target: Seq::empty(),
                shown: Seq::empty(),
                ends: Seq::empty(),
                band_off: Seq::empty(),
                band_px: 1,
                last_health: 100,
                width: 0,
                height: 0,
                active: false,
            },
            wipe: WipeView {
                y: offsets(draws, w),
                width: w,
                height: h,
                snapshot: Seq::empty(),
                last_step: made_at,
            },
        }
    }

    /// What every target keeps: its parts are of one size.
    pub open spec fn wf(self) -> bool {
        &&& self.size.width <= i32::MAX
        &&& self.size.height == 200 || self.size.height == 400
        &&& self.size.height <= self.size.width
        &&& self.index.len() == self.size.width * self.size.height
        &&& self.bleed.wf()
        &&& self.wipe.wf()
        &&& self.wipe.width == self.size.width
        &&& self.wipe.height == self.size.height
    }

    /// Rows of the buffer to one row of native 200px space.
    pub open spec fn scale(self) -> int {
        self.size.height as int / 200
    }

    /// The display surface that a frame asks for.
    pub open spec fn frame_extent(self) -> Extent {
        Extent { width: self.size.width as u32, height: self.size.height as u32 }
    }
}

/// Buffer rows: fixed at 200, or 400 in high resolution.
pub fn buffer_height(double: bool) -> (h: u32)
    ensures
        h == rows(double),
{
    if double {
        400
    } else {
        200
    }
}

/// Owns the display backend and the per-frame-persistent state of a renderer
/// (index plane, bleed, wipe). The u32 surface is borrowed only during a frame.
pub struct RenderTarget {
    render_type: RenderType,
    display: DisplayBackend,
    size: BufferSize,
    index: Vec<u8>,
    bleed: HealthBleed,
    wipe: Wipe,
}

impl View for RenderTarget {
    type V = TargetView;

    closed spec fn view(&self) -> TargetView {
        TargetView {
            render_type: self.render_type,
            display: self.display,
            size: self.size@,
            index: self.index@,
            bleed: self.bleed@,
            wipe: self.wipe@,
        }
    }
}

impl RenderTarget {
    /// A target [`buffer_height`] rows high. `stretched_width` is the width at
    /// which the scale from buffer to window gives the 1.2x CRT pixel aspect.
    /// `draws` are random numbers for the first wipe, one for each column.
    pub fn new(
        double: bool,
        stretched_width: u32,
        display: DisplayBackend,
        render_type: RenderType,
        draws: &[i32],
    ) -> (target: Self)
        requires
            stretched_width <= i32::MAX,
            columns(double, stretched_width) * rows(double) <= usize::MAX,
            columns(double, stretched_width) <= draws@.len(),
        ensures
            target@ == TargetView::blank(
                double,
                stretched_width,
                display,
                render_type,
                draws@,
                target@.wipe.last_step,
            ),
            double ==> target@.size.height == 400,
            !double ==> target@.size.height == 200,
            stretched_width >= target@.size.height ==> target@.size.width == stretched_width,
            stretched_width < target@.size.height ==> target@.size.width == target@.size.height,
            target@.wf(),
    {
        let buf_height: u32 = buffer_height(double);
        let buf_width: u32 = if stretched_width >= buf_height {
            stretched_width
        } else {
            buf_height
        };
        let w: usize = buf_width as usize;
        let h: usize = buf_height as usize;
        proof {
            lemma_product_not_negative(w as int, h as int);
        }
        let target = Self {
            render_type,
            display,
            size: BufferSize::new(w, h),
            index: vec![0u8; w * h],
            bleed: HealthBleed::default(),
            wipe: Wipe::new(buf_width as i32, buf_height as i32, draws),
        };
        proof {
            let want = TargetView::blank(
                double,
                stretched_width,
                display,
                render_type,
                draws@,
                target@.wipe.last_step,
            );
            assert(target@.index =~= want.index);
            assert(target@ =~= want);
        }
        target
    }

    /// Rebuild the render target, reusing the display backend.
    pub fn resize(
        self,
        double: bool,
        stretched_width: u32,
        render_type: RenderType,
        draws: &[i32],
    ) -> (target: Self)
        requires
            stretched_width <= i32::MAX,
            columns(double, stretched_width) * rows(double) <= usize::MAX,
            columns(double, stretched_width) <= draws@.len(),
        ensures
            target@ == TargetView::blank(
                double,
                stretched_width,
                self@.display,
                render_type,
                draws@,
                target@.wipe.last_step,
            ),
            double ==> target@.size.height == 400,
            !double ==> target@.size.height == 200,
            stretched_width >= target@.size.height ==> target@.size.width == stretched_width,
            stretched_width < target@.size.height ==> target@.size.width == target@.size.height,
            target@.wf(),
    {
        Self::new(double, stretched_width, self.display, render_type, draws)
    }

    pub fn render_type(&self) -> (r: RenderType)
        ensures
            r == self@.render_type,
    {
        self.render_type
    }

    /// Update the statusbar height (in OG 200px-space pixels). Returns the rows
    /// that are left to the view.
    pub fn set_statusbar_height(&mut self, og_height: i32) -> (view_height: i32)
        requires
            old(self)@.wf(),
            i32::MIN <= og_height * old(self)@.scale() <= i32::MAX,
            i32::MIN <= old(self)@.size.height - og_height * old(self)@.scale() <= i32::MAX,
        ensures
            final(self)@.wf(),
            final(self)@ == (TargetView {
                size: SizeView {
                    statusbar_height: (og_height * old(self)@.scale()) as i32,
                    ..old(self)@.size
                },
                ..old(self)@
            }),
            view_height == old(self)@.size.height - og_height * old(self)@.scale(),
    {
        let scale: i32 = self.size.height() / 200;
        self.size.set_statusbar_height(og_height * scale);
        self.size.view_height()
    }

    /// Query the size things are drawn at, outside a frame (for layout/setup).
    pub fn buffer_size(&self) -> (size: &BufferSize)
        ensures
            size@ == self@.size,
    {
        &self.size
    }

    /// Set fullscreen mode: 0=windowed, 1=borderless, 2=exclusive. Returns what
    /// the window has to be set to.
    pub fn set_fullscreen(&self, mode: u8, current: Monitor, primary: Monitor) -> (action:
        FullscreenAction)
        ensures
            action == self@.display.fullscreen_action(mode, current, primary),
    {
        self.display.set_fullscreen(mode, current, primary)
    }

    /// The size of the display surface that a frame asks for.
    pub fn frame_size(&self) -> (size: Extent)
        requires
            self@.wf(),
        ensures
            size == self@.frame_extent(),
    {
        Extent { width: self.size.width() as u32, height: self.size.height() as u32 }
    }

    /// Readies the display for a frame. `area` is what the window has room for.
    /// Returns what has to be set up before the surface is acquired.
    pub fn prepare_frame(&mut self, area: Extent) -> (setup: FrameSetup)
        requires
            old(self)@.wf(),
        ensures
            final(self)@.wf(),
            final(self)@ == (TargetView {
                display: old(self)@.display.prepared(old(self)@.frame_extent(), area),
                ..old(self)@
            }),
            setup == old(self)@.display.setup(old(self)@.frame_extent(), area),
    {
        let frame: Extent = self.frame_size();
        self.display.render_frame(frame, area)
    }

    /// Whether a wipe transition is in progress.
    pub fn is_wiping(&self) -> (wiping: bool)
        ensures
            wiping == (self@.wipe.snapshot.len() != 0),
    {
        self.wipe.is_wiping()
    }

    /// Regenerate the bleed's random column pattern (call on new game / level
    /// load so each level gets a fresh shape).
    pub fn reset_health_bleed(&mut self)
        requires
            old(self)@.wf(),
        ensures
            final(self)@.wf(),
            final(self)@ == (TargetView {
                bleed: BleedView { target: Seq::empty(), ..old(self)@.bleed },
                ..old(self)@
            }),
    {
        self.bleed.reset();
    }

    /// Compose one frame into `surface`, which has `pitch` elements per row.
    pub fn frame<'a>(&'a mut self, surface: &'a mut [u32], pitch: usize) -> (ctx: FrameCtx<'a>)
        requires
            old(self)@.wf(),
            holds_frame(
                old(surface)@.len() as int,
                pitch as int,
                old(self)@.size.width as int,
                old(self)@.size.height as int,
            ),
        ensures
            ctx.wf(),
            ctx.needs_resolve,
            ctx.buffer() == (BufferView {
                size: old(self)@.size,
                surface: old(surface)@,
                pitch: pitch as int,
                index: old(self)@.index,
                bleed: old(self)@.bleed,
            }),
            ctx.melt() == old(self)@.wipe,
            ctx.size@ == old(self)@.size,
            ctx.surface@ == old(surface)@,
            ctx.pitch == pitch,
            ctx.index@ == old(self)@.index,
            ctx.bleed@ == old(self)@.bleed,
            ctx.wipe@ == old(self)@.wipe,
            final(surface)@ == final(ctx.surface)@,
            final(self)@ == (TargetView {
                index: final(ctx.index)@,
                bleed: final(ctx.bleed)@,
                wipe: final(ctx.wipe)@,
                ..old(self)@
            }),
    {
        FrameCtx {
            size: &self.size,
            surface,
            pitch,
            index: &mut self.index,
            bleed: &mut self.bleed,
            wipe: &mut self.wipe,
            needs_resolve: true,
        }
    }
}

/// What a frame leaves behind keeps the target valid: the planes and the wipe
/// are as large as before.
pub proof fn law_frame_keeps_target_valid(
    v: TargetView,
    index: Seq<u8>,
    bleed: BleedView,
    wipe: WipeView,
)
    requires
        v.wf(),
        index.len() == v.index.len(),
        bleed.wf(),
        wipe.wf(),
        wipe.width == v.wipe.width,
        wipe.height == v.wipe.height,
    ensures
        (TargetView { index, bleed, wipe, ..v }).wf(),
{
}

/// A wipe that has been started can be drawn on any surface that holds the
/// frame.
pub proof fn law_started_wipe_is_drawable(v: TargetView)
    requires
        v.wf(),
        v.wipe.snapshot.len() != 0,
    ensures
        v.wipe.drawable(),
{
}

/// Every wipe of a render target comes to its end.
pub proof fn law_every_wipe_ends(v: TargetView, n: nat)
    requires
        v.wf(),
        n >= v.size.height + 15,
    ensures
        !v.wipe.after_steps(n).pending(),
{
    law_melt_completes(v.wipe, n);
}

/// A new target is as high as its resolution asks, and as wide as the window asks
/// unless that is less than its height.
pub proof fn law_buffer_fits_window(
    double: bool,
    stretched_width: u32,
    display: DisplayBackend,
    render_type: RenderType,
    draws: Seq<i32>,
    made_at: Instant,
)
    requires
        stretched_width <= i32::MAX,
    ensures
        ({
            let size = TargetView::blank(
                double,
                stretched_width,
                display,
                render_type,
                draws,
                made_at,
            ).size;
            &&& double ==> size.height == 400
            &&& !double ==> size.height == 200
            &&& stretched_width >= size.height ==> size.width == stretched_width
            &&& stretched_width < size.height ==> size.width == size.height
            &&& size.statusbar_height == 0
        }),
{
}

/// A new target has drawn nothing: its index plane is all zero, no bleed is active
/// and none has a pattern, and the wipe that waits is as large as the buffer, with
/// the columns that the draws give. The display and the renderer are those asked
/// for.
pub proof fn law_new_target_is_blank(
    double: bool,
    stretched_width: u32,
    display: DisplayBackend,
    render_type: RenderType,
    draws: Seq<i32>,
    made_at: Instant,
)
    requires
        stretched_width <= i32::MAX,
    ensures
        ({
            let v = TargetView::blank(
                double,
                stretched_width,
                display,
                render_type,
                draws,
                made_at,
            );
            &&& v.index.len() == v.size.width * v.size.height
            &&& forall|i: int| 0 <= i < v.index.len() ==> #[trigger] v.index[i] == 0
            &&& !v.bleed.active
            &&& v.bleed.target.len() == 0
            &&& v.bleed.shown.len() == 0
            &&& v.wipe.width == v.size.width
            &&& v.wipe.height == v.size.height
            &&& v.wipe.snapshot.len() == 0
            &&& v.wipe.y == offsets(draws, v.size.width as int)
            &&& v.display == display
            &&& v.render_type == render_type
        }),
{
    let w = columns(double, stretched_width);
    let h = rows(double);
    lemma_product_not_negative(w, h);
}

/// A status bar row of native 200px space is one row of the low resolution and two
/// of the high one, and a frame asks for a surface of the buffer's size.
pub proof fn law_target_scales_with_height(v: TargetView)
    requires
        v.wf(),
    ensures
        v.size.height == 200 || v.size.height == 400,
        v.size.height == 200 ==> v.scale() == 1,
        v.size.height == 400 ==> v.scale() == 2,
        v.frame_extent().width == v.size.width,
        v.frame_extent().height == v.size.height,
{
}

} // verus!
