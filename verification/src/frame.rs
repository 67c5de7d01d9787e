//! One frame: the acquired display surface together with what the renderer
//! keeps from frame to frame.

use std::time::Instant;

use crate::bleed::{BleedProfile, HealthBleed};
use crate::draw::{resolve_plane, widen, widened, BufferView, DrawBuffer, PaletteView, SurfaceBuf};
use crate::num::{larger, lemma_product_not_negative};
use crate::size::BufferSize;
use crate::wipe::{law_drawing_keeps_wipe_valid, offsets, Wipe, WipeView};
use vstd::prelude::*;

verus! {

/// Per-frame draw context: the acquired display surface plus the persistent
/// index plane / bleed / wipe. It is a [`DrawBuffer`]: the scene rasterizes into
/// the index plane, UI draws onto the surface.
pub struct FrameCtx<'a> {
    pub size: &'a BufferSize,
    /// Acquired display surface, `0xFFRRGGBB`, row stride `pitch` (u32 elements).
    pub surface: &'a mut [u32],
    pub pitch: usize,
    pub index: &'a mut Vec<u8>,
    pub bleed: &'a mut HealthBleed,
    pub wipe: &'a mut Wipe,
    /// Whether the scene is in the index plane and still has to be resolved.
    pub needs_resolve: bool,
}

impl<'a> FrameCtx<'a> {
    /// The frame as a draw target.
    pub open spec fn buffer(&self) -> BufferView {
        BufferView {
            size: self.size@,
            surface: self.surface@,
            pitch: self.pitch as int,
            index: self.index@,
            bleed: self.bleed@,
        }
    }

    /// The wipe's old frame as a draw target.
    pub open spec fn old_frame(&self) -> BufferView {
        BufferView {
            surface: self.wipe@.snapshot,
            pitch: self.size@.width as int,
            ..self.buffer()
        }
    }

    /// How far the wipe has come.
    pub open spec fn melt(&self) -> WipeView {
        self.wipe@
    }

    /// What every frame keeps: the wipe is as large as the buffer, and the
    /// surface has room for it.
    pub open spec fn wf(&self) -> bool {
        &&& self.buffer().wf()
        &&& self.wipe@.wf()
        &&& self.wipe@.width == self.size@.width
        &&& self.wipe@.height == self.size@.height
    }

    /// Begin a wipe: size + clear the old-frame snapshot buffer. The caller then
    /// draws the old state into it via [`Self::wipe_buffer`] /
    /// [`Self::resolve_index_into_wipe`]. A wipe that is on goes on.
    pub fn start_wipe(&mut self)
        requires
            old(self).wf(),
        ensures
            final(self).wf(),
            final(self).buffer() == old(self).buffer(),
            final(self).needs_resolve == old(self).needs_resolve,
            final(self).wipe@ == (if old(self).wipe@.snapshot.len() != 0 {
                old(self).wipe@
            } else {
                old(self).wipe@.started(final(self).wipe@.last_step)
            }),
            final(final(self).surface)@ == final(old(self).surface)@,
            *final(final(self).index) == *final(old(self).index),
            *final(final(self).bleed) == *final(old(self).bleed),
            *final(final(self).wipe) == *final(old(self).wipe),
    {
        assert(self.index.len() == self.index@.len());
        if self.wipe.is_wiping() {
            return ;
        }
        self.wipe.start();
    }

    /// A draw target whose surface is the wipe snapshot (width-pitched), for
    /// drawing the old frame. The old state draws u32 here as if it were the
    /// display surface.
    pub fn wipe_buffer<'s>(&'s mut self) -> (buf: SurfaceBuf<'s>)
        ensures
            buf.buffer() == old(self).old_frame(),
            buf.surface@ == old(self).wipe@.snapshot,
            buf.pitch == old(self).size@.width,
            buf.index@ == old(self).index@,
            buf.size@ == old(self).size@,
            buf.bleed@ == old(self).bleed@,
            final(self).buffer() == (BufferView {
                index: final(buf.index)@,
                ..old(self).buffer()
            }),
            final(self).wipe@ == (WipeView { snapshot: final(buf.surface)@, ..old(self).wipe@ }),
            final(self).needs_resolve == old(self).needs_resolve,
            final(final(self).surface)@ == final(old(self).surface)@,
            *final(final(self).index) == *final(old(self).index),
            *final(final(self).bleed) == *final(old(self).bleed),
            *final(final(self).wipe) == *final(old(self).wipe),
    {
        SurfaceBuf {
            size: self.size,
            surface: self.wipe.snapshot_mut(),
            pitch: self.size.width_usize(),
            index: &mut *self.index,
            bleed: &*self.bleed,
        }
    }

    /// Resolve the current index plane into the wipe buffer — the old level view
    /// (still present in the index at wipe start). No bleed: the old frame is
    /// transient under the melt.
    pub fn resolve_index_into_wipe(&mut self, palette: &[u32])
        requires
            old(self).wf(),
            old(self).wipe@.snapshot.len() == old(self).buffer().index.len(),
            forall|i: int|
                0 <= i < old(self).buffer().index.len() ==> #[trigger] old(self).buffer().index[i]
                    < palette@.len(),
        ensures
            final(self).wf(),
            final(self).buffer() == old(self).buffer(),
            final(self).needs_resolve == old(self).needs_resolve,
            final(self).wipe@ == (WipeView {
                snapshot: widened(old(self).buffer().index, palette@),
                ..old(self).wipe@
            }),
            final(final(self).surface)@ == final(old(self).surface)@,
            *final(final(self).index) == *final(old(self).index),
            *final(final(self).bleed) == *final(old(self).bleed),
            *final(final(self).wipe) == *final(old(self).wipe),
    {
        let ghost v = self.wipe@;
        widen(self.index, palette, self.wipe.snapshot_mut());
        proof {
            law_drawing_keeps_wipe_valid(v, self.wipe@.snapshot);
        }
    }

    /// The scene has been drawn. `needs_resolve` is false where the renderer
    /// wrote the surface directly (debug colour modes).
    pub fn scene_drawn(&mut self, needs_resolve: bool)
        ensures
            final(self).buffer() == old(self).buffer(),
            final(self).wipe@ == old(self).wipe@,
            final(self).needs_resolve == needs_resolve,
            final(final(self).surface)@ == final(old(self).surface)@,
            *final(final(self).index) == *final(old(self).index),
            *final(final(self).bleed) == *final(old(self).bleed),
            *final(final(self).wipe) == *final(old(self).wipe),
    {
        self.needs_resolve = needs_resolve;
    }

    /// Whether the wipe that is on has nothing left to melt, so that the next
    /// [`Self::do_wipe`] ends it.
    pub fn wipe_is_melted(&self) -> (melted: bool)
        requires
            self.wf(),
            self.melt().height >= 100,
            self.melt().stepping() <= self.melt().width,
        ensures
            melted == !self.melt().pending(),
    {
        self.wipe.is_melted()
    }

    /// Melt the old-frame wipe buffer one step over the display surface. Returns
    /// true when complete. Called after the new frame is composited. `draws` are
    /// the random numbers of the next wipe, one for each column; they are used
    /// when this one ends. Whether a step is due, the clock decides;
    /// [`Self::do_wipe_after`] does the rest.
    pub fn do_wipe(&mut self, draws: &[i32]) -> (done: bool)
        requires
            old(self).wf(),
            old(self).wipe@.drawable(),
            !old(self).wipe@.pending() ==> larger(old(self).wipe@.width, 1) <= draws@.len(),
        ensures
            final(self).wf(),
            done == !old(self).wipe@.pending(),
            final(self).buffer() == (BufferView {
                surface: old(self).wipe@.painted(
                    old(self).buffer().surface,
                    old(self).buffer().pitch,
                ),
                ..old(self).buffer()
            }),
            done ==> final(self).wipe@ == (WipeView {
                y: offsets(draws@, old(self).wipe@.width),
                snapshot: Seq::empty(),
                last_step: final(self).wipe@.last_step,
                ..old(self).wipe@
            }),
            !done ==> final(self).wipe@ == old(self).wipe@ || final(self).wipe@ == (WipeView {
                last_step: final(self).wipe@.last_step,
                ..old(self).wipe@.advanced()
            }),
            final(self).needs_resolve == old(self).needs_resolve,
            final(final(self).surface)@ == final(old(self).surface)@,
            *final(final(self).index) == *final(old(self).index),
            *final(final(self).bleed) == *final(old(self).bleed),
            *final(final(self).wipe) == *final(old(self).wipe),
    {
        let (elapsed, now) = self.wipe.read_clock();
        self.do_wipe_after(draws, elapsed, now)
    }

    /// Melts the wipe over the display surface, `elapsed` milliseconds after its
    /// last step; a step that is due is taken at `now`. A wipe that was already
    /// complete ends, and leaves the time of its last step to the next one.
    pub fn do_wipe_after(&mut self, draws: &[i32], elapsed: u128, now: Instant) -> (done: bool)
        requires
            old(self).wf(),
            old(self).wipe@.drawable(),
            !old(self).wipe@.pending() ==> larger(old(self).wipe@.width, 1) <= draws@.len(),
        ensures
            final(self).wf(),
            done == !old(self).wipe@.pending(),
            final(self).buffer() == (BufferView {
                surface: old(self).wipe@.painted(
                    old(self).buffer().surface,
                    old(self).buffer().pitch,
                ),
                ..old(self).buffer()
            }),
            final(self).wipe@ == (if done {
                WipeView {
                    y: offsets(draws@, old(self).wipe@.width),
                    snapshot: Seq::empty(),
                    ..old(self).wipe@.after(elapsed, now)
                }
            } else {
                old(self).wipe@.after(elapsed, now)
            }),
            final(self).needs_resolve == old(self).needs_resolve,
            final(final(self).surface)@ == final(old(self).surface)@,
            *final(final(self).index) == *final(old(self).index),
            *final(final(self).bleed) == *final(old(self).bleed),
            *final(final(self).wipe) == *final(old(self).wipe),
    {
        let done = self.wipe.melt_after(self.surface, self.pitch, elapsed, now);
        if done {
            self.wipe.reset(draws);
        }
        done
    }

    /// Resolve the index plane (+ health bleed) into the display surface. No-op
    /// when the scene wrote the surface directly (debug colour modes).
    pub fn finish_scene(&mut self, palette: &[u32], palettes_flat: &[u32], use_palette: usize)
        requires
            old(self).wf(),
            old(self).needs_resolve ==> old(self).buffer().resolvable(
                (PaletteView {
                    palette: palette@,
                    palettes_flat: palettes_flat@,
                    use_palette: use_palette as int,
                }),
            ),
        ensures
            final(self).wf(),
            final(self).buffer() == (if old(self).needs_resolve {
                old(self).buffer().resolved(
                    (PaletteView {
                        palette: palette@,
                        palettes_flat: palettes_flat@,
                        use_palette: use_palette as int,
                    }),
                )
            } else {
                old(self).buffer()
            }),
            final(self).wipe@ == old(self).wipe@,
            final(self).needs_resolve == old(self).needs_resolve,
            final(final(self).surface)@ == final(old(self).surface)@,
            *final(final(self).index) == *final(old(self).index),
            *final(final(self).bleed) == *final(old(self).bleed),
            *final(final(self).wipe) == *final(old(self).wipe),
    {
        if self.needs_resolve {
            self.resolve(palette, palettes_flat, use_palette);
        }
    }

    /// Whether the next [`Self::set_health_bleed`] needs a new bleed pattern.
    pub fn needs_bleed_profile(&self) -> (needs: bool)
        ensures
            needs == self.buffer().bleed.stale(
                self.size@.width as int,
                self.size@.height as int,
            ),
    {
        self.bleed.needs_profile(self.size.width_usize(), self.size.height_usize())
    }

    /// Update the health bleed effect for this frame's resolve. Pass 100 to clear.
    /// Where a new pattern is due, it is that of `fresh`.
    pub fn set_health_bleed(&mut self, health: i32, fresh: Option<BleedProfile>)
        requires
            old(self).bleed@.wf(),
            old(self).bleed@.stale(
                old(self).size@.width as int,
                old(self).size@.height as int,
            ) ==> fresh is Some && fresh->0.fits(
                old(self).size@.width as int,
                old(self).size@.height as int,
            ),
        ensures
            old(self).wf() ==> final(self).wf(),
            final(self).buffer() == (BufferView {
                bleed: old(self).bleed@.updated(
                    health as int,
                    old(self).size@.width as int,
                    old(self).size@.height as int,
                    fresh,
                ),
                ..old(self).buffer()
            }),
            final(self).wipe@ == old(self).wipe@,
            final(self).needs_resolve == old(self).needs_resolve,
            final(final(self).surface)@ == final(old(self).surface)@,
            *final(final(self).index) == *final(old(self).index),
            *final(final(self).bleed) == *final(old(self).bleed),
            *final(final(self).wipe) == *final(old(self).wipe),
    {
        let w: usize = self.size.width_usize();
        let h: usize = self.size.height_usize();
        self.bleed.update(health, w, h, fresh);
    }
}

impl<'a> DrawBuffer for FrameCtx<'a> {
    open spec fn contents(&self) -> BufferView {
        self.buffer()
    }

    fn size(&self) -> (size: &BufferSize) {
        self.size
    }

    fn set_pixel(&mut self, x: usize, y: usize, colour: u32)
        ensures
            final(final(self).surface)@ == final(old(self).surface)@,
            *final(final(self).index) == *final(old(self).index),
            *final(final(self).bleed) == *final(old(self).bleed),
            *final(final(self).wipe) == *final(old(self).wipe),
            final(self).wipe@ == old(self).wipe@,
            final(self).needs_resolve == old(self).needs_resolve,
    {
        assert(self.surface.len() == self.surface@.len());
        proof {
            lemma_product_not_negative(y as int, self.pitch as int);
        }
        let pos: usize = y * self.pitch + x;
        self.surface[pos] = colour;
    }

    fn read_pixel(&self, x: usize, y: usize) -> (colour: u32) {
        assert(self.surface.len() == self.surface@.len());
        proof {
            lemma_product_not_negative(y as int, self.pitch as int);
        }
        self.surface[y * self.pitch + x]
    }

    fn get_buf_index(&self, x: usize, y: usize) -> (pos: usize) {
        let w: usize = self.size.width_usize();
        proof {
            lemma_product_not_negative(y as int, w as int);
        }
        y * w + x
    }

    fn pitch(&self) -> (pitch: usize) {
        self.size.width_usize()
    }

    fn buf_mut(&mut self) -> (surface: &mut [u32])
        ensures
            final(final(self).surface)@ == final(old(self).surface)@,
            *final(final(self).index) == *final(old(self).index),
            *final(final(self).bleed) == *final(old(self).bleed),
            *final(final(self).wipe) == *final(old(self).wipe),
            final(self).wipe@ == old(self).wipe@,
            final(self).needs_resolve == old(self).needs_resolve,
    {
        self.surface
    }

    fn set_index(&mut self, x: usize, y: usize, idx: u8)
        ensures
            final(final(self).surface)@ == final(old(self).surface)@,
            *final(final(self).index) == *final(old(self).index),
            *final(final(self).bleed) == *final(old(self).bleed),
            *final(final(self).wipe) == *final(old(self).wipe),
            final(self).wipe@ == old(self).wipe@,
            final(self).needs_resolve == old(self).needs_resolve,
    {
        assert(self.index.len() == self.index@.len());
        let w: usize = self.size.width_usize();
        proof {
            lemma_product_not_negative(y as int, w as int);
        }
        let pos: usize = y * w + x;
        self.index[pos] = idx;
    }

    fn index_mut(&mut self) -> (index: &mut [u8])
        ensures
            final(final(self).surface)@ == final(old(self).surface)@,
            *final(final(self).index) == *final(old(self).index),
            *final(final(self).bleed) == *final(old(self).bleed),
            *final(final(self).wipe) == *final(old(self).wipe),
            final(self).wipe@ == old(self).wipe@,
            final(self).needs_resolve == old(self).needs_resolve,
    {
        self.index.as_mut_slice()
    }

    fn resolve(&mut self, palette: &[u32], palettes_flat: &[u32], use_palette: usize)
        ensures
            final(final(self).surface)@ == final(old(self).surface)@,
            *final(final(self).index) == *final(old(self).index),
            *final(final(self).bleed) == *final(old(self).bleed),
            *final(final(self).wipe) == *final(old(self).wipe),
            final(self).wipe@ == old(self).wipe@,
            final(self).needs_resolve == old(self).needs_resolve,
    {
        resolve_plane(
            self.size,
            self.surface,
            self.pitch,
            self.index,
            self.bleed,
            palette,
            palettes_flat,
            use_palette,
        );
    }
}

} // verus!
