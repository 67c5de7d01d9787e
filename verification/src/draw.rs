//! Draw targets: a display surface with the 8-bit scene index plane behind it.

use crate::bleed::{
    law_tint_is_red, BleedView, HealthBleed, ScreenEffect, BLEED_PAL_COUNT, BLEED_PAL_START,
};
use crate::num::{lemma_cell, lemma_cell_at, lemma_cell_inside, lemma_product_not_negative};
use crate::size::{BufferSize, SizeView};
use crate::wipe::holds_frame;
use vstd::prelude::*;

verus! {

/// Colours per palette.
pub const PALETTE_COLOURS: usize = 256;

/// The palettes that a frame is resolved with.
pub struct PaletteView {
    /// The frame's palette.
    pub palette: Seq<u32>,
    /// Every palette, one after the other.
    pub palettes_flat: Seq<u32>,
    /// Which of them the frame's palette is.
    pub use_palette: int,
}

/// What a draw target holds.
#[verifier::ext_equal]
pub struct BufferView {
    pub size: SizeView,
    /// The display surface, `0xAARRGGBB`.
    pub surface: Seq<u32>,
    /// Elements per row of the surface; it may be padded.
    pub pitch: int,
    /// The palette-index plane, `size.width` elements per row.
    pub index: Seq<u8>,
    pub bleed: BleedView,
}

impl BufferView {
    pub open spec fn w(self) -> int {
        self.size.width as int
    }

    pub open spec fn h(self) -> int {
        self.size.height as int
    }

    /// What every draw target keeps: both planes have room for the frame.
    pub open spec fn wf(self) -> bool {
        &&& self.bleed.wf()
        &&& self.w() * self.h() == self.index.len()
        &&& holds_frame(self.surface.len() as int, self.pitch, self.w(), self.h())
    }

    /// The colours that the frame is resolved with: every palette while the bleed
    /// is active, else the frame's own.
    pub open spec fn table(self, p: PaletteView) -> Seq<u32> {
        if self.bleed.active {
            p.palettes_flat
        } else {
            p.palette
        }
    }

    /// Which of those colours the pixel at `(x, y)` has.
    pub open spec fn slot(self, p: PaletteView, x: int, y: int) -> int {
        let idx = self.index[y * self.w() + x] as int;
        if self.bleed.active {
            self.bleed.palette_at(x, (y as u16) as int, p.use_palette) * PALETTE_COLOURS + idx
        } else {
            idx
        }
    }

    /// Whether there is a colour for every pixel.
    pub open spec fn resolvable(self, p: PaletteView) -> bool {
        &&& self.bleed.active ==> self.bleed.width >= self.w()
        &&& forall|x: int, y: int|
            0 <= x < self.w() && 0 <= y < self.h() ==> 0 <= #[trigger] self.slot(p, x, y)
                < self.table(p).len()
    }

    /// The target with the index plane resolved into the surface. What the
    /// surface holds beside and below the frame stays.
    pub open spec fn resolved(self, p: PaletteView) -> BufferView {
        BufferView {
            surface: Seq::new(
                self.surface.len(),
                |i: int|
                    {
                        let x = i % self.pitch;
                        let y = i / self.pitch;
                        if 0 <= x < self.w() && 0 <= y < self.h() {
                            self.table(p)[self.slot(p, x, y)]
                        } else {
                            self.surface[i]
                        }
                    },
            ),
            ..self
        }
    }
}

/// A u32 draw target plus the 8-bit scene index plane behind it. The renderer
/// fills the index plane (`set_index`/`index_mut`) then `resolve`s it to u32;
/// UI draws u32 directly (`set_pixel`/`buf_mut`). For the real backend the u32
/// side is the display surface (possibly strided — always use `pitch`).
pub trait DrawBuffer {
    /// What the target holds.
    spec fn contents(&self) -> BufferView;

    fn size(&self) -> (size: &BufferSize)
        ensures
            size@ == self.contents().size,
    ;

    /// Write a `0xAARRGGBB` pixel to the resolved display surface (UI/overlays).
    fn set_pixel(&mut self, x: usize, y: usize, colour: u32)
        requires
            y * old(self).contents().pitch + x < old(self).contents().surface.len(),
        ensures
            final(self).contents() == (BufferView {
                surface: old(self).contents().surface.update(
                    y * old(self).contents().pitch + x,
                    colour,
                ),
                ..old(self).contents()
            }),
    ;

    /// Read a `0xAARRGGBB` pixel from the resolved display surface.
    fn read_pixel(&self, x: usize, y: usize) -> (colour: u32)
        requires
            y * self.contents().pitch + x < self.contents().surface.len(),
        ensures
            colour == self.contents().surface[y * self.contents().pitch + x],
    ;

    /// Flat position of `(x, y)` in the 8-bit index plane (`y * pitch() + x`).
    /// Pairs with [`Self::index_mut`] and [`Self::pitch`] for column stepping.
    fn get_buf_index(&self, x: usize, y: usize) -> (pos: usize)
        requires
            y * self.contents().w() + x <= usize::MAX,
        ensures
            pos == y * self.contents().w() + x,
    ;

    /// Row stride of the index plane in elements (the buffer width; the display
    /// surface may be padded wider, but that padding is hidden behind the pixel
    /// accessors).
    fn pitch(&self) -> (pitch: usize)
        ensures
            pitch == self.contents().w(),
    ;

    fn buf_mut(&mut self) -> (surface: &mut [u32])
        ensures
            surface@ == old(self).contents().surface,
            final(self).contents() == (BufferView {
                surface: final(surface)@,
                ..old(self).contents()
            }),
    ;

    /// Write a palette index to the 8-bit scene plane (the hot geometry path).
    fn set_index(&mut self, x: usize, y: usize, idx: u8)
        requires
            y * old(self).contents().w() + x < old(self).contents().index.len(),
        ensures
            final(self).contents() == (BufferView {
                index: old(self).contents().index.update(y * old(self).contents().w() + x, idx),
                ..old(self).contents()
            }),
    ;

    /// The 8-bit palette-index plane, for inner-loop `idx[pos] = colourmap[src]`.
    fn index_mut(&mut self) -> (index: &mut [u8])
        ensures
            index@ == old(self).contents().index,
            final(self).contents() == (BufferView { index: final(index)@, ..old(self).contents() }),
    ;

    /// Resolve the index plane to u32. No effect: `out[i] = palette[idx[i]]`.
    /// Bleed active: per-pixel select into `palettes_flat`, where `use_palette` is
    /// the palette of a pixel that the bleed does not tint.
    fn resolve(&mut self, palette: &[u32], palettes_flat: &[u32], use_palette: usize)
        requires
            old(self).contents().wf(),
            old(self).contents().resolvable(
                (PaletteView {
                    palette: palette@,
                    palettes_flat: palettes_flat@,
                    use_palette: use_palette as int,
                }),
            ),
        ensures
            final(self).contents().wf(),
            final(self).contents() == old(self).contents().resolved(
                (PaletteView {
                    palette: palette@,
                    palettes_flat: palettes_flat@,
                    use_palette: use_palette as int,
                }),
            ),
    ;
}

/// Resolves an index plane into a surface.
pub fn resolve_plane(
    size: &BufferSize,
    surface: &mut [u32],
    pitch: usize,
    index: &Vec<u8>,
    bleed: &HealthBleed,
    palette: &[u32],
    palettes_flat: &[u32],
    use_palette: usize,
)
    requires
        (BufferView {
            size: size@,
            surface: old(surface)@,
            pitch: pitch as int,
            index: index@,
            bleed: bleed@,
        }).wf(),
        (BufferView {
            size: size@,
            surface: old(surface)@,
            pitch: pitch as int,
            index: index@,
            bleed: bleed@,
        }).resolvable(
            (PaletteView {
                palette: palette@,
                palettes_flat: palettes_flat@,
                use_palette: use_palette as int,
            }),
        ),
    ensures
        final(surface)@ == (BufferView {
            size: size@,
            surface: old(surface)@,
            pitch: pitch as int,
            index: index@,
            bleed: bleed@,
        }).resolved(
            (PaletteView {
                palette: palette@,
                palettes_flat: palettes_flat@,
                use_palette: use_palette as int,
            }),
        ).surface,
{
    let ghost v = BufferView {
        size: size@,
        surface: surface@,
        pitch: pitch as int,
        index: index@,
        bleed: bleed@,
    };
    let ghost p = PaletteView {
        palette: palette@,
        palettes_flat: palettes_flat@,
        use_palette: use_palette as int,
    };
    let w: usize = size.width_usize();
    let h: usize = size.height_usize();
    let ghost surface_len = surface@.len();
    assert(surface.len() == surface_len);
    assert(index.len() == index@.len());
    assert(palettes_flat.len() == palettes_flat@.len());
    let tinted = bleed.is_active();
    let mut y: usize = 0;
    while y < h && w > 0
        invariant
            v.wf(),
            v.resolvable(p),
            w == v.w(),
            h == v.h(),
            v.pitch == pitch,
            v.index == index@,
            v.bleed == bleed@,
            p.palette == palette@,
            p.palettes_flat == palettes_flat@,
            p.use_palette == use_palette,
            tinted == v.bleed.active,
            surface_len <= usize::MAX,
            index@.len() <= usize::MAX,
            palettes_flat@.len() <= usize::MAX,
            y <= h,
            surface@.len() == v.surface.len() == surface_len,
            forall|i: int| #![trigger surface@[i]]
                0 <= i < surface_len ==> surface@[i] == (if 0 <= i % v.pitch < w && 0 <= i
                    / v.pitch < y {
                    v.table(p)[v.slot(p, i % v.pitch, i / v.pitch)]
                } else {
                    v.surface[i]
                }),
        decreases h - y,
    {
        let mut x: usize = 0;
        while x < w
            invariant
                v.wf(),
                v.resolvable(p),
                w == v.w(),
                h == v.h(),
                v.pitch == pitch,
                v.index == index@,
                v.bleed == bleed@,
                p.palette == palette@,
                p.palettes_flat == palettes_flat@,
                p.use_palette == use_palette,
                tinted == v.bleed.active,
                surface_len <= usize::MAX,
                index@.len() <= usize::MAX,
                palettes_flat@.len() <= usize::MAX,
                y < h,
                x <= w,
                surface@.len() == v.surface.len() == surface_len,
                forall|i: int| #![trigger surface@[i]]
                    0 <= i < surface_len ==> surface@[i] == (if 0 <= i % v.pitch < w && (0 <= i
                        / v.pitch < y || (i / v.pitch == y && i % v.pitch < x)) {
                        v.table(p)[v.slot(p, i % v.pitch, i / v.pitch)]
                    } else {
                        v.surface[i]
                    }),
            decreases w - x,
        {
            proof {
                lemma_cell_inside(y as int, x as int, h as int, w as int, w as int);
                assert((h - 1) * w + w == w * h) by (nonlinear_arith);
                lemma_cell_inside(y as int, x as int, h as int, w as int, pitch as int);
                lemma_cell_at(y as int, x as int, pitch as int);
            }
            let idx: usize = index[y * w + x] as usize;
            let ghost slot = v.slot(p, x as int, y as int);
            let c: u32 = if tinted {
                let row: u16 = #[verifier::truncate]
                (y as u16);
                proof {
                    if bleed@.lit(x as int, row as int) {
                        law_tint_is_red(bleed@, x as int, row as int, use_palette as int);
                    }
                }
                let off: usize = bleed.palette_offset(x, row, use_palette);
                palettes_flat[off * PALETTE_COLOURS + idx]
            } else {
                palette[idx]
            };
            let ghost before = surface@;
            let pos: usize = y * pitch + x;
            surface[pos] = c;
            proof {
                assert(c == v.table(p)[slot]);
                assert forall|i: int| #![trigger surface@[i]] 0 <= i < surface_len implies surface@[i]
                    == (if 0 <= i % v.pitch < w && (0 <= i / v.pitch < y || (i / v.pitch == y && i
                    % v.pitch < x + 1)) {
                    v.table(p)[v.slot(p, i % v.pitch, i / v.pitch)]
                } else {
                    v.surface[i]
                }) by {
                    lemma_cell(i, v.pitch);
                    if i != pos {
                        assert(surface@[i] == before[i]);
                    }
                }
            }
            x += 1;
        }
        y += 1;
    }
    assert(surface@ =~= v.resolved(p).surface);
}

/// The colours that `palette` gives to an index plane.
pub open spec fn widened(index: Seq<u8>, palette: Seq<u32>) -> Seq<u32> {
    Seq::new(index.len(), |i: int| palette[index[i] as int])
}

/// Resolves an index plane into a surface of the same layout, with one palette.
pub fn widen(index: &Vec<u8>, palette: &[u32], out: &mut [u32])
    requires
        old(out)@.len() == index@.len(),
        forall|i: int| 0 <= i < index@.len() ==> #[trigger] index@[i] < palette@.len(),
    ensures
        final(out)@ == widened(index@, palette@),
{
    let n: usize = index.len();
    let mut i: usize = 0;
    while i < n
        invariant
            i <= n,
            n == index@.len() == out@.len(),
            forall|j: int| 0 <= j < n ==> #[trigger] index@[j] < palette@.len(),
            forall|j: int| 0 <= j < i ==> #[trigger] out@[j] == palette@[index@[j] as int],
        decreases n - i,
    {
        out[i] = palette[index[i] as usize];
        i += 1;
    }
    assert(out@ =~= widened(index@, palette@));
}

/// A draw target over borrowed planes: the display surface, or the wipe's old
/// frame in its place.
pub struct SurfaceBuf<'b> {
    pub size: &'b BufferSize,
    pub surface: &'b mut [u32],
    pub pitch: usize,
    pub index: &'b mut Vec<u8>,
    pub bleed: &'b HealthBleed,
}

impl<'b> SurfaceBuf<'b> {
    /// What the target holds.
    pub open spec fn buffer(&self) -> BufferView {
        BufferView {
            size: self.size@,
            surface: self.surface@,
            pitch: self.pitch as int,
            index: self.index@,
            bleed: self.bleed@,
        }
    }
}

impl<'b> DrawBuffer for SurfaceBuf<'b> {
    open spec fn contents(&self) -> BufferView {
        self.buffer()
    }

    fn size(&self) -> (size: &BufferSize) {
        self.size
    }

    fn set_pixel(&mut self, x: usize, y: usize, colour: u32)
        ensures
            final(final(self).surface)@ == final(old(self).surface)@,
            *final(final(self).index) == *final(old(self).index),
    {
        assert(self.surface.len() == self.surface@.len());
        proof {
            lemma_product_not_negative(y as int, self.pitch as int);
        }
        let pos: usize = y * self.pitch + x;
        self.surface[pos] = colour;
    }

    fn read_pixel(&self, x: usize, y: usize) -> (colour: u32) {
        assert(self.surface.len() == self.surface@.len());
        proof {
            lemma_product_not_negative(y as int, self.pitch as int);
        }
        self.surface[y * self.pitch + x]
    }

    fn get_buf_index(&self, x: usize, y: usize) -> (pos: usize) {
        let w: usize = self.size.width_usize();
        proof {
            lemma_product_not_negative(y as int, w as int);
        }
        y * w + x
    }

    fn pitch(&self) -> (pitch: usize) {
        self.size.width_usize()
    }

    fn buf_mut(&mut self) -> (surface: &mut [u32])
        ensures
            final(final(self).surface)@ == final(old(self).surface)@,
            *final(final(self).index) == *final(old(self).index),
    {
        self.surface
    }

    fn set_index(&mut self, x: usize, y: usize, idx: u8)
        ensures
            final(final(self).surface)@ == final(old(self).surface)@,
            *final(final(self).index) == *final(old(self).index),
    {
        assert(self.index.len() == self.index@.len());
        let w: usize = self.size.width_usize();
        proof {
            lemma_product_not_negative(y as int, w as int);
        }
        let pos: usize = y * w + x;
        self.index[pos] = idx;
    }

    fn index_mut(&mut self) -> (index: &mut [u8])
        ensures
            final(final(self).surface)@ == final(old(self).surface)@,
            *final(final(self).index) == *final(old(self).index),
    {
        self.index.as_mut_slice()
    }

    fn resolve(&mut self, palette: &[u32], palettes_flat: &[u32], use_palette: usize)
        ensures
            final(final(self).surface)@ == final(old(self).surface)@,
            *final(final(self).index) == *final(old(self).index),
    {
        resolve_plane(
            self.size,
            self.surface,
            self.pitch,
            self.index,
            self.bleed,
            palette,
            palettes_flat,
            use_palette,
        );
    }
}

/// Drawing a pixel is what reading it gives back, and no other pixel of the
/// surface changes.
pub proof fn law_read_gives_back_write(
    v: BufferView,
    x: int,
    y: int,
    colour: u32,
    other_x: int,
    other_y: int,
)
    requires
        0 <= x < v.pitch,
        0 <= y,
        y * v.pitch + x < v.surface.len(),
        0 <= other_x < v.pitch,
        0 <= other_y,
        other_y * v.pitch + other_x < v.surface.len(),
    ensures
        v.surface.update(y * v.pitch + x, colour)[y * v.pitch + x] == colour,
        (other_x, other_y) != (x, y) ==> v.surface.update(y * v.pitch + x, colour)[other_y * v.pitch
            + other_x] == v.surface[other_y * v.pitch + other_x],
{
    lemma_cell_at(y, x, v.pitch);
    lemma_cell_at(other_y, other_x, v.pitch);
    lemma_product_not_negative(y, v.pitch);
    lemma_product_not_negative(other_y, v.pitch);
}

/// Resolving gives every pixel of the frame the colour of its own index.
pub proof fn law_resolve_colours_pixel(v: BufferView, p: PaletteView, x: int, y: int)
    requires
        v.wf(),
        0 <= x < v.w(),
        0 <= y < v.h(),
    ensures
        v.resolved(p).surface[y * v.pitch + x] == v.table(p)[v.slot(p, x, y)],
        !v.bleed.active ==> v.resolved(p).surface[y * v.pitch + x] == p.palette[v.index[y * v.w()
            + x] as int],
        v.bleed.active ==> v.resolved(p).surface[y * v.pitch + x]
            == p.palettes_flat[v.bleed.palette_at(x, (y as u16) as int, p.use_palette) * 256
            + v.index[y * v.w() + x]],
{
    lemma_cell_at(y, x, v.pitch);
    lemma_cell_inside(y, x, v.h(), v.w(), v.pitch);
}

/// Resolving does not touch the padding beside the frame, nor the rows below it.
pub proof fn law_resolve_keeps_padding(v: BufferView, p: PaletteView, x: int, y: int)
    requires
        v.wf(),
        0 <= x < v.pitch,
        0 <= y,
        x >= v.w() || y >= v.h(),
        y * v.pitch + x < v.surface.len(),
    ensures
        v.resolved(p).surface[y * v.pitch + x] == v.surface[y * v.pitch + x],
{
    lemma_cell_at(y, x, v.pitch);
    lemma_product_not_negative(y, v.pitch);
}

/// While a bleed is active, a pixel below its columns keeps the frame's palette.
pub proof fn law_pixel_below_bleed_is_untinted(v: BufferView, p: PaletteView, x: int, y: int)
    requires
        v.bleed.active,
        !v.bleed.lit(x, (y as u16) as int),
    ensures
        v.slot(p, x, y) == p.use_palette * 256 + v.index[y * v.w() + x],
{
}

/// A frame's palette, and palettes that reach it and the tints of the bleed, have
/// a colour for every pixel, once the bleed is as wide as the frame.
pub proof fn law_palette_and_tints_suffice(v: BufferView, p: PaletteView)
    requires
        v.wf(),
        p.palette.len() >= PALETTE_COLOURS,
        0 <= p.use_palette,
        p.palettes_flat.len() >= (p.use_palette + 1) * PALETTE_COLOURS,
        p.palettes_flat.len() >= (BLEED_PAL_START + BLEED_PAL_COUNT) * PALETTE_COLOURS,
        v.bleed.active ==> v.bleed.width >= v.w(),
    ensures
        v.resolvable(p),
{
    assert forall|x: int, y: int| 0 <= x < v.w() && 0 <= y < v.h() implies 0
        <= #[trigger] v.slot(p, x, y) < v.table(p).len() by {
        let row = (y as u16) as int;
        if v.bleed.active && v.bleed.lit(x, row) {
            law_tint_is_red(v.bleed, x, row, p.use_palette);
        }
    }
}

/// Resolving an unchanged index plane again gives the same surface.
pub proof fn law_resolve_is_repeatable(v: BufferView, p: PaletteView)
    ensures
        v.resolved(p).resolved(p) == v.resolved(p),
{
    let once = v.resolved(p);
    assert forall|i: int| 0 <= i < v.surface.len() implies once.resolved(p).surface[i]
        == once.surface[i] by {
        assert(once.slot(p, i % v.pitch, i / v.pitch) == v.slot(p, i % v.pitch, i / v.pitch));
    }
    assert(once.resolved(p) =~= once);
}

/// A palette index written at `(x, y)` comes out as its colour there, while no
/// bleed is active.
pub proof fn law_index_write_shows(v: BufferView, p: PaletteView, x: int, y: int, idx: u8)
    requires
        v.wf(),
        !v.bleed.active,
        0 <= x < v.w(),
        0 <= y < v.h(),
    ensures
        (BufferView { index: v.index.update(y * v.w() + x, idx), ..v }).resolved(p).surface[y
            * v.pitch + x] == p.palette[idx as int],
{
    let next = BufferView { index: v.index.update(y * v.w() + x, idx), ..v };
    lemma_cell_inside(y, x, v.h(), v.w(), v.w());
    assert((v.h() - 1) * v.w() + v.w() == v.w() * v.h()) by (nonlinear_arith);
    law_resolve_colours_pixel(next, p, x, y);
}

/// A frame of `width` by `height` is resolved pixel by pixel. With no bleed each
/// has the colour that the frame's palette gives to its index. Under an active
/// bleed the tinted ones have it from one of the three palettes after the base
/// one, the others from the frame's own among all the palettes.
pub proof fn law_resolve_picks_palette(v: BufferView, p: PaletteView, x: int, y: int)
    requires
        v.wf(),
        v.size.height <= 65536,
        0 <= x < v.size.width,
        0 <= y < v.size.height,
        v.bleed.active ==> v.bleed.width >= v.size.width,
    ensures
        ({
            let idx = v.index[y * v.size.width + x];
            let out = v.resolved(p).surface[y * v.pitch + x];
            &&& !v.bleed.active ==> out == p.palette[idx as int]
            &&& v.bleed.active && y >= v.bleed.shown[x] ==> out == p.palettes_flat[p.use_palette
                * 256 + idx]
            &&& v.bleed.active && y < v.bleed.shown[x] ==> out == p.palettes_flat[256 + idx] || out
                == p.palettes_flat[512 + idx] || out == p.palettes_flat[768 + idx]
        }),
{
    law_resolve_colours_pixel(v, p, x, y);
    assert(y as u16 == y);
}

/// Resolving changes nothing but the surface, and not its length.
pub proof fn law_resolve_changes_only_surface(v: BufferView, p: PaletteView)
    ensures
        v.resolved(p).surface.len() == v.surface.len(),
        v.resolved(p).index == v.index,
        v.resolved(p).bleed == v.bleed,
        v.resolved(p).size == v.size,
        v.resolved(p).pitch == v.pitch,
{
}

/// An index plane widened by a palette has the palette's colour for every index.
pub proof fn law_widened_plane_has_every_colour(index: Seq<u8>, palette: Seq<u32>, i: int)
    requires
        0 <= i < index.len(),
    ensures
        widened(index, palette).len() == index.len(),
        widened(index, palette)[i] == palette[index[i] as int],
{
}

} // verus!
