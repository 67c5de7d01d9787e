//! Buffer dimensions.

use crate::num::quot;
use vstd::prelude::*;

verus! {

/// Status bar height in native 200px space.
pub const STBAR_HEIGHT: i32 = 32;

/// Classic Doom fuzz Y-offsets. The table cycles per-pixel to create the
/// spectre shimmer effect.
pub const FUZZ_TABLE: [i32; 50] = [
    1, -1, 1, -1, 1, 1, -1, 1, 1, -1, 1, 1, 1, -1, 1, 1, 1, -1, -1, -1, 1, -1, -1, -1, 1, 1, 1, 1,
    -1, 1, -1, 1, 1, -1, -1, 1, 1, -1, -1, -1, -1, 1, 1, 1, 1, -1, 1, 1, -1, 1,
];

/// What a buffer size says.
#[verifier::ext_equal]
pub struct SizeView {
    pub width: usize,
    pub height: usize,
    /// Rows at the bottom that the status bar takes.
    pub statusbar_height: i32,
}

impl SizeView {
    /// The rows above the status bar.
    pub open spec fn view_height(self) -> int {
        (self.height as i32) - self.statusbar_height
    }
}

/// Pre-computed buffer dimensions for fast 2.5D rendering.
#[derive(Clone, Copy)]
pub struct BufferSize {
    hi_res: bool,
    width_usize: usize,
    height_usize: usize,
    width: i32,
    height: i32,
    statusbar_height: i32,
}

impl View for BufferSize {
    type V = SizeView;

    closed spec fn view(&self) -> SizeView {
        SizeView {
            width: self.width_usize,
            height: self.height_usize,
            statusbar_height: self.statusbar_height,
        }
    }
}

impl BufferSize {
    /// The precomputed fields are those of the dimensions.
    #[verifier::type_invariant]
    spec fn consistent(self) -> bool {
        &&& self.hi_res == (self.height_usize > 200)
        &&& self.width == self.width_usize as i32
        &&& self.height == self.height_usize as i32
    }

    /// A buffer of `width` by `height` without a status bar.
    pub fn new(width: usize, height: usize) -> (size: Self)
        ensures
            size@ == (SizeView { width, height, statusbar_height: 0 }),
    {
        Self {
            hi_res: height > 200,
            width_usize: width,
            height_usize: height,
            width: #[verifier::truncate]
            (width as i32),
            height: #[verifier::truncate]
            (height as i32),
            statusbar_height: 0,
        }
    }

    pub fn hi_res(&self) -> (r: bool)
        ensures
            r == (self@.height > 200),
    {
        proof {
            use_type_invariant(self);
        }
        self.hi_res
    }

    pub fn width(&self) -> (r: i32)
        ensures
            r == self@.width as i32,
    {
        proof {
            use_type_invariant(self);
        }
        self.width
    }

    pub fn height(&self) -> (r: i32)
        ensures
            r == self@.height as i32,
    {
        proof {
            use_type_invariant(self);
        }
        self.height
    }

    pub fn half_width(&self) -> (r: i32)
        ensures
            r == quot(self@.width as i32 as int, 2),
    {
        proof {
            use_type_invariant(self);
        }
        self.width / 2
    }

    pub fn half_height(&self) -> (r: i32)
        ensures
            r == quot(self@.height as i32 as int, 2),
    {
        proof {
            use_type_invariant(self);
        }
        self.height / 2
    }

    pub fn width_usize(&self) -> (r: usize)
        ensures
            r == self@.width,
    {
        self.width_usize
    }

    pub fn height_usize(&self) -> (r: usize)
        ensures
            r == self@.height,
    {
        self.height_usize
    }

    /// Gives `h` rows at the bottom to the status bar.
    pub fn set_statusbar_height(&mut self, h: i32)
        ensures
            final(self)@ == (SizeView { statusbar_height: h, ..old(self)@ }),
    {
        proof {
            use_type_invariant(&*self);
        }
        self.statusbar_height = h;
    }

    pub fn statusbar_height(&self) -> (r: i32)
        ensures
            r == self@.statusbar_height,
    {
        self.statusbar_height
    }

    /// The rows above the status bar.
    pub fn view_height(&self) -> (r: i32)
        requires
            i32::MIN <= self@.view_height() <= i32::MAX,
        ensures
            r == self@.view_height(),
    {
        proof {
            use_type_invariant(self);
        }
        self.height - self.statusbar_height
    }

    pub fn view_height_usize(&self) -> (r: usize)
        requires
            i32::MIN <= self@.view_height() <= i32::MAX,
        ensures
            r == self@.view_height() as i32 as u32 as usize,
    {
        #[verifier::truncate]
        (self.view_height() as u32) as usize
    }

    pub fn half_view_height(&self) -> (r: i32)
        requires
            i32::MIN <= self@.view_height() <= i32::MAX,
        ensures
            r == quot(self@.view_height(), 2),
    {
        self.view_height() / 2
    }
}

/// A buffer that `i32` can hold is as high as its view and its status bar
/// together.
pub proof fn law_view_and_bar_fill_buffer(size: SizeView)
    requires
        size.height <= i32::MAX,
    ensures
        size.view_height() + size.statusbar_height == size.height,
{
}

} // verus!
