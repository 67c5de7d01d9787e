//! The screen wipe: the old frame melts down in columns and uncovers the new
//! one.

use std::time::{Duration, Instant};

use crate::num::{
    larger, lemma_cell, lemma_cell_at, lemma_cell_inside, lemma_product_not_negative, rem,
};
use vstd::prelude::*;

verus! {

/// Duration between wipe steps (~60Hz).
pub const STEP_INTERVAL_MS: u128 = 16;

/// Opaque black (`0xAARRGGBB`), used to clear the snapshot so uncaptured pixels
/// melt opaque (some display backends require fully-opaque surface pixels).
pub const OPAQUE_BLACK: u32 = 0xFF00_0000;

/// `std::time::Instant`: a reading of the clock, which cannot be looked into.
#[verifier::external_type_specification]
#[verifier::external_body]
pub struct ExInstant(Instant);

/// `std::time::Instant::now`. Nothing is claimed of the instant: it is the
/// clock's.
#[verifier::external_body]
fn clock_now() -> (now: Instant) {
    Instant::now()
}

/// `std::time::Instant::elapsed`. Nothing is claimed of the duration: it is the
/// clock's.
#[verifier::external_body]
fn time_since(since: &Instant) -> (elapsed: Duration) {
    since.elapsed()
}

/// `std::time::Duration::as_millis`: the whole milliseconds of a duration. The
/// duration is the clock's and cannot be looked into, so nothing is claimed of
/// their number.
#[verifier::external_body]
fn whole_millis(elapsed: &Duration) -> (millis: u128) {
    elapsed.as_millis()
}

/// What a wipe is.
#[verifier::ext_equal]
pub struct WipeView {
    /// How far each column has melted, in rows; negative while it still waits.
    pub y: Seq<i32>,
    pub width: int,
    pub height: int,
    /// The old frame, `width` pixels per row; empty when no wipe is on.
    pub snapshot: Seq<u32>,
    /// Time of the last step.
    pub last_step: Instant,
}

impl WipeView {
    /// Columns melt in blocks of this many.
    pub open spec fn stepping(self) -> int {
        self.height / 100
    }

    /// The first column of the block that holds `col`.
    pub open spec fn lead(self, col: int) -> int {
        col - col % self.stepping()
    }

    /// Whether `col` is in a block that melts. The block must end before the
    /// last column of the screen.
    pub open spec fn covered(self, col: int) -> bool {
        &&& self.stepping() > 0
        &&& 0 <= col
        &&& self.lead(col) + self.stepping() < self.width
    }

    /// How far the block that holds `col` has melted.
    pub open spec fn offset(self, col: int) -> int {
        self.y[self.lead(col)] as int
    }

    /// Whether the old frame still shows in `col`.
    pub open spec fn pending_at(self, col: int) -> bool {
        self.covered(col) && self.offset(col) < self.height
    }

    /// Whether the old frame still shows somewhere.
    pub open spec fn pending(self) -> bool {
        exists|col: int| #[trigger] self.pending_at(col)
    }

    /// The colour at `(row, col)` once the old frame is drawn over `under`: the
    /// old frame's column moved down by the block's offset.
    pub open spec fn pixel(self, row: int, col: int, under: u32) -> u32 {
        let shift = larger(self.offset(col), 0);
        if self.pending_at(col) && shift <= row < self.height {
            self.snapshot[(row - shift) * self.width + col]
        } else {
            under
        }
    }

    /// A surface of `pitch` elements per row with the old frame drawn over it.
    pub open spec fn painted(self, buf: Seq<u32>, pitch: int) -> Seq<u32> {
        Seq::new(buf.len(), |p: int| self.pixel(p / pitch, p % pitch, buf[p]))
    }

    /// By how much a block falls that has melted `y` rows: faster and faster at
    /// first, then evenly, and never past the bottom.
    pub open spec fn fall(self, y: int) -> int {
        let f = self.height / 200;
        let dy = if y < 16 * f {
            y + self.stepping()
        } else {
            8 * f
        };
        if y + dy >= self.height {
            self.height - y
        } else {
            dy
        }
    }

    /// The offset of `col` after one step.
    pub open spec fn stepped(self, col: int) -> int {
        let y = self.offset(col);
        if !self.pending_at(col) {
            self.y[col] as int
        } else if y >= 0 {
            self.y[col] + self.fall(y)
        } else if col == self.lead(col) {
            y + self.stepping() / 2
        } else {
            self.y[col] as int
        }
    }

    /// The wipe with its columns one step on.
    pub open spec fn advanced(self) -> WipeView {
        WipeView { y: Seq::new(self.y.len(), |col: int| self.stepped(col) as i32), ..self }
    }

    /// The wipe after a redraw `elapsed` milliseconds past its last step. A step
    /// is taken only when it is due, and only then the time of the last step
    /// becomes `now`.
    pub open spec fn after(self, elapsed: u128, now: Instant) -> WipeView {
        if elapsed >= STEP_INTERVAL_MS {
            WipeView { last_step: now, ..self.advanced() }
        } else {
            self
        }
    }

    /// The wipe begun at `now`, with an old frame of opaque black.
    pub open spec fn started(self, now: Instant) -> WipeView {
        WipeView {
            snapshot: Seq::new((self.width * self.height) as nat, |i: int| OPAQUE_BLACK),
            last_step: now,
            ..self
        }
    }

    /// What every wipe keeps.
    pub open spec fn wf(self) -> bool {
        &&& 0 <= self.width <= i32::MAX
        &&& 0 <= self.height <= i32::MAX - 15
        &&& self.y.len() == larger(self.width, 1)
        &&& self.snapshot.len() == 0 || self.snapshot.len() == self.width * self.height
        &&& forall|col: int| 0 <= col < self.y.len() ==> #[trigger] self.y[col] >= -15
        &&& forall|col: int| #[trigger]
            self.covered(col) ==> self.offset(col) <= self.height && self.y[col] <= 15 + larger(
                self.offset(col),
                0,
            )
    }

    /// Whether the wipe can be drawn: the screen is at least one block high and
    /// wide, and there is an old frame wherever one is still to be drawn.
    pub open spec fn drawable(self) -> bool {
        &&& self.height >= 100
        &&& self.stepping() <= self.width
        &&& self.pending() ==> self.snapshot.len() == self.width * self.height
    }
}

/// A column offset brought back into the strip above the screen.
pub open spec fn settled(v: int) -> int {
    if v > 0 {
        0
    } else if v <= -16 {
        -15
    } else {
        v
    }
}

/// The starting offset of column `i`: the first is drawn from sixteen, each
/// next one goes up, down or stays, by its own draw.
pub open spec fn jagged(draws: Seq<i32>, i: int) -> int
    decreases i,
{
    if i <= 0 {
        -rem(draws[0] as int, 16)
    } else {
        settled(jagged(draws, i - 1) + rem(draws[i] as int, 3) - 1)
    }
}

/// The starting offsets of a screen `width` columns wide.
pub open spec fn offsets(draws: Seq<i32>, width: int) -> Seq<i32> {
    Seq::new(larger(width, 1) as nat, |i: int| jagged(draws, i) as i32)
}

/// Starting offsets lie near zero, whatever was drawn.
proof fn lemma_jagged_range(draws: Seq<i32>, i: int)
    requires
        0 <= i,
    ensures
        -15 <= jagged(draws, i) <= 15,
    decreases i,
{
    if i > 0 {
        lemma_jagged_range(draws, i - 1);
    }
}

/// Whether `buf`, of `pitch` elements per row, holds `height` rows of `width`.
pub open spec fn holds_frame(len: int, pitch: int, width: int, height: int) -> bool {
    &&& width <= pitch
    &&& height > 0 && width > 0 ==> (height - 1) * pitch + width <= len
}

/// A fresh set of offsets makes a well-formed wipe.
proof fn lemma_offsets_wf(v: WipeView, draws: Seq<i32>)
    requires
        0 <= v.width <= i32::MAX,
        v.y == offsets(draws, v.width),
        v.snapshot.len() == 0,
    ensures
        0 <= v.height <= i32::MAX - 15 ==> v.wf(),
{
    assert forall|col: int| 0 <= col < v.y.len() implies -15 <= #[trigger] v.y[col] <= 15 by {
        lemma_jagged_range(draws, col);
    }
    assert forall|col: int| #[trigger] v.covered(col) implies v.offset(col) <= v.height && v.y[col]
        <= 15 + larger(v.offset(col), 0) by {
        v.lemma_lead(col);
        assert(v.y[v.lead(col)] <= 15);
        assert(v.y[col] <= 15);
    }
}

/// Whether a step is due when `elapsed` milliseconds have passed since the last.
pub fn step_is_due(elapsed: u128) -> (due: bool)
    ensures
        due == (elapsed >= STEP_INTERVAL_MS),
{
    elapsed >= STEP_INTERVAL_MS
}

/// A melting-columns transition from an old frame to a new one.
pub struct Wipe {
    y: Vec<i32>,
    height: i32,
    width: i32,
    /// The old frame, drawn into by the caller when a wipe starts and melted
    /// over the display surface. Width-pitched `0xAARRGGBB`.
    snapshot: Vec<u32>,
    /// Time of the last wipe step, used to gate advancement.
    last_step: Instant,
}

impl View for Wipe {
    type V = WipeView;

    closed spec fn view(&self) -> WipeView {
        WipeView {
            y: self.y@,
            width: self.width as int,
            height: self.height as int,
            snapshot: self.snapshot@,
            last_step: self.last_step,
        }
    }
}

impl WipeView {
    /// The lead of a block leads it, and every column of the block has it.
    proof fn lemma_block(self, x: int)
        requires
            self.stepping() > 0,
            0 <= x,
            x % self.stepping() == 0,
        ensures
            self.lead(x) == x,
            forall|col: int| x <= col < x + self.stepping() ==> #[trigger] self.lead(col) == x,
            (x + self.stepping()) % self.stepping() == 0,
    {
        let s = self.stepping();
        assert forall|col: int| x <= col < x + s implies #[trigger] self.lead(col) == x by {
            lemma_cell(x, s);
            lemma_cell_at(x / s, col - x, s);
        }
        lemma_cell(x, s);
        assert((x / s + 1) * s == (x / s) * s + s) by (nonlinear_arith);
        lemma_cell_at(x / s + 1, 0, s);
    }

    /// The lead of a column is a column that leads itself.
    proof fn lemma_lead(self, col: int)
        requires
            self.stepping() > 0,
            0 <= col,
        ensures
            0 <= self.lead(col) <= col < self.lead(col) + self.stepping(),
            self.lead(col) % self.stepping() == 0,
            self.lead(self.lead(col)) == self.lead(col),
    {
        let s = self.stepping();
        lemma_cell(col, s);
        assert(col / s >= 0) by {
            vstd::arithmetic::div_mod::lemma_div_pos_is_pos(col, s);
        }
        assert((col / s) * s >= 0) by (nonlinear_arith)
            requires
                col / s >= 0,
                s > 0,
        ;
        lemma_cell_at(col / s, 0, s);
    }

    /// Leads do not decrease from left to right.
    proof fn lemma_past(self, x: int, col: int)
        requires
            self.stepping() > 0,
            0 <= x <= col,
            x % self.stepping() == 0,
        ensures
            self.lead(col) >= x,
    {
        let s = self.stepping();
        lemma_cell(x, s);
        lemma_cell(col, s);
        assert(col / s >= x / s) by {
            vstd::arithmetic::div_mod::lemma_div_is_ordered(x, col, s);
        }
        assert((col / s) * s >= (x / s) * s) by (nonlinear_arith)
            requires
                col / s >= x / s,
                s > 0,
        ;
    }

    /// One step keeps what every wipe keeps.
    proof fn lemma_advanced_wf(self)
        requires
            self.wf(),
            self.height >= 100,
        ensures
            self.advanced().wf(),
            forall|col: int| 0 <= col < self.y.len() ==> #[trigger] self.advanced().y[col] == self.stepped(col),
    {
        let next = self.advanced();
        assert forall|col: int| 0 <= col < self.y.len() implies #[trigger] next.y[col]
            == self.stepped(col) && next.y[col] >= -15 by {
        }
        assert forall|col: int| #[trigger] next.covered(col) implies next.offset(col) <= next.height
            && next.y[col] <= 15 + larger(next.offset(col), 0) by {
            self.lemma_lead(col);
            let x = self.lead(col);
            assert(self.covered(x));
            assert(self.y[x] >= -15 && self.y[col] >= -15);
            assert(next.y[x] == self.stepped(x));
            assert(next.y[col] == self.stepped(col));
        }
    }
}

impl Wipe {
    /// Draws the `count` columns from `x` on of the old frame over `buf`, moved
    /// down by `shift` rows.
    fn paint_block(&self, buf: &mut [u32], surface_pitch: usize, x: usize, count: usize, shift: usize)
        requires
            0 <= self@.width,
            0 <= self@.height,
            self@.snapshot.len() == self@.width * self@.height,
            holds_frame(old(buf)@.len() as int, surface_pitch as int, self@.width, self@.height),
            x + count <= self@.width,
            shift <= self@.height,
        ensures
            final(buf)@.len() == old(buf)@.len(),
            forall|p: int| #![trigger final(buf)@[p]]
                0 <= p < old(buf)@.len() ==> final(buf)@[p] == ({
                    let row = p / surface_pitch as int;
                    let col = p % surface_pitch as int;
                    if x <= col < x + count && shift <= row < self@.height {
                        self@.snapshot[(row - shift) * self@.width + col]
                    } else {
                        old(buf)@[p]
                    }
                }),
    {
        let height: usize = self.height as usize;
        let src_pitch: usize = self.width as usize;
        let ghost b0 = buf@;
        assert(buf.len() == b0.len());
        assert(self.snapshot.len() == self@.snapshot.len());
        let ghost pitch = surface_pitch as int;
        let ghost w = self@.width;
        let mut col: usize = x;
        while col < x + count
            invariant
                self@.snapshot.len() == self@.width * self@.height,
                self@.snapshot.len() <= usize::MAX,
                holds_frame(b0.len() as int, pitch, w, self@.height),
                x + count <= w,
                x <= col <= x + count,
                shift <= height,
                height == self@.height,
                src_pitch == w,
                w == self@.width,
                pitch == surface_pitch,
                buf@.len() == b0.len() <= usize::MAX,
                forall|p: int| #![trigger buf@[p]]
                    0 <= p < b0.len() ==> buf@[p] == (if x <= p % pitch < col && shift <= p / pitch
                        < height {
                        self@.snapshot[(p / pitch - shift) * w + p % pitch]
                    } else {
                        b0[p]
                    }),
            decreases x + count - col,
        {
            let mut src_y: usize = 0;
            while src_y < height - shift
                invariant
                    self@.snapshot.len() == self@.width * self@.height,
                    self@.snapshot.len() <= usize::MAX,
                    holds_frame(b0.len() as int, pitch, w, self@.height),
                    x + count <= w,
                    x <= col < x + count,
                    shift <= height,
                    src_y <= height - shift,
                    height == self@.height,
                    src_pitch == w,
                    w == self@.width,
                    pitch == surface_pitch,
                    buf@.len() == b0.len() <= usize::MAX,
                    forall|p: int| #![trigger buf@[p]]
                        0 <= p < b0.len() ==> buf@[p] == (if (x <= p % pitch < col && shift <= p
                            / pitch < height) || (p % pitch == col && shift <= p / pitch < shift
                            + src_y) {
                            self@.snapshot[(p / pitch - shift) * w + p % pitch]
                        } else {
                            b0[p]
                        }),
                decreases height - shift - src_y,
            {
                let dst_y: usize = src_y + shift;
                proof {
                    lemma_cell_inside(dst_y as int, col as int, height as int, w, pitch);
                    lemma_cell_inside(src_y as int, col as int, height as int, w, w);
                    assert((height - 1) * w + w == height * w) by (nonlinear_arith);
                    assert(height * w == w * height) by (nonlinear_arith);
                    lemma_cell_at(dst_y as int, col as int, pitch);
                }
                let ghost before = buf@;
                let pos: usize = dst_y * surface_pitch + col;
                buf[pos] = self.snapshot[src_y * src_pitch + col];
                proof {
                    assert forall|p: int| #![trigger buf@[p]] 0 <= p < b0.len() implies buf@[p] == (
                    if (x <= p % pitch < col && shift <= p / pitch < height) || (p % pitch == col
                        && shift <= p / pitch < shift + src_y + 1) {
                        self@.snapshot[(p / pitch - shift) * w + p % pitch]
                    } else {
                        b0[p]
                    }) by {
                        lemma_cell(p, pitch);
                        if p != pos {
                            assert(buf@[p] == before[p]);
                        }
                    }
                }
                src_y += 1;
            }
            col += 1;
        }
    }

    /// A wipe for a screen of `width` by `height`. `draws` are random numbers,
    /// one for each column.
    pub fn new(width: i32, height: i32, draws: &[i32]) -> (wipe: Self)
        requires
            0 <= width,
            larger(width as int, 1) <= draws@.len(),
        ensures
            wipe@ == (WipeView {
                y: offsets(draws@, width as int),
                width: width as int,
                height: height as int,
                snapshot: Seq::empty(),
                last_step: wipe@.last_step,
            }),
            0 <= height <= i32::MAX - 15 ==> wipe@.wf(),
    {
        let wipe = Self {
            y: Self::init_offsets(width, draws),
            height,
            width,
            snapshot: Vec::new(),
            last_step: clock_now(),
        };
        proof {
            lemma_offsets_wf(wipe@, draws@);
        }
        wipe
    }

    /// Generate the random jagged column offsets for a new wipe.
    fn init_offsets(width: i32, draws: &[i32]) -> (y: Vec<i32>)
        requires
            0 <= width,
            larger(width as int, 1) <= draws@.len(),
        ensures
            y@ == offsets(draws@, width as int),
    {
        let mut y: Vec<i32> = Vec::with_capacity(width as usize);
        y.push(-(draws[0] % 16));
        let mut i: usize = 1;
        while i < width as usize
            invariant
                0 <= width,
                larger(width as int, 1) <= draws@.len(),
                1 <= i <= larger(width as int, 1),
                y@.len() == i,
                forall|j: int| 0 <= j < i ==> #[trigger] y@[j] == jagged(draws@, j),
            decreases width - i,
        {
            proof {
                lemma_jagged_range(draws@, i - 1);
                assert(y@[i - 1] == jagged(draws@, i - 1));
            }
            let r: i32 = draws[i] % 3 - 1;
            let next: i32 = y[i - 1] + r;
            if next > 0 {
                y.push(0);
            } else if next <= -16 {
                y.push(-15);
            } else {
                y.push(next);
            }
            i += 1;
        }
        proof {
            assert forall|j: int| 0 <= j < y@.len() implies y@[j] == offsets(draws@, width as int)[j] by {
                lemma_jagged_range(draws@, j);
                assert(y@[j] == jagged(draws@, j));
            }
            assert(y@ =~= offsets(draws@, width as int));
        }
        y
    }

    /// Ends the wipe and draws the offsets of the next one. `draws` are random
    /// numbers, one for each column.
    pub fn reset(&mut self, draws: &[i32])
        requires
            0 <= old(self)@.width,
            larger(old(self)@.width, 1) <= draws@.len(),
        ensures
            0 <= old(self)@.height <= i32::MAX - 15 ==> final(self)@.wf(),
            final(self)@ == (WipeView {
                y: offsets(draws@, old(self)@.width),
                snapshot: Seq::empty(),
                ..old(self)@
            }),
    {
        self.y = Self::init_offsets(self.width, draws);
        self.snapshot.clear();
        proof {
            lemma_offsets_wf(self@, draws@);
        }
    }

    /// Begin a wipe: size the snapshot buffer and clear it to opaque black for
    /// the caller to draw the old frame into (via [`Self::snapshot_mut`]).
    /// Opaque (`0xFF` alpha) because the snapshot is melted onto the display
    /// surface, which some backends require to be fully opaque.
    /// The first step is due [`STEP_INTERVAL_MS`] from now, by the clock.
    pub fn start(&mut self)
        requires
            old(self)@.wf(),
            old(self)@.width * old(self)@.height <= usize::MAX,
        ensures
            final(self)@.wf(),
            final(self)@ == old(self)@.started(final(self)@.last_step),
    {
        self.start_at(clock_now());
    }

    /// Begins a wipe at `now`.
    pub fn start_at(&mut self, now: Instant)
        requires
            old(self)@.wf(),
            old(self)@.width * old(self)@.height <= usize::MAX,
        ensures
            final(self)@.wf(),
            final(self)@ == old(self)@.started(now),
    {
        proof {
            lemma_product_not_negative(self@.width, self@.height);
        }
        let n: usize = self.width as usize * self.height as usize;
        self.snapshot.clear();
        self.snapshot.resize(n, OPAQUE_BLACK);
        self.last_step = now;
        proof {
            assert(self@ =~= old(self)@.started(now));
            assert forall|col: int| #[trigger] self@.covered(col) implies old(self)@.covered(col) by {}
        }
    }

    /// The old-frame buffer, width-pitched `0xAARRGGBB`, for the caller to draw
    /// the old state into after [`Self::start`].
    pub fn snapshot_mut(&mut self) -> (snapshot: &mut [u32])
        ensures
            snapshot@ == old(self)@.snapshot,
            final(self)@ == (WipeView { snapshot: final(snapshot)@, ..old(self)@ }),
    {
        self.snapshot.as_mut_slice()
    }

    /// Returns true if a wipe is in progress (snapshot captured).
    pub fn is_wiping(&self) -> (wiping: bool)
        ensures
            wiping == (self@.snapshot.len() != 0),
    {
        !self.snapshot.is_empty()
    }

    /// Whether no column of the old frame is left to melt.
    pub fn is_melted(&self) -> (melted: bool)
        requires
            self@.wf(),
            self@.height >= 100,
            self@.stepping() <= self@.width,
        ensures
            melted == !self@.pending(),
    {
        let stepping: usize = self.height as usize / 100;
        let limit: usize = self.width as usize - stepping;
        let mut x: usize = 0;
        while x < limit
            invariant
                self@.wf(),
                stepping == self@.stepping(),
                stepping > 0,
                limit == self@.width - stepping,
                x % stepping == 0,
                x < limit + stepping,
                forall|col: int| 0 <= col < x ==> !#[trigger] self@.pending_at(col),
            decreases limit + stepping - x,
        {
            proof {
                self@.lemma_block(x as int);
            }
            if self.y[x] < self.height {
                assert(self@.pending_at(x as int));
                return false;
            }
            proof {
                assert forall|col: int| x <= col < x + stepping implies !self@.pending_at(col) by {
                    assert(self@.lead(col) == x);
                }
            }
            x += stepping;
        }
        proof {
            assert forall|col: int| x <= col implies !#[trigger] self@.pending_at(col) by {
                if self@.covered(col) {
                    self@.lemma_past(x as int, col);
                }
            }
        }
        true
    }

    /// Overdraw shifted old-frame columns on top of the display surface.
    ///
    /// The caller must have already composited the new scene into `buf`. This
    /// paints the old frame's columns shifted down, covering the bottom portion
    /// where the old scene should still be visible.
    ///
    /// `buf` is the display surface (`surface_pitch` elements per row, possibly
    /// padded); the snapshot is width-pitched, so the two are addressed with
    /// their own pitches.
    ///
    /// Only advances the melt when at least `STEP_INTERVAL_MS` has elapsed
    /// since the last step; otherwise it redraws the current state without
    /// advancing, and the time of the last step stays. Which of the two it is,
    /// the clock decides; [`Self::melt_after`] does the rest.
    ///
    /// Returns true when the melt is complete.
    pub fn do_melt_pixels(&mut self, buf: &mut [u32], surface_pitch: usize) -> (done: bool)
        requires
            old(self)@.wf(),
            old(self)@.drawable(),
            holds_frame(
                old(buf)@.len() as int,
                surface_pitch as int,
                old(self)@.width,
                old(self)@.height,
            ),
        ensures
            final(self)@.wf(),
            final(self)@ == old(self)@ || final(self)@ == (WipeView {
                last_step: final(self)@.last_step,
                ..old(self)@.advanced()
            }),
            final(buf)@ == old(self)@.painted(old(buf)@, surface_pitch as int),
            done == !old(self)@.pending(),
    {
        let (elapsed, now) = self.read_clock();
        self.melt_after(buf, surface_pitch, elapsed, now)
    }

    /// The milliseconds since the last step, and the time.
    pub(crate) fn read_clock(&self) -> (reading: (u128, Instant)) {
        let elapsed: u128 = whole_millis(&time_since(&self.last_step));
        (elapsed, clock_now())
    }

    /// Overdraws the old frame's columns on top of `buf`, `elapsed` milliseconds
    /// after the last step. Lets them fall one step if it is due, and then takes
    /// `now` for the time of the last step. Returns whether the melt was already
    /// complete.
    pub fn melt_after(
        &mut self,
        buf: &mut [u32],
        surface_pitch: usize,
        elapsed: u128,
        now: Instant,
    ) -> (done: bool)
        requires
            old(self)@.wf(),
            old(self)@.drawable(),
            holds_frame(
                old(buf)@.len() as int,
                surface_pitch as int,
                old(self)@.width,
                old(self)@.height,
            ),
        ensures
            final(self)@.wf(),
            final(self)@ == old(self)@.after(elapsed, now),
            final(buf)@ == old(self)@.painted(old(buf)@, surface_pitch as int),
            done == !old(self)@.pending(),
    {
        let should_step = step_is_due(elapsed);
        let done = self.melt(buf, surface_pitch, should_step);
        if should_step {
            let ghost fallen = self@;
            self.last_step = now;
            proof {
                lemma_clock_keeps_wf(fallen, now);
            }
        }
        done
    }

    /// Overdraws the old frame's columns on top of `buf` and, if `should_step`,
    /// lets them fall one step. Returns whether the melt was already complete.
    pub fn melt(&mut self, buf: &mut [u32], surface_pitch: usize, should_step: bool) -> (done: bool)
        requires
            old(self)@.wf(),
            old(self)@.drawable(),
            holds_frame(
                old(buf)@.len() as int,
                surface_pitch as int,
                old(self)@.width,
                old(self)@.height,
            ),
        ensures
            final(self)@.wf(),
            final(self)@ == (if should_step {
                old(self)@.advanced()
            } else {
                old(self)@
            }),
            final(buf)@ == old(self)@.painted(old(buf)@, surface_pitch as int),
            done == !old(self)@.pending(),
    {
        let ghost v0 = self@;
        let ghost b0 = buf@;
        let ghost pitch = surface_pitch as int;
        let mut done = true;
        let stepping: usize = self.height as usize / 100;
        let f: i32 = self.height / 200;
        let limit: usize = self.width as usize - stepping;
        let mut x: usize = 0;
        while x < limit
            invariant
                v0.wf(),
                v0.drawable(),
                holds_frame(b0.len() as int, pitch, v0.width, v0.height),
                pitch == surface_pitch,
                stepping == v0.stepping(),
                stepping > 0,
                f == v0.height / 200,
                limit == v0.width - stepping,
                x % stepping == 0,
                x < limit + stepping,
                self@.width == v0.width,
                self@.height == v0.height,
                self@.snapshot == v0.snapshot,
                self@.last_step == v0.last_step,
                self@.y.len() == v0.y.len(),
                forall|col: int| #![trigger self@.y[col]]
                    0 <= col < v0.y.len() ==> self@.y[col] == (if should_step && col < x {
                        v0.stepped(col)
                    } else {
                        v0.y[col] as int
                    }),
                buf@.len() == b0.len(),
                forall|p: int| #![trigger buf@[p]]
                    0 <= p < b0.len() ==> buf@[p] == (if p % pitch < x {
                        v0.pixel(p / pitch, p % pitch, b0[p])
                    } else {
                        b0[p]
                    }),
                done <==> forall|col: int| 0 <= col < x ==> !#[trigger] v0.pending_at(col),
            decreases limit + stepping - x,
        {
            proof {
                v0.lemma_block(x as int);
            }
            let y: i32 = self.y[x];
            if y < self.height {
                assert(v0.pending_at(x as int));
                let shift: usize = if y < 0 {
                    0
                } else {
                    y as usize
                };
                self.paint_block(buf, surface_pitch, x, stepping, shift);
                if should_step {
                    if y < 0 {
                        self.y[x] = y + stepping as i32 / 2;
                    } else {
                        let mut dy: i32 = if y < 16 * f {
                            y + stepping as i32
                        } else {
                            8 * f
                        };
                        if dy >= self.height - y {
                            dy = self.height - y;
                        }
                        let mut col: usize = x;
                        while col < x + stepping
                            invariant
                                v0.wf(),
                                v0.covered(x as int),
                                stepping == v0.stepping(),
                                x <= col <= x + stepping,
                                x + stepping < v0.width,
                                0 <= y < v0.height,
                                y == v0.y[x as int],
                                dy == v0.fall(y as int),
                                forall|c: int|
                                    x <= c < x + stepping ==> #[trigger] v0.lead(c) == x,
                                self@.width == v0.width,
                                self@.height == v0.height,
                                self@.snapshot == v0.snapshot,
                                self@.last_step == v0.last_step,
                                self@.y.len() == v0.y.len(),
                                forall|c: int| #![trigger self@.y[c]]
                                    0 <= c < v0.y.len() ==> self@.y[c] == (if c < col {
                                        v0.stepped(c)
                                    } else {
                                        v0.y[c] as int
                                    }),
                            decreases x + stepping - col,
                        {
                            assert(v0.lead(col as int) == x);
                            assert(v0.covered(col as int));
                            assert(self@.y[col as int] == v0.y[col as int]);
                            let lowered: i32 = self.y[col] + dy;
                            self.y[col] = lowered;
                            col += 1;
                        }
                    }
                }
                done = false;
            }
            proof {
                assert forall|col: int| x <= col < x + stepping implies v0.pending_at(col) == (y
                    < v0.height) by {
                    assert(v0.lead(col) == x);
                }
            }
            x += stepping;
        }
        proof {
            assert forall|col: int| x <= col implies !#[trigger] v0.pending_at(col) by {
                if v0.covered(col) {
                    v0.lemma_past(x as int, col);
                }
            }
            v0.lemma_advanced_wf();
            if should_step {
                assert(self@ =~= v0.advanced());
            } else {
                assert(self@ =~= v0);
            }
        }
        done
    }
}

/// The time of the last step plays no part in the validity of a wipe.
proof fn lemma_clock_keeps_wf(v: WipeView, now: Instant)
    requires
        v.wf(),
    ensures
        (WipeView { last_step: now, ..v }).wf(),
{
    let next = WipeView { last_step: now, ..v };
    assert forall|col: int| #[trigger] next.covered(col) implies v.covered(col) by {}
}

impl WipeView {
    /// The wipe `n` steps on.
    pub open spec fn after_steps(self, n: nat) -> WipeView
        decreases n,
    {
        if n == 0 {
            self
        } else {
            self.after_steps((n - 1) as nat).advanced()
        }
    }
}

/// A step moves every unfinished block down, never past the bottom, and leaves
/// every finished one where it is. Blocks of a screen of fewer than two hundred
/// rows do not move ([`law_low_wipe_stands_still`]).
pub proof fn law_step_moves_down(v: WipeView, col: int)
    requires
        v.wf(),
        v.covered(col),
        v.height >= 200 || !v.pending_at(col),
    ensures
        v.pending_at(col) ==> v.offset(col) < v.advanced().offset(col) <= v.height,
        !v.pending_at(col) ==> v.advanced().offset(col) == v.offset(col),
{
    v.lemma_lead(col);
    v.lemma_advanced_wf();
    let x = v.lead(col);
    assert(v.covered(x));
    assert(v.advanced().covered(x));
    assert(v.advanced().y[x] == v.stepped(x));
}

/// On a screen of fewer than two hundred rows a step moves nothing.
pub proof fn law_low_wipe_stands_still(v: WipeView)
    requires
        v.wf(),
        v.height < 200,
    ensures
        v.advanced() == v,
{
    assert forall|col: int| 0 <= col < v.y.len() implies v.stepped(col) == v.y[col] by {
        if v.pending_at(col) {
            v.lemma_lead(col);
            assert(v.stepping() / 2 == 0);
        }
    }
    assert(v.advanced() =~= v);
}

/// Stepping keeps the frame, the size and the validity of a wipe.
proof fn lemma_after_steps(v: WipeView, n: nat)
    requires
        v.wf(),
        v.height >= 100,
    ensures
        v.after_steps(n).wf(),
        v.after_steps(n).width == v.width,
        v.after_steps(n).height == v.height,
        v.after_steps(n).snapshot == v.snapshot,
    decreases n,
{
    if n > 0 {
        lemma_after_steps(v, (n - 1) as nat);
        v.after_steps((n - 1) as nat).lemma_advanced_wf();
    }
}

/// After `n` steps a block has come down `n` rows or is at the bottom.
proof fn lemma_steps_come_down(v: WipeView, n: nat, col: int)
    requires
        v.wf(),
        v.height >= 200,
        v.covered(col),
    ensures
        v.after_steps(n).offset(col) >= v.offset(col) + n || v.after_steps(n).offset(col)
            == v.height,
    decreases n,
{
    if n > 0 {
        let m = (n - 1) as nat;
        lemma_steps_come_down(v, m, col);
        lemma_after_steps(v, m);
        assert(v.after_steps(m).covered(col));
        law_step_moves_down(v.after_steps(m), col);
    }
}

/// Every wipe comes to its end: once it has taken as many steps as the screen has
/// rows, and fifteen more for the columns that started late, nothing of the old
/// frame is left. An unfinished wipe on a screen of fewer than two hundred rows
/// does not end ([`law_low_wipe_stands_still`]).
pub proof fn law_melt_completes(v: WipeView, n: nat)
    requires
        v.wf(),
        v.height >= 200 || !v.pending(),
        n >= v.height + 15,
    ensures
        !v.after_steps(n).pending(),
{
    if !v.pending() {
        lemma_finished_stays(v, n);
    } else {
        lemma_after_steps(v, n);
        let end = v.after_steps(n);
        assert forall|col: int| !#[trigger] end.pending_at(col) by {
            if end.covered(col) {
                assert(v.covered(col));
                v.lemma_lead(col);
                assert(v.y[v.lead(col)] >= -15);
                lemma_steps_come_down(v, n, col);
            }
        }
    }
}

impl WipeView {
    /// The offset of a block one step after it was `y`.
    pub open spec fn next_offset(self, y: int) -> int {
        if y >= self.height {
            y
        } else if y >= 0 {
            y + self.fall(y)
        } else {
            y + self.stepping() / 2
        }
    }

    /// The offset of a block `n` steps after it was `y`.
    pub open spec fn offset_after(self, y: int, n: nat) -> int
        decreases n,
    {
        if n == 0 {
            y
        } else {
            self.next_offset(self.offset_after(y, (n - 1) as nat))
        }
    }

    /// The steps after which a wipe of two or four hundred rows is complete, even
    /// if a column started as late as it can.
    pub open spec fn longest_melt(self) -> nat {
        if self.height == 200 {
            41
        } else {
            34
        }
    }
}

/// The steps that a column needs from the top of the screen to its bottom, at two
/// and at four hundred rows.
pub open spec fn fall_steps() -> nat {
    26
}

/// A block moves by its own offset alone.
proof fn lemma_offset_after(v: WipeView, col: int, n: nat)
    requires
        v.wf(),
        v.covered(col),
    ensures
        v.after_steps(n).offset(col) == v.offset_after(v.offset(col), n),
    decreases n,
{
    if n > 0 {
        let m = (n - 1) as nat;
        lemma_offset_after(v, col, m);
        lemma_after_steps(v, m);
        let before = v.after_steps(m);
        before.lemma_lead(col);
        before.lemma_advanced_wf();
        let x = before.lead(col);
        assert(before.covered(x));
        assert(before.advanced().y[x] == before.stepped(x));
    }
}

/// Steps add up.
proof fn lemma_steps_add_up(v: WipeView, y: int, a: nat, b: nat)
    ensures
        v.offset_after(y, a + b) == v.offset_after(v.offset_after(y, a), b),
    decreases b,
{
    if b > 0 {
        lemma_steps_add_up(v, y, a, (b - 1) as nat);
    }
}

/// A block falls from the top of the screen in [`fall_steps`], and so does one
/// that comes in a row further down where steps are two rows wide.
proof fn lemma_fall(v: WipeView, y: int, n: nat)
    requires
        v.height == 200 && y == 0 || v.height == 400 && 0 <= y <= 1,
    ensures
        n < fall_steps() ==> 0 <= v.offset_after(y, n) < v.height,
        n >= fall_steps() ==> v.offset_after(y, n) == v.height,
    decreases n,
{
    reveal_with_fuel(WipeView::offset_after, 5);
    if 4 <= n {
        let m = (n - 1) as nat;
        lemma_fall(v, y, m);
        lemma_even_fall(v, y, m);
    }
}

/// From the fourth step on a block falls evenly.
proof fn lemma_even_fall(v: WipeView, y: int, n: nat)
    requires
        v.height == 200 && y == 0 || v.height == 400 && 0 <= y <= 1,
    ensures
        v.height == 200 && 4 <= n < fall_steps() ==> v.offset_after(y, n) == 30 + 8 * (n - 4),
        v.height == 400 && y == 0 && 4 <= n < fall_steps() ==> v.offset_after(y, n) == 60 + 16 * (n
            - 4),
        v.height == 400 && y == 1 && 4 <= n < fall_steps() ==> v.offset_after(y, n) == 52 + 16 * (n
            - 4),
    decreases n,
{
    reveal_with_fuel(WipeView::offset_after, 5);
    if 4 < n {
        lemma_even_fall(v, y, (n - 1) as nat);
    }
}

/// How many steps a block waits that starts at `y`, and where it comes in.
proof fn lemma_wait(v: WipeView, y: int) -> (waits: nat)
    requires
        v.height == 200 || v.height == 400,
        -15 <= y <= 0,
    ensures
        v.offset_after(y, waits) == 0 || v.height == 400 && v.offset_after(y, waits) == 1,
        waits == (if v.height == 200 {
            -y
        } else {
            (1 - y) / 2
        }),
        forall|n: nat| n < waits ==> #[trigger] v.offset_after(y, n) < 0,
    decreases -y,
{
    if y == 0 {
        0
    } else {
        let up = v.next_offset(y);
        assert(v.offset_after(y, 0) == y);
        assert(v.offset_after(y, 1) == up);
        if up >= 0 {
            1
        } else {
            let rest = lemma_wait(v, up);
            lemma_steps_add_up(v, y, 1, rest);
            assert forall|n: nat| n < rest + 1 implies #[trigger] v.offset_after(y, n) < 0 by {
                if n > 0 {
                    lemma_steps_add_up(v, y, 1, (n - 1) as nat);
                }
            }
            rest + 1
        }
    }
}

/// A block that starts in the strip above the screen is at the bottom after
/// [`WipeView::longest_melt`], and not before [`fall_steps`].
proof fn lemma_block_melts(v: WipeView, y: int, n: nat)
    requires
        v.height == 200 || v.height == 400,
        -15 <= y <= 0,
    ensures
        n >= v.longest_melt() ==> v.offset_after(y, n) == v.height,
        n < fall_steps() ==> v.offset_after(y, n) < v.height,
{
    let waits = lemma_wait(v, y);
    if n >= waits {
        let rest = (n - waits) as nat;
        lemma_steps_add_up(v, y, waits, rest);
        lemma_fall(v, v.offset_after(y, waits), rest);
    }
}

/// A wipe of two hundred rows that starts from draws that are not negative is
/// complete after forty-one steps, one of four hundred after thirty-four, and
/// neither before twenty-six. The screen must be wide enough to have a column
/// that melts.
pub proof fn law_melt_takes_its_time(v: WipeView, draws: Seq<i32>, n: nat)
    requires
        v.wf(),
        v.height == 200 || v.height == 400,
        v.stepping() < v.width <= draws.len(),
        v.y == offsets(draws, v.width),
        forall|j: int| 0 <= j < draws.len() ==> #[trigger] draws[j] >= 0,
    ensures
        n >= v.longest_melt() ==> !v.after_steps(n).pending(),
        n < fall_steps() ==> v.after_steps(n).pending(),
{
    lemma_after_steps(v, n);
    let end = v.after_steps(n);
    assert forall|col: int| #[trigger] end.covered(col) implies (n >= v.longest_melt()
        ==> !end.pending_at(col)) && (n < fall_steps() ==> end.pending_at(col)) by {
        assert(v.covered(col));
        v.lemma_lead(col);
        law_offsets_are_jagged(draws, v.width, v.lead(col));
        lemma_offset_after(v, col, n);
        lemma_block_melts(v, v.offset(col), n);
    }
    assert(end.covered(0));
    assert(n < fall_steps() ==> end.pending_at(0));
}

/// A finished wipe is the same after any number of steps.
proof fn lemma_finished_stays(v: WipeView, n: nat)
    requires
        v.wf(),
        !v.pending(),
    ensures
        v.after_steps(n) == v,
    decreases n,
{
    if n > 0 {
        lemma_finished_stays(v, (n - 1) as nat);
        law_finished_wipe_rests(v, Seq::empty(), 1);
    }
}

/// A finished wipe stays as it is, and draws nothing.
pub proof fn law_finished_wipe_rests(v: WipeView, buf: Seq<u32>, pitch: int)
    requires
        v.wf(),
        !v.pending(),
    ensures
        v.advanced() == v,
        v.painted(buf, pitch) == buf,
{
    assert forall|col: int| 0 <= col < v.y.len() implies v.stepped(col) == v.y[col] by {
        assert(!v.pending_at(col));
    }
    assert(v.advanced() =~= v);
    assert forall|p: int| 0 <= p < buf.len() implies v.painted(buf, pitch)[p] == buf[p] by {
        assert(!v.pending_at(p % pitch));
    }
    assert(v.painted(buf, pitch) =~= buf);
}

/// Until a block starts to melt, the old frame stands in its columns unmoved,
/// whatever the new frame holds there.
pub proof fn law_waiting_column_shows_old_frame(
    v: WipeView,
    buf: Seq<u32>,
    pitch: int,
    row: int,
    col: int,
)
    requires
        v.wf(),
        v.covered(col),
        v.offset(col) <= 0,
        0 <= row < v.height,
        holds_frame(buf.len() as int, pitch, v.width, v.height),
    ensures
        v.painted(buf, pitch)[row * pitch + col] == v.snapshot[row * v.width + col],
{
    v.lemma_lead(col);
    lemma_cell_at(row, col, pitch);
    lemma_cell_inside(row, col, v.height, v.width, pitch);
}

/// Above the offset of a column the new frame shows, and below it the old one,
/// moved down by that offset.
pub proof fn law_melting_column_splits(
    v: WipeView,
    buf: Seq<u32>,
    pitch: int,
    row: int,
    col: int,
)
    requires
        v.wf(),
        v.covered(col),
        0 <= v.offset(col) < v.height,
        0 <= row < v.height,
        holds_frame(buf.len() as int, pitch, v.width, v.height),
    ensures
        row < v.offset(col) ==> v.painted(buf, pitch)[row * pitch + col] == buf[row * pitch + col],
        row >= v.offset(col) ==> v.painted(buf, pitch)[row * pitch + col] == v.snapshot[(row
            - v.offset(col)) * v.width + col],
{
    v.lemma_lead(col);
    lemma_cell_at(row, col, pitch);
    lemma_cell_inside(row, col, v.height, v.width, pitch);
}

/// Until a step is due a redraw leaves the wipe as it is, the time of its last
/// step included, so a second one gives the same result and the same pixels.
pub proof fn law_redraw_waits_for_step(v: WipeView, elapsed: u128, now: Instant)
    requires
        elapsed < 16,
    ensures
        v.after(elapsed, now) == v,
{
}

/// A redraw when a step is due takes it and starts the wait for the next one.
pub proof fn law_due_step_is_taken(v: WipeView, elapsed: u128, now: Instant)
    requires
        elapsed >= 16,
    ensures
        v.after(elapsed, now).last_step == now,
        v.after(elapsed, now).y == v.advanced().y,
        v.after(elapsed, now).snapshot == v.snapshot,
        v.after(elapsed, now).width == v.width,
        v.after(elapsed, now).height == v.height,
{
}

/// Drawing the old frame a second time, without a step between, changes nothing.
pub proof fn law_redraw_changes_nothing(v: WipeView, buf: Seq<u32>, pitch: int)
    ensures
        v.painted(v.painted(buf, pitch), pitch) == v.painted(buf, pitch),
{
    assert(v.painted(v.painted(buf, pitch), pitch) =~= v.painted(buf, pitch));
}

/// Whether a `0xAARRGGBB` colour is fully opaque.
pub open spec fn opaque(colour: u32) -> bool {
    colour >= 0xFF00_0000
}

/// A wipe keeps an opaque surface opaque as long as its old frame is, so pixels
/// that were not captured since the start melt opaque too.
pub proof fn law_opaque_surface_stays_opaque(v: WipeView, buf: Seq<u32>, pitch: int, p: int)
    requires
        v.wf(),
        v.drawable(),
        v.width <= pitch,
        0 <= p < buf.len(),
        opaque(buf[p]),
        forall|i: int| 0 <= i < v.snapshot.len() ==> opaque(#[trigger] v.snapshot[i]),
    ensures
        opaque(v.painted(buf, pitch)[p]),
{
    let row = p / pitch;
    let col = p % pitch;
    let shift = larger(v.offset(col), 0);
    if v.pending_at(col) && shift <= row < v.height {
        assert(v.pending());
        v.lemma_lead(col);
        lemma_cell_inside(row - shift, col, v.height, v.width, v.width);
        assert((v.height - 1) * v.width + v.width == v.width * v.height) by (nonlinear_arith);
    }
}

/// With draws that are not negative every column starts at most fifteen rows
/// above the screen and not on it, and at most one row from its neighbour.
pub proof fn law_offsets_are_jagged(draws: Seq<i32>, width: int, i: int)
    requires
        0 <= i < larger(width, 1) <= draws.len(),
        forall|j: int| 0 <= j < draws.len() ==> #[trigger] draws[j] >= 0,
    ensures
        -15 <= offsets(draws, width)[i] <= 0,
        i > 0 ==> -1 <= offsets(draws, width)[i] - offsets(draws, width)[i - 1] <= 1,
    decreases i,
{
    assert(draws[0] >= 0);
    assert(draws[i] >= 0);
    if i > 0 {
        law_offsets_are_jagged(draws, width, i - 1);
        lemma_jagged_range(draws, i - 1);
    }
    lemma_jagged_range(draws, i);
}

/// Drawing into the old frame keeps a wipe valid, and does not move it.
pub proof fn law_drawing_keeps_wipe_valid(v: WipeView, snapshot: Seq<u32>)
    requires
        v.wf(),
        snapshot.len() == v.snapshot.len(),
    ensures
        (WipeView { snapshot, ..v }).wf(),
        (WipeView { snapshot, ..v }).pending() == v.pending(),
{
    let drawn = WipeView { snapshot, ..v };
    assert forall|col: int| #[trigger] drawn.covered(col) implies v.covered(col) by {}
    assert forall|col: int| #[trigger] drawn.pending_at(col) == v.pending_at(col) by {}
    if v.pending() {
        let col = choose|col: int| #[trigger] v.pending_at(col);
        assert(drawn.pending_at(col));
    }
}

/// The old frame is drawn in every column whose block, `height / 100` columns
/// wide, ends before the last column of the screen: in full while the block
/// waits, moved down by the block's offset while it melts, and not at all once it
/// is at the bottom.
pub proof fn law_melt_draws_every_block(
    v: WipeView,
    buf: Seq<u32>,
    pitch: int,
    row: int,
    col: int,
)
    requires
        v.height >= 100,
        v.width <= pitch,
        (v.height - 1) * pitch + v.width <= buf.len(),
        0 <= row < v.height,
        0 <= col,
        col - col % (v.height / 100) + v.height / 100 < v.width,
    ensures
        ({
            let y = v.y[col - col % (v.height / 100)];
            let drawn = v.painted(buf, pitch)[row * pitch + col];
            &&& y < 0 ==> drawn == v.snapshot[row * v.width + col]
            &&& 0 <= y < v.height && row >= y ==> drawn == v.snapshot[(row - y) * v.width + col]
            &&& 0 <= y < v.height && row < y ==> drawn == buf[row * pitch + col]
            &&& y >= v.height ==> drawn == buf[row * pitch + col]
        }),
{
    v.lemma_lead(col);
    lemma_cell_at(row, col, pitch);
    lemma_cell_inside(row, col, v.height, v.width, pitch);
}

/// The old frame is drawn nowhere else: not in a column whose block does not end
/// before the last column of the screen, nor beside or below the frame.
pub proof fn law_melt_draws_nothing_else(v: WipeView, buf: Seq<u32>, pitch: int, p: int)
    requires
        v.height >= 100,
        0 < pitch,
        0 <= p < buf.len(),
        p / pitch >= v.height || p % pitch - (p % pitch) % (v.height / 100) + v.height / 100
            >= v.width,
    ensures
        v.painted(buf, pitch).len() == buf.len(),
        v.painted(buf, pitch)[p] == buf[p],
{
    lemma_cell(p, pitch);
}

/// A melt is complete exactly when every block that ends before the last column
/// of the screen is at the bottom.
pub proof fn law_melt_is_done_when_every_block_is_down(v: WipeView)
    requires
        v.height >= 100,
    ensures
        !v.pending() <==> forall|x: int|
            0 <= x && x % (v.height / 100) == 0 && x + v.height / 100 < v.width
                ==> #[trigger] v.y[x] >= v.height,
{
    let s = v.height / 100;
    assert forall|x: int| 0 <= x && x % s == 0 && x + s < v.width implies (v.pending_at(x) <==> #[trigger] v.y[x]
        < v.height) by {}
    if v.pending() {
        let col = choose|col: int| #[trigger] v.pending_at(col);
        v.lemma_lead(col);
        let x = v.lead(col);
        assert(v.y[x] < v.height);
        assert(0 <= x && x % s == 0 && x + s < v.width);
    } else {
        assert forall|x: int| 0 <= x && x % s == 0 && x + s < v.width implies #[trigger] v.y[x]
            >= v.height by {
            assert(!v.pending_at(x));
        }
    }
}

/// One step moves the block that starts at column `x`. While it waits, only its
/// first column moves, by half a block's width. Then all its columns fall
/// together: by its offset and a block's width near the top, by eight rows for
/// every two hundred of the screen further down, and never past the bottom. At
/// the bottom it rests.
pub proof fn law_step_moves_block(v: WipeView, x: int, col: int)
    requires
        v.wf(),
        v.height >= 100,
        0 <= x,
        x % (v.height / 100) == 0,
        x + v.height / 100 < v.width,
        x <= col < x + v.height / 100,
    ensures
        ({
            let y = v.y[x];
            let next = v.advanced().y[col];
            let f = v.height / 200;
            &&& y < 0 && col == x ==> next == y + v.height / 100 / 2
            &&& y < 0 && col != x ==> next == v.y[col]
            &&& 0 <= y < v.height && y < 16 * f && y + y + v.height / 100 < v.height ==> next
                == v.y[col] + y + v.height / 100
            &&& 0 <= y < v.height && y < 16 * f && y + y + v.height / 100 >= v.height ==> next
                == v.y[col] + v.height - y
            &&& 0 <= y < v.height && y >= 16 * f && y + 8 * f < v.height ==> next == v.y[col] + 8
                * f
            &&& 0 <= y < v.height && y >= 16 * f && y + 8 * f >= v.height ==> next == v.y[col]
                + v.height - y
            &&& y >= v.height ==> next == v.y[col]
        }),
{
    v.lemma_block(x);
    v.lemma_advanced_wf();
    assert(v.lead(col) == x);
    assert(v.covered(col));
    assert(v.advanced().y[col] == v.stepped(col));
}

/// A step moves no column of a block that does not end before the last column of
/// the screen, and changes nothing but the offsets.
pub proof fn law_step_moves_nothing_else(v: WipeView, col: int)
    requires
        v.wf(),
        v.height >= 100,
        0 <= col < v.y.len(),
        col - col % (v.height / 100) + v.height / 100 >= v.width,
    ensures
        v.advanced().y[col] == v.y[col],
        v.advanced().y.len() == v.y.len(),
        v.advanced().width == v.width,
        v.advanced().height == v.height,
        v.advanced().snapshot == v.snapshot,
        v.advanced().last_step == v.last_step,
{
    v.lemma_advanced_wf();
    assert(v.advanced().y[col] == v.stepped(col));
}

/// Every column has a starting offset: the first is its draw's remainder by
/// sixteen above the screen, and each next one goes from its neighbour by the
/// remainder of its own draw by three, less one, but not onto the screen nor to
/// sixteen rows above it.
pub proof fn law_offsets_follow_draws(draws: Seq<i32>, width: int, i: int)
    requires
        0 <= i,
        i < width || i == 0,
    ensures
        offsets(draws, width).len() == (if width >= 1 {
            width
        } else {
            1
        }),
        i == 0 ==> offsets(draws, width)[0] == (if draws[0] >= 0 {
            -(draws[0] as int % 16)
        } else {
            (-(draws[0] as int)) % 16
        }),
        i > 0 ==> ({
            let next = offsets(draws, width)[i - 1] + (if draws[i] >= 0 {
                draws[i] as int % 3
            } else {
                -((-(draws[i] as int)) % 3)
            }) - 1;
            &&& next > 0 ==> offsets(draws, width)[i] == 0
            &&& -16 < next <= 0 ==> offsets(draws, width)[i] == next
            &&& next <= -16 ==> offsets(draws, width)[i] == -15
        }),
{
    lemma_jagged_range(draws, i);
    if i > 0 {
        lemma_jagged_range(draws, i - 1);
    }
}

/// A wipe begins with an old frame of `width` by `height` pixels of opaque black,
/// and its columns stay where they are.
pub proof fn law_wipe_starts_black(v: WipeView, now: Instant, i: int)
    requires
        0 <= v.width * v.height,
    ensures
        v.started(now).snapshot.len() == v.width * v.height,
        0 <= i < v.width * v.height ==> v.started(now).snapshot[i] == 0xFF00_0000,
        v.started(now).y == v.y,
        v.started(now).width == v.width,
        v.started(now).height == v.height,
        v.started(now).last_step == now,
{
}

/// A surface whose rows are as wide as the frame or wider, and which reaches to
/// the end of the frame's last row, holds the frame.
pub proof fn law_padded_surface_holds_frame(len: int, pitch: int, width: int, height: int)
    requires
        0 < width <= pitch,
        0 < height,
    ensures
        holds_frame(len, pitch, width, height) <==> (height - 1) * pitch + width <= len,
{
}

/// A wipe with a whole old frame can be drawn on any screen a hundred rows high or
/// more that is at least one block wide.
pub proof fn law_whole_old_frame_is_drawable(v: WipeView)
    requires
        v.height >= 100,
        v.height / 100 <= v.width,
        v.snapshot.len() == v.width * v.height,
    ensures
        v.drawable(),
{
}

} // verus!
