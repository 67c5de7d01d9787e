//! Per-pixel scanout effects, and the health bleed.

use crate::num::{bounded, larger};
use crate::shape::{
    all_stand, build_column_targets, column_targets, law_targets_fit_screen, tellable,
    BleedMetrics, Spike, BLEED_NOISE_STEP, BLEED_SPIKE,
};
use vstd::prelude::*;

verus! {

/// First PLAYPAL red palette, the lightest; `COUNT` bands run from it to dark.
pub const BLEED_PAL_START: usize = 1;

pub const BLEED_PAL_COUNT: usize = 3;

/// Boundaries between the bands of a column, one fewer than the bands.
pub const BLEED_BOUNDS: usize = BLEED_PAL_COUNT - 1;

/// Per-pixel scanout effect selecting which PLAYPAL palette resolves a pixel:
/// `out[i] = palettes_flat[palette_offset(x, y) * 256 + idx[i]]`. 0 = base.
pub trait ScreenEffect {
    /// Whether the effect knows column `x`.
    spec fn covers(&self, x: int) -> bool;

    /// The palette of the pixel at `(x, y)` where `use_palette` is the frame's.
    spec fn palette_at(&self, x: int, y: int, use_palette: int) -> int;

    /// Whether the effect changes anything.
    spec fn active(&self) -> bool;

    fn palette_offset(&self, x: usize, y: u16, use_palette: usize) -> (palette: usize)
        requires
            self.covers(x as int),
        ensures
            palette == self.palette_at(x as int, y as int, use_palette as int),
    ;

    fn is_active(&self) -> (active: bool)
        default_ensures
            active,
    {
        true
    }
}

/// The deepest that one palette band can be on a screen `height` rows high: a
/// fiftieth of it, at least one row. On screens too high for their rows to be
/// told in 16 bits the depth is rounded, and only its type bounds it.
pub open spec fn deepest_band(height: int) -> int {
    if height <= u16::MAX {
        larger(height / 50, 1)
    } else {
        i32::MAX as int
    }
}

/// What a bleed takes its pattern from, for a screen of one size.
pub struct BleedProfile {
    /// Per-column max length, px (the full jagged shape: baseline + peaks).
    pub target: Vec<u16>,
    /// Per-column noise in `0..band_px`, which shifts the palette boundaries.
    pub band_noise: Vec<i32>,
    /// Depth of one palette band, px.
    pub band_px: i32,
}

impl BleedProfile {
    /// Whether the profile is one for a screen of `width` by `height`: no column
    /// is longer than the screen, a band is no deeper than [`deepest_band`], and
    /// the noise stays within one band.
    pub open spec fn fits(self, width: int, height: int) -> bool {
        &&& self.target@.len() == width
        &&& self.band_noise@.len() == width
        &&& 1 <= self.band_px <= deepest_band(height)
        &&& forall|x: int| 0 <= x < width ==> #[trigger] self.target@[x] <= height
        &&& forall|x: int|
            0 <= x < width ==> 0 <= #[trigger] self.band_noise@[x] < self.band_px
    }

    /// The profile of a screen with these metrics: the peaks set on the baseline,
    /// and the band offsets of `band_noise`. It fits every screen that has room
    /// for the tallest peak and for the bands.
    pub fn new(
        metrics: &BleedMetrics,
        baseline: Vec<i32>,
        humps: &[i32],
        peaks: &[Spike],
        edge: [i32; BLEED_SPIKE],
        band_noise: Vec<i32>,
    ) -> (profile: Self)
        requires
            metrics.wf(),
            1 <= metrics.band_px,
            humps@.len() > BLEED_NOISE_STEP,
            all_stand(metrics.base_len as int, baseline@.len() as int, peaks@),
            tellable(metrics.base_len as int, edge),
            band_noise@.len() == baseline@.len(),
            forall|x: int|
                0 <= x < band_noise@.len() ==> 0 <= #[trigger] band_noise@[x] < metrics.band_px,
        ensures
            forall|height: int|
                (height >= metrics.max_len || height >= u16::MAX) && deepest_band(height)
                    >= metrics.band_px ==> #[trigger] profile.fits(baseline@.len() as int, height),
            profile.target@ == column_targets(*metrics, baseline@, humps@, peaks@, edge),
            profile.band_noise == band_noise,
            profile.band_px == metrics.band_px,
    {
        proof {
            assert forall|x: int| 0 <= x < baseline@.len() implies column_targets(
                *metrics,
                baseline@,
                humps@,
                peaks@,
                edge,
            )[x] <= metrics.max_len by {
                law_targets_fit_screen(*metrics, baseline@, humps@, peaks@, edge, x);
            }
        }
        Self {
            target: build_column_targets(metrics, baseline, humps, peaks, edge),
            band_noise,
            band_px: metrics.band_px,
        }
    }
}

/// The length of a column at `health`: the lower the health, the longer.
pub open spec fn shown_at(target: u16, health: int) -> int {
    target * (100 - health) / 100
}

/// Depth of one band: fixed for short columns, stretched for tall peaks so the
/// gradient spans the whole column.
pub open spec fn band_depth(shown: int, band_px: int) -> int {
    larger(band_px, shown / BLEED_PAL_COUNT as int)
}

/// How far above the tip of a column band `b` ends.
pub open spec fn band_end(b: int, shown: int, band_px: int, off: int) -> int {
    bounded((b + 1) * band_depth(shown, band_px) + off, 0, u16::MAX as int)
}

/// The ends of all bands of a column but the last, which runs to the top.
pub open spec fn band_ends(shown: int, band_px: int, off: int) -> Seq<u16> {
    Seq::new(BLEED_BOUNDS as nat, |b: int| band_end(b, shown, band_px, off) as u16)
}

/// The band of a pixel `from_edge` rows above the tip.
pub open spec fn band_of(ends: Seq<u16>, from_edge: int) -> int {
    if from_edge < ends[0] {
        0
    } else if from_edge < ends[1] {
        1
    } else {
        2
    }
}

/// What a bleed is.
#[verifier::ext_equal]
pub struct BleedView {
    /// Per-column max length, px; empty when a new pattern is due.
    pub target: Seq<u16>,
    /// Per-column current length, px, for the active health.
    pub shown: Seq<u16>,
    /// Per-column thresholds above the tip where each band ends.
    pub ends: Seq<Seq<u16>>,
    /// Per-column shift of the palette boundaries.
    pub band_off: Seq<i32>,
    /// Depth of one palette band, px.
    pub band_px: int,
    /// Health that `shown` and `ends` were computed for.
    pub last_health: int,
    pub width: int,
    pub height: int,
    pub active: bool,
}

impl BleedView {
    /// Whether a new pattern is due before a screen of this size is drawn.
    pub open spec fn stale(self, width: int, height: int) -> bool {
        self.target.len() == 0 || width != self.width || height != self.height
    }

    /// The bleed with the pattern of `profile`, not yet grown.
    pub open spec fn rebuilt(self, width: int, height: int, profile: BleedProfile) -> BleedView {
        BleedView {
            target: profile.target@,
            shown: Seq::new(width as nat, |x: int| 0u16),
            ends: Seq::new(width as nat, |x: int| Seq::new(BLEED_BOUNDS as nat, |b: int| 0u16)),
            band_off: Seq::new(
                width as nat,
                |x: int| (profile.band_noise@[x] - profile.band_px / 2) as i32,
            ),
            band_px: profile.band_px as int,
            width,
            height,
            ..self
        }
    }

    /// The bleed grown to what `health` asks.
    pub open spec fn grown(self, health: int) -> BleedView {
        if health == self.last_health {
            self
        } else if health >= 100 {
            BleedView {
                last_health: health,
                active: false,
                shown: Seq::new(self.shown.len(), |x: int| 0u16),
                ..self
            }
        } else {
            BleedView {
                last_health: health,
                active: true,
                shown: Seq::new(
                    self.shown.len(),
                    |x: int| shown_at(self.target[x], health) as u16,
                ),
                ends: Seq::new(
                    self.ends.len(),
                    |x: int|
                        band_ends(
                            shown_at(self.target[x], health),
                            self.band_px,
                            self.band_off[x] as int,
                        ),
                ),
                ..self
            }
        }
    }

    /// The bleed after an update: with the pattern of `fresh` if one is due, and
    /// grown to the health.
    pub open spec fn updated(
        self,
        health: int,
        width: int,
        height: int,
        fresh: Option<BleedProfile>,
    ) -> BleedView {
        let base = if self.stale(width, height) {
            BleedView { last_health: -1, ..self.rebuilt(width, height, fresh->0) }
        } else {
            self
        };
        base.grown(bounded(health, 0, 100))
    }

    /// Whether the columns are those of `health`.
    pub open spec fn reflects(self, health: int) -> bool {
        &&& self.last_health == health
        &&& self.active == (health < 100)
        &&& forall|x: int|
            0 <= x < self.width ==> #[trigger] self.shown[x] == (if health < 100 {
                shown_at(self.target[x], health)
            } else {
                0
            })
        &&& health < 100 ==> forall|x: int|
            0 <= x < self.width ==> #[trigger] self.ends[x] == band_ends(
                self.shown[x] as int,
                self.band_px,
                self.band_off[x] as int,
            )
    }

    /// What every bleed keeps.
    pub open spec fn wf(self) -> bool {
        &&& 0 <= self.width <= usize::MAX
        &&& 1 <= self.band_px <= deepest_band(self.height)
        &&& self.target.len() == self.width || self.target.len() == 0
        &&& self.shown.len() == self.width
        &&& self.ends.len() == self.width
        &&& self.band_off.len() == self.width
        &&& forall|x: int|
            0 <= x < self.width ==> (#[trigger] self.ends[x]).len() == BLEED_BOUNDS
                && self.ends[x][0] <= self.ends[x][1]
        &&& forall|x: int|
            0 <= x < self.width ==> 0 <= #[trigger] self.band_off[x] + self.band_px / 2
                < self.band_px
        &&& forall|x: int| 0 <= x < self.target.len() ==> #[trigger] self.target[x] <= self.height
        &&& forall|x: int| 0 <= x < self.width ==> #[trigger] self.shown[x] <= self.height
        &&& !self.active ==> forall|x: int| 0 <= x < self.width ==> #[trigger] self.shown[x] == 0
        &&& self.active ==> forall|x: int|
            0 <= x < self.width ==> #[trigger] self.ends[x] == band_ends(
                self.shown[x] as int,
                self.band_px,
                self.band_off[x] as int,
            )
        &&& self.target.len() != 0 ==> 0 <= self.last_health <= 100 && self.reflects(
            self.last_health,
        )
    }

    /// Whether the pixel at `(x, y)` is tinted.
    pub open spec fn lit(self, x: int, y: int) -> bool {
        y < self.shown[x]
    }

    /// The palette of the pixel at `(x, y)`.
    pub open spec fn palette_at(self, x: int, y: int, use_palette: int) -> int {
        if self.lit(x, y) {
            BLEED_PAL_START + band_of(self.ends[x], self.shown[x] - 1 - y)
        } else {
            use_palette
        }
    }
}

/// Health bleed: jagged red columns hang from the top of the screen, grown to
/// `target[x] * (100 - health) / 100` and banded top-darkest to bottom-lightest.
/// `target`/`band_off` are built once per size; only what is shown of them is
/// recomputed when health changes.
pub struct HealthBleed {
    target: Vec<u16>,
    shown: Vec<u16>,
    bound: Vec<[u16; BLEED_BOUNDS]>,
    band_off: Vec<i32>,
    band_px: i32,
    last_health: i32,
    width: usize,
    height: usize,
    active: bool,
}

impl View for HealthBleed {
    type V = BleedView;

    closed spec fn view(&self) -> BleedView {
        BleedView {
            target: self.target@,
            shown: self.shown@,
            ends: self.bound@.map_values(|b: [u16; BLEED_BOUNDS]| b@),
            band_off: self.band_off@,
            band_px: self.band_px as int,
            last_health: self.last_health as int,
            width: self.width as int,
            height: self.height as int,
            active: self.active,
        }
    }
}

impl Default for HealthBleed {
    fn default() -> (bleed: Self)
        ensures
            bleed@ == (BleedView {
                target: Seq::empty(),
                shown: Seq::empty(),
                ends: Seq::empty(),
                band_off: Seq::empty(),
                band_px: 1,
                last_health: 100,
                width: 0,
                height: 0,
                active: false,
            }),
            bleed@.wf(),
    {
        let bleed = Self {
            target: Vec::new(),
            shown: Vec::new(),
            bound: Vec::new(),
            band_off: Vec::new(),
            band_px: 1,
            last_health: 100,
            width: 0,
            height: 0,
            active: false,
        };
        assert(bleed@.ends =~= Seq::empty());
        bleed
    }
}

impl HealthBleed {
    /// Whether the next update for a screen of this size needs a new pattern.
    pub fn needs_profile(&self, width: usize, height: usize) -> (needs: bool)
        ensures
            needs == self@.stale(width as int, height as int),
    {
        self.target.is_empty() || width != self.width || height != self.height
    }

    /// Grows the columns for `health` on a screen of `width` by `height`. Where a
    /// new pattern is due ([`Self::needs_profile`]), it is that of `fresh`.
    pub fn update(
        &mut self,
        health: i32,
        width: usize,
        height: usize,
        fresh: Option<BleedProfile>,
    )
        requires
            old(self)@.wf(),
            old(self)@.stale(width as int, height as int) ==> fresh is Some && fresh->0.fits(
                width as int,
                height as int,
            ),
        ensures
            final(self)@.wf(),
            final(self)@ == old(self)@.updated(health as int, width as int, height as int, fresh),
    {
        let ghost v0 = self@;
        let health: i32 = if health < 0 {
            0
        } else if health > 100 {
            100
        } else {
            health
        };
        if self.needs_profile(width, height) {
            if let Some(profile) = fresh {
                self.rebuild(width, height, profile);
            }
            self.last_health = -1;
        }
        let ghost base = self@;
        proof {
            lemma_grown_wf(base, health as int);
        }
        // Caches only depend on health; skip the recompute when it is unchanged.
        if health == self.last_health {
            return ;
        }
        self.last_health = health;
        self.active = health < 100;
        if !self.active {
            let mut x: usize = 0;
            while x < self.shown.len()
                invariant
                    x <= self.shown@.len() == base.shown.len(),
                    forall|i: int| 0 <= i < x ==> #[trigger] self.shown@[i] == 0,
                    self@ == (BleedView {
                        last_health: health as int,
                        active: false,
                        shown: self.shown@,
                        ..base
                    }),
                decreases self.shown@.len() - x,
            {
                self.shown[x] = 0;
                x += 1;
            }
            assert(self@ =~= base.grown(health as int));
            return ;
        }
        let missing: u32 = (100 - health) as u32;
        let mut x: usize = 0;
        while x < self.width
            invariant
                0 <= health < 100,
                health != base.last_health,
                missing == 100 - health,
                x <= self.width,
                base.target.len() == base.width,
                base.shown.len() == base.width,
                base.ends.len() == base.width,
                base.band_off.len() == base.width,
                self.shown@.len() == base.width,
                self.bound@.len() == base.width,
                0 <= self.band_px,
                self@ == (BleedView {
                    last_health: health as int,
                    active: true,
                    shown: self.shown@,
                    ends: self@.ends,
                    ..base
                }),
                forall|i: int| 0 <= i < x ==> #[trigger] self.shown@[i] == base.grown(health as int).shown[i],
                forall|i: int| 0 <= i < x ==> #[trigger] self@.ends[i] == base.grown(health as int).ends[i],
            decreases self.width - x,
        {
            let t: u16 = self.target[x];
            proof {
                lemma_shown_at(t, health as int);
            }
            let shown: u32 = t as u32 * missing / 100;
            // Band depth: fixed for short columns, stretched for tall peaks so
            // the gradient spans the whole column. Thresholds = band end depths.
            let stretched: i64 = (shown / BLEED_PAL_COUNT as u32) as i64;
            let depth: i64 = if self.band_px as i64 >= stretched {
                self.band_px as i64
            } else {
                stretched
            };
            let off: i64 = self.band_off[x] as i64;
            let mut bounds: [u16; BLEED_BOUNDS] = [0; BLEED_BOUNDS];
            let mut b: usize = 0;
            while b < BLEED_BOUNDS
                invariant
                    b <= BLEED_BOUNDS,
                    0 <= depth <= i32::MAX,
                    i32::MIN <= off <= i32::MAX,
                    forall|j: int| 0 <= j < b ==> #[trigger] bounds@[j] == bounded((j + 1) * depth + off, 0, u16::MAX as int),
                decreases BLEED_BOUNDS - b,
            {
                assert(0 <= (b + 1) * depth <= 2 * i32::MAX) by (nonlinear_arith)
                    requires
                        0 <= b < 2,
                        0 <= depth <= i32::MAX,
                ;
                let end: i64 = (b as i64 + 1) * depth + off;
                bounds[b] = if end < 0 {
                    0
                } else if end > 0xFFFF {
                    0xFFFF
                } else {
                    end as u16
                };
                b += 1;
            }
            let ghost before = self@;
            self.shown[x] = shown as u16;
            self.bound[x] = bounds;
            proof {
                assert(bounds@ =~= band_ends(shown as int, base.band_px, base.band_off[x as int] as int));
                assert(self@.ends =~= before.ends.update(x as int, bounds@));
            }
            x += 1;
        }
        assert(self@ =~= base.grown(health as int));
    }

    /// Regenerate the random column pattern on the next `update` — call on a new
    /// game / level load so each level gets a fresh bleed shape.
    pub fn reset(&mut self)
        requires
            old(self)@.wf(),
        ensures
            final(self)@.wf(),
            final(self)@ == (BleedView { target: Seq::empty(), ..old(self)@ }),
    {
        self.target.clear();
    }

    /// Takes over the pattern of `profile` (cold path: size change or
    /// [`Self::reset`]).
    fn rebuild(&mut self, width: usize, height: usize, profile: BleedProfile)
        requires
            profile.fits(width as int, height as int),
        ensures
            final(self)@ == old(self)@.rebuilt(width as int, height as int, profile),
    {
        let half: i32 = profile.band_px / 2;
        // Per-column boundary jitter, centred on zero (±band_px/2).
        let mut band_off: Vec<i32> = Vec::new();
        let mut x: usize = 0;
        while x < width
            invariant
                x <= width,
                half == profile.band_px / 2,
                profile.fits(width as int, height as int),
                band_off@.len() == x,
                forall|i: int| 0 <= i < x ==> #[trigger] band_off@[i] == profile.band_noise@[i] - half,
            decreases width - x,
        {
            assert(profile.band_noise@[x as int] >= 0);
            band_off.push(profile.band_noise[x] - half);
            x += 1;
        }
        self.target = profile.target;
        self.shown = vec![0u16; width];
        self.bound = vec![[0u16; BLEED_BOUNDS]; width];
        self.band_px = profile.band_px;
        self.band_off = band_off;
        self.width = width;
        self.height = height;
        proof {
            let want = old(self)@.rebuilt(width as int, height as int, profile);
            assert(self@.shown =~= want.shown);
            assert(self@.ends =~~= want.ends);
            assert(self@.band_off =~= want.band_off);
            assert(self@ =~= want);
        }
    }
}

/// A column is never longer than its target.
proof fn lemma_shown_at(target: u16, health: int)
    requires
        0 <= health <= 100,
    ensures
        0 <= shown_at(target, health) <= target,
        0 <= target * (100 - health) <= target * 100,
{
    assert(0 <= target * (100 - health) <= target * 100) by (nonlinear_arith)
        requires
            0 <= 100 - health <= 100,
            0 <= target,
    ;
}

/// The bands of a column end one after the other.
proof fn lemma_band_ends_ordered(shown: int, band_px: int, off: int)
    requires
        0 <= band_px,
    ensures
        band_ends(shown, band_px, off).len() == BLEED_BOUNDS,
        band_ends(shown, band_px, off)[0] <= band_ends(shown, band_px, off)[1],
{
    let depth = band_depth(shown, band_px);
    assert(depth <= 2 * depth);
    assert(band_end(0, shown, band_px, off) == bounded(depth + off, 0, u16::MAX as int));
    assert(band_end(1, shown, band_px, off) == bounded(2 * depth + off, 0, u16::MAX as int));
}

/// A bleed that reflects its health, or has a new pattern, grows into one that
/// reflects its health.
proof fn lemma_grown_wf(v: BleedView, health: int)
    requires
        0 <= health <= 100,
        0 <= v.width <= usize::MAX,
        1 <= v.band_px <= deepest_band(v.height),
        v.target.len() == v.width,
        v.shown.len() == v.width,
        v.ends.len() == v.width,
        v.band_off.len() == v.width,
        forall|x: int|
            0 <= x < v.width ==> (#[trigger] v.ends[x]).len() == BLEED_BOUNDS && v.ends[x][0]
                <= v.ends[x][1],
        forall|x: int| 0 <= x < v.width ==> 0 <= #[trigger] v.band_off[x] + v.band_px / 2 < v.band_px,
        forall|x: int| 0 <= x < v.width ==> #[trigger] v.target[x] <= v.height,
        v.wf() || v.last_health == -1,
    ensures
        v.grown(health).wf(),
        v.target.len() != 0 ==> v.grown(health).reflects(health),
{
    let next = v.grown(health);
    assert forall|x: int| 0 <= x < v.width implies #[trigger] next.shown[x] <= v.height by {
        lemma_shown_at(v.target[x], health);
    }
    if health != v.last_health && health < 100 {
        assert forall|x: int| 0 <= x < v.width implies #[trigger] next.shown[x] == shown_at(
            v.target[x],
            health,
        ) by {
            lemma_shown_at(v.target[x], health);
        }
        assert forall|x: int| 0 <= x < v.width implies #[trigger] next.ends[x] == band_ends(
            next.shown[x] as int,
            v.band_px,
            v.band_off[x] as int,
        ) by {
            assert(next.shown[x] == shown_at(v.target[x], health));
        }
        assert forall|x: int| 0 <= x < v.width implies (#[trigger] next.ends[x]).len()
            == BLEED_BOUNDS && next.ends[x][0] <= next.ends[x][1] by {
            lemma_band_ends_ordered(next.shown[x] as int, v.band_px, v.band_off[x] as int);
        }
    }
}

impl ScreenEffect for HealthBleed {
    open spec fn covers(&self, x: int) -> bool {
        self@.wf() && 0 <= x < self@.width
    }

    open spec fn palette_at(&self, x: int, y: int, use_palette: int) -> int {
        self@.palette_at(x, y, use_palette)
    }

    open spec fn active(&self) -> bool {
        self@.active
    }

    fn palette_offset(&self, x: usize, y: u16, use_palette: usize) -> (palette: usize) {
        let shown: u16 = self.shown[x];
        if y >= shown {
            return use_palette;
        }
        // Count how many precomputed band thresholds this depth exceeds.
        let from_edge: u16 = shown - 1 - y;
        let mut band: usize = 0;
        assert(self@.ends[x as int] == self.bound@[x as int]@);
        while band < BLEED_BOUNDS && from_edge >= self.bound[x][band]
            invariant
                x < self.bound@.len(),
                self@.ends[x as int] == self.bound@[x as int]@,
                band <= BLEED_BOUNDS,
                forall|b: int| 0 <= b < band ==> from_edge >= #[trigger] self@.ends[x as int][b],
            decreases BLEED_BOUNDS - band,
        {
            band += 1;
        }
        BLEED_PAL_START + band
    }

    fn is_active(&self) -> (active: bool)
        ensures
            active == self.active(),
    {
        self.active
    }
}

/// Whether `fresh` is what an update of `v` for this size needs.
pub open spec fn supplied(v: BleedView, width: int, height: int, fresh: Option<BleedProfile>) -> bool {
    v.stale(width, height) ==> fresh is Some && fresh->0.fits(width, height)
}

/// An update keeps a bleed valid and, on a screen that has columns, makes it
/// reflect the health that was asked for.
pub proof fn law_update_reflects_health(
    v: BleedView,
    health: int,
    width: int,
    height: int,
    fresh: Option<BleedProfile>,
)
    requires
        v.wf(),
        0 <= width <= usize::MAX,
        supplied(v, width, height, fresh),
    ensures
        v.updated(health, width, height, fresh).wf(),
        v.updated(health, width, height, fresh).width == width,
        v.updated(health, width, height, fresh).height == height,
        width > 0 ==> v.updated(health, width, height, fresh).reflects(bounded(health, 0, 100)),
{
    let base = if v.stale(width, height) {
        BleedView { last_health: -1, ..v.rebuilt(width, height, fresh->0) }
    } else {
        v
    };
    lemma_grown_wf(base, bounded(health, 0, 100));
}

/// At full health the bleed is inactive and tints no pixel, whatever it was
/// before.
pub proof fn law_full_health_is_clear(
    v: BleedView,
    health: int,
    width: int,
    height: int,
    fresh: Option<BleedProfile>,
    x: int,
    y: int,
    use_palette: int,
)
    requires
        v.wf(),
        0 <= x < width <= usize::MAX,
        0 <= y,
        supplied(v, width, height, fresh),
        health >= 100,
    ensures
        !v.updated(health, width, height, fresh).active,
        v.updated(health, width, height, fresh).palette_at(x, y, use_palette) == use_palette,
{
    law_update_reflects_health(v, health, width, height, fresh);
    assert(v.updated(health, width, height, fresh).shown[x] == 0);
}

/// Damage makes the bleed active, and exactly the columns that have grown by a
/// row or more show at the top of the screen.
pub proof fn law_damage_tints_top(
    v: BleedView,
    health: int,
    width: int,
    height: int,
    fresh: Option<BleedProfile>,
    x: int,
)
    requires
        v.wf(),
        0 <= x < width <= usize::MAX,
        supplied(v, width, height, fresh),
        health < 100,
    ensures
        v.updated(health, width, height, fresh).active,
        v.updated(health, width, height, fresh).lit(x, 0) <==> v.updated(
            health,
            width,
            height,
            fresh,
        ).target[x] * (100 - bounded(health, 0, 100)) >= 100,
{
    law_update_reflects_health(v, health, width, height, fresh);
    let n = v.updated(health, width, height, fresh);
    assert(n.shown[x] == shown_at(n.target[x], bounded(health, 0, 100)));
}

/// While any health is left, no column reaches the bottom row.
pub proof fn law_bottom_stays_clear(
    v: BleedView,
    health: int,
    width: int,
    height: int,
    fresh: Option<BleedProfile>,
    x: int,
)
    requires
        v.wf(),
        0 <= x < width <= usize::MAX,
        height > 0,
        supplied(v, width, height, fresh),
        health >= 1,
    ensures
        !v.updated(health, width, height, fresh).lit(x, height - 1),
{
    law_update_reflects_health(v, health, width, height, fresh);
    let n = v.updated(health, width, height, fresh);
    let h = bounded(health, 0, 100);
    assert(n.shown[x] == (if h < 100 {
        shown_at(n.target[x], h)
    } else {
        0
    }));
    let t = n.target[x] as int;
    assert(0 <= t * (100 - h) <= t * 99) by (nonlinear_arith)
        requires
            t >= 0,
            0 <= 100 - h <= 99,
    ;
}

/// A column hangs from the top: above a tinted pixel every pixel is tinted.
pub proof fn law_columns_hang_from_top(v: BleedView, x: int, above: int, y: int)
    requires
        above <= y,
        v.lit(x, y),
    ensures
        v.lit(x, above),
{
}

/// The lower the health, the longer every column: what is tinted at the higher
/// health is tinted at the lower one, and a column with room for the difference
/// is strictly longer.
pub proof fn law_lower_health_grows_columns(
    v: BleedView,
    low: int,
    high: int,
    width: int,
    height: int,
    fresh: Option<BleedProfile>,
    x: int,
)
    requires
        v.wf(),
        0 <= low <= high <= 100,
        0 <= x < width <= usize::MAX,
        supplied(v, width, height, fresh),
    ensures
        v.updated(low, width, height, fresh).shown[x] >= v.updated(
            high,
            width,
            height,
            fresh,
        ).shown[x],
        v.updated(low, width, height, fresh).target[x] * (high - low) >= 100 ==> v.updated(
            low,
            width,
            height,
            fresh,
        ).shown[x] > v.updated(high, width, height, fresh).shown[x],
        forall|y: int| #[trigger]
            v.updated(high, width, height, fresh).lit(x, y) ==> v.updated(
                low,
                width,
                height,
                fresh,
            ).lit(x, y),
{
    law_update_reflects_health(v, low, width, height, fresh);
    law_update_reflects_health(v, high, width, height, fresh);
    let a = v.updated(low, width, height, fresh);
    let b = v.updated(high, width, height, fresh);
    let t = a.target[x] as int;
    assert(b.target[x] == t);
    assert(a.shown[x] == (if low < 100 {
        shown_at(a.target[x], low)
    } else {
        0
    }));
    assert(b.shown[x] == (if high < 100 {
        shown_at(b.target[x], high)
    } else {
        0
    }));
    assert(t * (100 - low) == t * (100 - high) + t * (high - low)) by (nonlinear_arith);
    assert(0 <= t * (high - low)) by (nonlinear_arith)
        requires
            0 <= t,
            low <= high,
    ;
    assert(0 <= t * (100 - high)) by (nonlinear_arith)
        requires
            0 <= t,
            high <= 100,
    ;
    if high == 100 {
        assert(t * (100 - high) == 0) by (nonlinear_arith)
            requires
                high == 100,
        ;
    }
}

/// The tint of a column hangs from the top without gaps and is no longer than the
/// screen is high. It is red whatever the frame's palette; elsewhere the frame's
/// palette is handed back.
pub proof fn law_tint_ends_on_screen(v: BleedView, x: int, y: int, p: int, q: int)
    requires
        v.wf(),
        0 <= x < v.width,
        0 <= y,
    ensures
        v.shown[x] <= v.height,
        y < v.shown[x] ==> 1 <= v.palette_at(x, y, p) <= 3 && v.palette_at(x, y, p) == v.palette_at(x, y, q),
        y >= v.shown[x] ==> v.palette_at(x, y, p) == p,
{
}

/// A column is the share of its full length that the missing health asks. So, for
/// a pattern that is kept, a pixel is tinted at `health` exactly if it lies above
/// that share of what is tinted at no health, and nothing below that share of the
/// screen is ever tinted.
pub proof fn law_column_is_share_of_full_length(
    v: BleedView,
    health: int,
    width: int,
    height: int,
    fresh: Option<BleedProfile>,
    later: Option<BleedProfile>,
    x: int,
    y: int,
)
    requires
        v.wf(),
        0 <= health <= 100,
        0 <= x < width <= usize::MAX,
        0 <= y,
        supplied(v, width, height, fresh),
    ensures
        ({
            let full = v.updated(0, width, height, fresh);
            let now = full.updated(health, width, height, later);
            &&& full.shown[x] <= height
            &&& now.lit(x, y) <==> y < full.shown[x] * (100 - health) / 100
            &&& y >= height * (100 - health) / 100 ==> !now.lit(x, y)
        }),
{
    law_update_reflects_health(v, 0, width, height, fresh);
    let full = v.updated(0, width, height, fresh);
    assert(full.shown[x] == shown_at(full.target[x], 0));
    law_update_reflects_health(full, health, width, height, later);
    let now = full.updated(health, width, height, later);
    assert(now.target == full.target);
    assert(now.shown[x] == (if health < 100 {
        shown_at(now.target[x], health)
    } else {
        0
    }));
    let t = full.shown[x] as int;
    let missing = 100 - health;
    assert(0 <= t * missing <= height * missing) by (nonlinear_arith)
        requires
            0 <= t <= height,
            0 <= missing,
    ;
    if health == 100 {
        assert(t * missing == 0) by (nonlinear_arith)
            requires
                missing == 0,
        ;
    }
}

/// The leading edge of a column is the lightest red.
pub proof fn law_leading_edge_is_lightest(v: BleedView, x: int, use_palette: int)
    requires
        v.wf(),
        0 <= x < v.width,
        v.shown[x] >= 1,
    ensures
        v.palette_at(x, v.shown[x] - 1, use_palette) == BLEED_PAL_START,
{
    assert(v.active);
    assert(v.band_off[x] + v.band_px / 2 >= 0);
    let ends = band_ends(v.shown[x] as int, v.band_px, v.band_off[x] as int);
    assert(v.ends[x] == ends);
    assert(ends[0] >= 1);
}

/// The top of a tall column is the darkest red: its bands stretch so that the
/// gradient spans the whole column.
pub proof fn law_tall_column_is_darkest_on_top(v: BleedView, x: int, use_palette: int)
    requires
        v.wf(),
        0 <= x < v.width,
        v.shown[x] >= BLEED_PAL_COUNT * v.band_px || (v.height <= u16::MAX && v.shown[x]
            >= BLEED_PAL_COUNT * larger(v.height / 50, 1)),
    ensures
        v.palette_at(x, 0, use_palette) == BLEED_PAL_START + BLEED_PAL_COUNT - 1,
{
    assert(v.active);
    assert(v.band_off[x] + v.band_px / 2 < v.band_px);
    let shown = v.shown[x] as int;
    let ends = band_ends(shown, v.band_px, v.band_off[x] as int);
    assert(v.ends[x] == ends);
    let depth = band_depth(shown, v.band_px);
    assert(depth == shown / 3);
    assert(ends[1] == band_end(1, shown, v.band_px, v.band_off[x] as int));
    assert(shown - 1 >= ends[1]);
    assert(ends[0] <= ends[1]);
}

/// A tinted pixel has one of the red palettes.
pub proof fn law_tint_is_red(v: BleedView, x: int, y: int, use_palette: int)
    requires
        v.lit(x, y),
    ensures
        BLEED_PAL_START <= v.palette_at(x, y, use_palette) < BLEED_PAL_START + BLEED_PAL_COUNT,
{
}

/// A column lightens downward: no pixel of it is darker than one above.
pub proof fn law_column_lightens_downward(
    v: BleedView,
    x: int,
    above: int,
    y: int,
    use_palette: int,
)
    requires
        v.wf(),
        0 <= x < v.width,
        above <= y,
        v.lit(x, y),
    ensures
        v.palette_at(x, above, use_palette) >= v.palette_at(x, y, use_palette),
{
    assert(v.ends[x][0] <= v.ends[x][1]);
}

/// A second update with the same health and size changes nothing, whatever
/// pattern it is offered. Only a screen of no columns takes over what it is
/// offered each time.
pub proof fn law_second_update_changes_nothing(
    v: BleedView,
    health: int,
    width: int,
    height: int,
    fresh: Option<BleedProfile>,
    other: Option<BleedProfile>,
)
    requires
        v.wf(),
        0 <= width <= usize::MAX,
        width > 0 || other == fresh,
        supplied(v, width, height, fresh),
    ensures
        v.updated(health, width, height, fresh).updated(health, width, height, other) == v.updated(
            health,
            width,
            height,
            fresh,
        ),
{
    law_update_reflects_health(v, health, width, height, fresh);
    let once = v.updated(health, width, height, fresh);
    if width == 0 {
        assert(once.updated(health, width, height, other) =~= once);
    }
}

/// Between rebuilds the pattern stays: an update for the same size keeps every
/// column's target and band offset.
pub proof fn law_pattern_is_kept(
    v: BleedView,
    health: int,
    width: int,
    height: int,
    fresh: Option<BleedProfile>,
)
    requires
        !v.stale(width, height),
    ensures
        v.updated(health, width, height, fresh).target == v.target,
        v.updated(health, width, height, fresh).band_off == v.band_off,
        v.updated(health, width, height, fresh).band_px == v.band_px,
{
}

/// Where a new pattern is due, after a reset or a change of size, nothing of the
/// old one is left: the update gives what it would have given to any other bleed
/// that needs one.
pub proof fn law_reset_forgets_pattern(
    a: BleedView,
    b: BleedView,
    health: int,
    width: int,
    height: int,
    fresh: BleedProfile,
)
    requires
        a.stale(width, height),
        b.stale(width, height),
        fresh.fits(width, height),
    ensures
        a.updated(health, width, height, Some(fresh)) == b.updated(
            health,
            width,
            height,
            Some(fresh),
        ),
        a.updated(health, width, height, Some(fresh)).target == fresh.target@,
{
    let ra = BleedView { last_health: -1, ..a.rebuilt(width, height, fresh) };
    let rb = BleedView { last_health: -1, ..b.rebuilt(width, height, fresh) };
    let h = bounded(health, 0, 100);
    assert(ra.grown(h) =~= rb.grown(h));
}

/// In a column `n` rows long the bands are as deep as a third of it, if that is a
/// band or more, so the gradient spans the column at every length; a shorter
/// column has bands of the fixed depth. Shifted by the column's offset, no more
/// than half a band, the lowest is the lightest, the next the middle one, and all
/// that is left above is the darkest.
pub proof fn law_bands_span_column(v: BleedView, x: int, y: int, use_palette: int)
    requires
        v.wf(),
        0 <= x < v.width,
        0 <= y < v.shown[x],
    ensures
        ({
            let n = v.shown[x];
            let off = v.band_off[x];
            let palette = v.palette_at(x, y, use_palette);
            &&& -v.band_px <= 2 * off <= v.band_px
            &&& n >= 3 * v.band_px ==> {
                &&& n - y <= n as int / 3 + off ==> palette == 1
                &&& n as int / 3 + off < n - y <= 2 * (n as int / 3) + off ==> palette == 2
                &&& 2 * (n as int / 3) + off < n - y ==> palette == 3
            }
            &&& n < 3 * v.band_px ==> {
                &&& n - y <= v.band_px + off ==> palette == 1
                &&& v.band_px + off < n - y <= 2 * v.band_px + off ==> palette == 2
                &&& 2 * v.band_px + off < n - y ==> palette == 3
            }
        }),
{
    assert(v.active);
    assert(0 <= v.band_off[x] + v.band_px / 2 < v.band_px);
    let shown = v.shown[x] as int;
    let off = v.band_off[x] as int;
    let ends = band_ends(shown, v.band_px, off);
    assert(v.ends[x] == ends);
    assert(ends[0] == band_end(0, shown, v.band_px, off));
    assert(ends[1] == band_end(1, shown, v.band_px, off));
}

/// An update makes every column its target's share of the missing health, with
/// the health brought into `0..=100`: nothing at full health, all of it at none.
/// A new pattern is taken over, its noise centred on zero, exactly where there is
/// none or the size has changed; else the old one stays.
pub proof fn law_update_grows_columns(
    v: BleedView,
    health: int,
    width: int,
    height: int,
    fresh: Option<BleedProfile>,
    x: int,
)
    requires
        v.wf(),
        0 <= x < width <= usize::MAX,
        supplied(v, width, height, fresh),
    ensures
        ({
            let n = v.updated(health, width, height, fresh);
            &&& n.width == width
            &&& n.height == height
            &&& n.shown.len() == width
            &&& health >= 100 ==> !n.active && n.shown[x] == 0
            &&& 0 <= health < 100 ==> n.active && n.shown[x] == n.target[x] * (100 - health) / 100
            &&& health < 0 ==> n.active && n.shown[x] == n.target[x]
            &&& v.target.len() == 0 || v.width != width || v.height != height ==> {
                &&& n.target == fresh->0.target@
                &&& n.band_px == fresh->0.band_px
                &&& n.band_off[x] == fresh->0.band_noise@[x] - fresh->0.band_px as int / 2
            }
            &&& v.target.len() != 0 && v.width == width && v.height == height ==> {
                &&& n.target == v.target
                &&& n.band_px == v.band_px
                &&& n.band_off == v.band_off
            }
        }),
{
    law_update_reflects_health(v, health, width, height, fresh);
    let n = v.updated(health, width, height, fresh);
    assert(n.shown[x] == (if bounded(health, 0, 100) < 100 {
        shown_at(n.target[x], bounded(health, 0, 100))
    } else {
        0
    }));
    if health < 0 {
        assert(bounded(health, 0, 100) == 0);
        let t = n.target[x] as int;
        assert(t * (100 - 0) == t * 100) by (nonlinear_arith);
        assert(shown_at(n.target[x], 0) == t);
    } else if health < 100 {
        assert(bounded(health, 0, 100) == health);
    }
    if v.stale(width, height) {
        assert(fresh->0.band_noise@[x] >= 0);
        assert(n.band_off == v.rebuilt(width, height, fresh->0).band_off);
    }
}

/// A new pattern is due before the first update, after a reset, and where the
/// size is another; not after an update for the same size.
pub proof fn law_pattern_is_due(v: BleedView, width: int, height: int)
    ensures
        v.stale(width, height) <==> v.target.len() == 0 || v.width != width || v.height != height,
{
}

/// After an update the bleed is active exactly if health is missing, on a screen
/// of any width.
pub proof fn law_damage_is_what_activates(
    v: BleedView,
    health: int,
    width: int,
    height: int,
    fresh: Option<BleedProfile>,
)
    requires
        v.wf(),
        0 <= width <= usize::MAX,
        supplied(v, width, height, fresh),
    ensures
        v.updated(health, width, height, fresh).active <==> health < 100,
{
    if width > 0 {
        law_update_grows_columns(v, health, width, height, fresh, 0);
    }
}

/// A band may be as deep as a fiftieth of the screen, and always one row.
pub proof fn law_fiftieth_of_screen_is_a_band(height: int)
    requires
        0 <= height <= u16::MAX,
    ensures
        deepest_band(height) >= 1,
        deepest_band(height) >= height / 50,
        deepest_band(height) == 1 || deepest_band(height) == height / 50,
{
}

} // verus!
