//! The shape of the health bleed: how long each column may grow.
//!
//! A shape starts from random draws. [`BleedPlan`] asks for them one at a time
//! and turns them into the control points of two value-noise curves and a list
//! of peaks. The curves themselves are evaluated by the caller, point by point
//! ([`noise_spans`]), and so is the fading of the peaks ([`Spike`]);
//! [`build_column_targets`] then sets the peaks on the baseline.

use crate::num::{bounded, larger, lemma_cell, rem};
use vstd::prelude::*;

verus! {

/// Value-noise control-point spacing, larger = broader curves (pixels).
pub const BLEED_NOISE_STEP: usize = 14;

/// Peaks occur roughly 1 column in N (count).
pub const BLEED_PEAK_RATE: i32 = 50;

/// Columns each side of a peak that taper it into the baseline hump (pixels).
pub const BLEED_PEAK_BLEND: usize = 4;

/// Columns from the tip of a peak to the last that its spike reaches.
pub const BLEED_SPIKE: usize = BLEED_PEAK_BLEND + 1;

/// Lengths of the bleed on a screen of one height, in pixels.
#[derive(Clone, Copy)]
pub struct BleedMetrics {
    /// Tallest a peak column can reach.
    pub max_len: i32,
    /// Resting length of a non-peak column.
    pub base_len: i32,
    /// Baseline roughness amplitude.
    pub jitter: i32,
    /// Depth of one palette band.
    pub band_px: i32,
}

impl BleedMetrics {
    /// Columns rest between the top of the screen and the tallest peak.
    pub open spec fn wf(self) -> bool {
        0 <= self.base_len <= self.max_len
    }

    /// How far a peak can rise above the baseline, at least one.
    pub open spec fn span(self) -> int {
        larger(self.max_len - self.base_len, 1)
    }
}

/// A peak of the shape: where it stands and how far it rises above the resting
/// length.
#[derive(Clone, Copy)]
pub struct Peak {
    pub column: usize,
    pub rise: i32,
}

/// A peak as it is set on the baseline: where it stands, and what is left of its
/// rise at each distance from its tip.
#[derive(Clone, Copy)]
pub struct Spike {
    pub column: usize,
    pub fade: [i32; BLEED_SPIKE],
}

/// One point of a value-noise curve: the control points on both sides of it,
/// and how many steps past the first one it lies.
#[derive(Clone, Copy)]
pub struct NoiseSpan {
    pub from: i32,
    pub to: i32,
    pub phase: usize,
}

/// How many control points a curve over `width` columns has, one every `step`.
pub open spec fn control_points(width: int, step: int) -> int {
    width / step + 2
}

/// A random number brought below `amplitude`, or to zero if that is not
/// positive.
pub open spec fn scaled_draw(draw: int, amplitude: int) -> int {
    rem(draw, larger(amplitude, 1))
}

/// What a plan has gathered so far.
#[verifier::ext_equal]
pub struct PlanView {
    pub width: int,
    pub jitter: int,
    pub span: int,
    pub band_px: int,
    /// Control points of the baseline.
    pub baseline: Seq<i32>,
    /// Peaks of the columns before `column`.
    pub peaks: Seq<Peak>,
    /// The next column that may become a peak.
    pub column: int,
    /// Whether that column is a peak whose rise is still to be drawn.
    pub rising: bool,
    /// Control points of the band offsets.
    pub bands: Seq<i32>,
}

impl PlanView {
    /// How many control points each of the two curves has.
    pub open spec fn points(self) -> int {
        control_points(self.width, BLEED_NOISE_STEP as int)
    }

    /// Whether another draw is needed.
    pub open spec fn wants(self) -> bool {
        ||| self.baseline.len() < self.points()
        ||| self.column < self.width
        ||| self.bands.len() < self.points()
    }

    /// The plan after one more draw. The baseline comes first; then every
    /// column in turn, where one draw in [`BLEED_PEAK_RATE`] makes a peak and the
    /// draw after it says how high; the bands come last.
    pub open spec fn fed(self, draw: i32) -> PlanView {
        if self.baseline.len() < self.points() {
            PlanView {
                baseline: self.baseline.push(scaled_draw(draw as int, self.jitter) as i32),
                ..self
            }
        } else if self.column < self.width && self.rising {
            PlanView {
                peaks: self.peaks.push(
                    (Peak {
                        column: self.column as usize,
                        rise: (self.span / 2 + scaled_draw(draw as int, self.span / 2)) as i32,
                    }),
                ),
                rising: false,
                column: self.column + 1,
                ..self
            }
        } else if self.column < self.width {
            if rem(draw as int, BLEED_PEAK_RATE as int) == 0 {
                PlanView { rising: true, ..self }
            } else {
                PlanView { column: self.column + 1, ..self }
            }
        } else {
            PlanView {
                bands: self.bands.push(scaled_draw(draw as int, self.band_px) as i32),
                ..self
            }
        }
    }

    /// The plan after a whole sequence of draws.
    pub open spec fn fed_all(self, draws: Seq<i32>) -> PlanView
        decreases draws.len(),
    {
        if draws.len() == 0 {
            self
        } else {
            self.fed_all(draws.drop_last()).fed(draws.last())
        }
    }

    /// No more draws than this can still be needed.
    pub open spec fn left(self) -> int {
        (self.points() - self.baseline.len()) + 2 * (self.width - self.column) - (if self.rising {
            1int
        } else {
            0
        }) + (self.points() - self.bands.len())
    }

    /// What every plan keeps: what has been drawn is in range, and the peaks
    /// stand in different columns, from left to right.
    pub open spec fn wf(self) -> bool {
        &&& 0 <= self.column <= self.width <= usize::MAX
        &&& 1 <= self.span <= i32::MAX
        &&& self.jitter <= i32::MAX
        &&& self.band_px <= i32::MAX
        &&& self.rising ==> self.column < self.width
        &&& self.baseline.len() <= self.points()
        &&& self.bands.len() <= self.points()
        &&& self.baseline.len() < self.points() ==> self.column == 0 && !self.rising
        &&& self.column < self.width ==> self.bands.len() == 0
        &&& self.baseline.len() < self.points() ==> self.bands.len() == 0
        &&& forall|i: int|
            0 <= i < self.baseline.len() ==> -larger(self.jitter, 1) < #[trigger] self.baseline[i]
                < larger(self.jitter, 1)
        &&& forall|i: int|
            0 <= i < self.bands.len() ==> -larger(self.band_px, 1) < #[trigger] self.bands[i]
                < larger(self.band_px, 1)
        &&& forall|i: int|
            0 <= i < self.peaks.len() ==> (#[trigger] self.peaks[i]).column < self.column && 0
                <= self.peaks[i].rise < self.span
        &&& forall|i: int, j: int|
            0 <= i < j < self.peaks.len() ==> (#[trigger] self.peaks[i]).column < (
            #[trigger] self.peaks[j]).column
    }
}

/// Gathers the random draws of one shape.
pub struct BleedPlan {
    width: usize,
    jitter: i32,
    span: i32,
    band_px: i32,
    points: usize,
    baseline: Vec<i32>,
    peaks: Vec<Peak>,
    column: usize,
    rising: bool,
    bands: Vec<i32>,
}

impl View for BleedPlan {
    type V = PlanView;

    closed spec fn view(&self) -> PlanView {
        PlanView {
            width: self.width as int,
            jitter: self.jitter as int,
            span: self.span as int,
            band_px: self.band_px as int,
            baseline: self.baseline@,
            peaks: self.peaks@,
            column: self.column as int,
            rising: self.rising,
            bands: self.bands@,
        }
    }
}

impl BleedPlan {
    /// What every plan keeps.
    pub closed spec fn wf(&self) -> bool {
        self@.wf() && self.points == self@.points()
    }

    /// A plan for `width` columns that has drawn nothing yet.
    pub fn new(width: usize, metrics: &BleedMetrics) -> (plan: Self)
        requires
            metrics.wf(),
        ensures
            plan.wf(),
            plan@ == (PlanView {
                width: width as int,
                jitter: metrics.jitter as int,
                span: metrics.span(),
                band_px: metrics.band_px as int,
                baseline: Seq::empty(),
                peaks: Seq::empty(),
                column: 0,
                rising: false,
                bands: Seq::empty(),
            }),
    {
        let reach: i32 = metrics.max_len - metrics.base_len;
        let span: i32 = if reach >= 1 {
            reach
        } else {
            1
        };
        Self {
            width,
            jitter: metrics.jitter,
            span,
            band_px: metrics.band_px,
            points: width / BLEED_NOISE_STEP + 2,
            baseline: Vec::new(),
            peaks: Vec::new(),
            column: 0,
            rising: false,
            bands: Vec::new(),
        }
    }

    /// Whether another draw is needed.
    pub fn wants_draw(&self) -> (wants: bool)
        requires
            self.wf(),
        ensures
            wants == self@.wants(),
    {
        self.baseline.len() < self.points || self.column < self.width || self.bands.len()
            < self.points
    }

    /// Takes one draw.
    pub fn feed(&mut self, draw: i32)
        requires
            old(self).wf(),
            old(self)@.wants(),
        ensures
            final(self).wf(),
            final(self)@ == old(self)@.fed(draw),
    {
        proof {
            law_plan_advances(self@, draw);
        }
        if self.baseline.len() < self.points {
            self.baseline.push(below(draw, self.jitter));
        } else if self.column < self.width {
            if self.rising {
                let rise: i32 = self.span / 2 + below(draw, self.span / 2);
                self.peaks.push(Peak { column: self.column, rise });
                self.rising = false;
                self.column += 1;
            } else if draw % BLEED_PEAK_RATE == 0 {
                self.rising = true;
            } else {
                self.column += 1;
            }
        } else {
            self.bands.push(below(draw, self.band_px));
        }
        assert(self@ =~= old(self)@.fed(draw));
    }

    /// The points of the baseline curve, one for each column.
    pub fn baseline_spans(&self) -> (spans: Vec<NoiseSpan>)
        requires
            self.wf(),
            !self@.wants(),
        ensures
            spans@ == spans_of(self@.baseline, self@.width, 14),
    {
        noise_spans(&self.baseline, self.width, BLEED_NOISE_STEP)
    }

    /// The points of the band-offset curve, one for each column.
    pub fn band_spans(&self) -> (spans: Vec<NoiseSpan>)
        requires
            self.wf(),
            !self@.wants(),
        ensures
            spans@ == spans_of(self@.bands, self@.width, 14),
    {
        noise_spans(&self.bands, self.width, BLEED_NOISE_STEP)
    }

    /// The peaks that were drawn, from left to right.
    pub fn peaks(&self) -> (peaks: &[Peak])
        ensures
            peaks@ == self@.peaks,
    {
        self.peaks.as_slice()
    }
}

/// Brings a random number below `amplitude`.
fn below(draw: i32, amplitude: i32) -> (r: i32)
    ensures
        r == scaled_draw(draw as int, amplitude as int),
        -larger(amplitude as int, 1) < r < larger(amplitude as int, 1),
{
    let m: i32 = if amplitude >= 1 {
        amplitude
    } else {
        1
    };
    draw % m
}

/// The points of the curve through `ctrl`, one for each of `width` columns.
pub open spec fn spans_of(ctrl: Seq<i32>, width: int, step: int) -> Seq<NoiseSpan> {
    Seq::new(
        width as nat,
        |x: int|
            NoiseSpan {
                from: ctrl[x / step],
                to: ctrl[x / step + 1],
                phase: (x % step) as usize,
            },
    )
}

/// The points of the value-noise curve whose control points are `ctrl`, one
/// every `step` columns.
pub fn noise_spans(ctrl: &Vec<i32>, width: usize, step: usize) -> (spans: Vec<NoiseSpan>)
    requires
        ctrl@.len() >= control_points(width as int, larger(step as int, 1)),
    ensures
        spans@ == spans_of(ctrl@, width as int, larger(step as int, 1)),
{
    let step: usize = if step >= 1 {
        step
    } else {
        1
    };
    let ghost all = spans_of(ctrl@, width as int, step as int);
    let mut spans: Vec<NoiseSpan> = Vec::new();
    let mut x: usize = 0;
    while x < width
        invariant
            step >= 1,
            x <= width,
            ctrl@.len() >= control_points(width as int, step as int),
            all == spans_of(ctrl@, width as int, step as int),
            spans@ == all.take(x as int),
        decreases width - x,
    {
        let i: usize = x / step;
        proof {
            vstd::arithmetic::div_mod::lemma_div_is_ordered(x as int, width as int, step as int);
        }
        spans.push(NoiseSpan { from: ctrl[i], to: ctrl[i + 1], phase: x % step });
        x += 1;
        assert(spans@ =~= all.take(x as int));
    }
    assert(all.take(width as int) =~= all);
    spans
}

/// How far apart two columns are.
pub open spec fn distance(a: int, b: int) -> int {
    if a >= b {
        a - b
    } else {
        b - a
    }
}

/// Whether a peak reaches column `x`.
pub open spec fn reaches(peak: Spike, x: int) -> bool {
    distance(x, peak.column as int) <= BLEED_NOISE_STEP
}

/// The length that a peak asks of a column that it reaches: the soft hump under
/// it and, close by, the spike on top.
pub open spec fn bump(base_len: int, humps: Seq<i32>, peak: Spike, x: int) -> int {
    let d = distance(x, peak.column as int);
    if d <= BLEED_PEAK_BLEND {
        larger(humps[d] as int, base_len + peak.fade@[d])
    } else {
        humps[d] as int
    }
}

/// The columns with one peak set on them: each is as long as it was, or as the
/// peak asks.
pub open spec fn raised(len: Seq<i32>, base_len: int, humps: Seq<i32>, peak: Spike) -> Seq<i32> {
    Seq::new(
        len.len(),
        |x: int|
            if reaches(peak, x) {
                larger(len[x] as int, bump(base_len, humps, peak, x)) as i32
            } else {
                len[x]
            },
    )
}

/// The columns with every peak set on them.
pub open spec fn all_raised(
    len: Seq<i32>,
    base_len: int,
    humps: Seq<i32>,
    peaks: Seq<Spike>,
) -> Seq<i32>
    decreases peaks.len(),
{
    if peaks.len() == 0 {
        len
    } else {
        raised(all_raised(len, base_len, humps, peaks.drop_last()), base_len, humps, peaks.last())
    }
}

/// Peaks that anchor each screen edge.
pub open spec fn edge_peaks(width: int, edge: [i32; BLEED_SPIKE]) -> Seq<Spike> {
    if width >= 2 {
        seq![
            Spike { column: 1, fade: edge },
            Spike { column: (width - 2) as usize, fade: edge },
        ]
    } else {
        Seq::empty()
    }
}

/// The longest each column may grow, in pixels.
pub open spec fn column_targets(
    metrics: BleedMetrics,
    baseline: Seq<i32>,
    humps: Seq<i32>,
    peaks: Seq<Spike>,
    edge: [i32; BLEED_SPIKE],
) -> Seq<u16> {
    let len = all_raised(
        baseline,
        metrics.base_len as int,
        humps,
        peaks + edge_peaks(baseline.len() as int, edge),
    );
    Seq::new(
        baseline.len(),
        |x: int| bounded(len[x] as int, 0, metrics.max_len as int) as u16,
    )
}

/// Whether the lengths of a spike can be told.
pub open spec fn tellable(base_len: int, fade: [i32; BLEED_SPIKE]) -> bool {
    forall|d: int|
        0 <= d < BLEED_SPIKE ==> i32::MIN <= base_len + #[trigger] fade@[d] <= i32::MAX
}

/// Whether a peak can stand on `width` columns.
pub open spec fn stands(base_len: int, width: int, peak: Spike) -> bool {
    peak.column < width && tellable(base_len, peak.fade)
}

/// Whether every peak can stand on `width` columns.
pub open spec fn all_stand(base_len: int, width: int, peaks: Seq<Spike>) -> bool {
    forall|i: int| 0 <= i < peaks.len() ==> stands(base_len, width, #[trigger] peaks[i])
}

/// Place a peak: a wide soft crest under it, then the sharp feathered spike on
/// top.
fn place_peak(len: &mut Vec<i32>, base_len: i32, humps: &[i32], peak: Spike)
    requires
        humps@.len() > BLEED_NOISE_STEP,
        stands(base_len as int, old(len)@.len() as int, peak),
    ensures
        final(len)@ == raised(old(len)@, base_len as int, humps@, peak),
{
    let ghost len0 = len@;
    let width: usize = len.len();
    let cx: usize = peak.column;
    let mut d: usize = 0;
    while d <= BLEED_NOISE_STEP
        invariant
            humps@.len() > BLEED_NOISE_STEP,
            cx < width,
            d <= BLEED_NOISE_STEP + 1,
            len@.len() == len0.len() == width,
            forall|x: int| #![trigger len@[x]]
                0 <= x < width ==> len@[x] == (if distance(x, cx as int) < d {
                    larger(len0[x] as int, humps@[distance(x, cx as int)] as int)
                } else {
                    len0[x] as int
                }),
        decreases BLEED_NOISE_STEP + 1 - d,
    {
        let hump: i32 = humps[d];
        if cx >= d {
            lengthen(len, cx - d, hump);
        }
        if d < width - cx {
            lengthen(len, cx + d, hump);
        }
        d += 1;
    }
    d = 0;
    while d <= BLEED_PEAK_BLEND
        invariant
            humps@.len() > BLEED_NOISE_STEP,
            cx < width,
            cx == peak.column,
            stands(base_len as int, width as int, peak),
            d <= BLEED_PEAK_BLEND + 1,
            len@.len() == len0.len() == width,
            forall|x: int| #![trigger len@[x]]
                0 <= x < width ==> len@[x] == ({
                    let dx = distance(x, cx as int);
                    let soft = if dx <= BLEED_NOISE_STEP {
                        larger(len0[x] as int, humps@[dx] as int)
                    } else {
                        len0[x] as int
                    };
                    if dx < d {
                        larger(soft, base_len + peak.fade@[dx])
                    } else {
                        soft
                    }
                }),
        decreases BLEED_PEAK_BLEND + 1 - d,
    {
        assert(i32::MIN <= base_len + peak.fade@[d as int] <= i32::MAX);
        let spike: i32 = base_len + peak.fade[d];
        if cx >= d {
            lengthen(len, cx - d, spike);
        }
        if d < width - cx {
            lengthen(len, cx + d, spike);
        }
        d += 1;
    }
    proof {
        assert forall|x: int| 0 <= x < width implies len@[x] == raised(
            len0,
            base_len as int,
            humps@,
            peak,
        )[x] by {
            let dx = distance(x, cx as int);
            if dx <= BLEED_PEAK_BLEND {
                assert(base_len + peak.fade@[dx] <= i32::MAX);
            }
        }
        assert(len@ =~= raised(len0, base_len as int, humps@, peak));
    }
}

/// Makes column `x` at least `length` long.
fn lengthen(len: &mut Vec<i32>, x: usize, length: i32)
    requires
        x < old(len)@.len(),
    ensures
        final(len)@ == old(len)@.update(
            x as int,
            larger(old(len)@[x as int] as int, length as int) as i32,
        ),
{
    if len[x] < length {
        len[x] = length;
    }
    assert(len@ =~= old(len)@.update(
        x as int,
        larger(old(len)@[x as int] as int, length as int) as i32,
    ));
}

/// Build the full per-column max-length shape: the smooth `baseline`, then sharp
/// peaks placed on top, each swelling the baseline into a soft crest (`humps`,
/// by distance from the peak) so it rises out of a hump, not an arbitrary
/// baseline height. A peak that fades as `edge` does anchors each screen edge.
pub fn build_column_targets(
    metrics: &BleedMetrics,
    baseline: Vec<i32>,
    humps: &[i32],
    peaks: &[Spike],
    edge: [i32; BLEED_SPIKE],
) -> (targets: Vec<u16>)
    requires
        metrics.wf(),
        humps@.len() > BLEED_NOISE_STEP,
        all_stand(metrics.base_len as int, baseline@.len() as int, peaks@),
        tellable(metrics.base_len as int, edge),
    ensures
        targets@ == column_targets(*metrics, baseline@, humps@, peaks@, edge),
{
    let ghost base = metrics.base_len as int;
    let ghost len0 = baseline@;
    let width: usize = baseline.len();
    let mut len: Vec<i32> = baseline;
    let mut i: usize = 0;
    assert(peaks@.take(0) =~= Seq::empty());
    while i < peaks.len()
        invariant
            humps@.len() > BLEED_NOISE_STEP,
            base == metrics.base_len,
            i <= peaks@.len(),
            width == len0.len(),
            len@.len() == width,
            len@ == all_raised(len0, base, humps@, peaks@.take(i as int)),
            all_stand(base, width as int, peaks@),
        decreases peaks@.len() - i,
    {
        place_peak(&mut len, metrics.base_len, humps, peaks[i]);
        i += 1;
        assert(peaks@.take(i as int).drop_last() =~= peaks@.take(i - 1));
    }
    assert(peaks@.take(i as int) =~= peaks@);
    let ghost edges = edge_peaks(width as int, edge);
    if width >= 2 {
        place_peak(&mut len, metrics.base_len, humps, Spike { column: 1, fade: edge });
        place_peak(&mut len, metrics.base_len, humps, Spike { column: width - 2, fade: edge });
        proof {
            let both = peaks@ + edges;
            assert(both.drop_last().drop_last() =~= peaks@);
            assert(both.drop_last().last() == edges[0]);
            assert(both.last() == edges[1]);
            reveal_with_fuel(all_raised, 3);
        }
    } else {
        assert(peaks@ + edges =~= peaks@);
    }
    let mut targets: Vec<u16> = Vec::new();
    let ghost all = column_targets(*metrics, len0, humps@, peaks@, edge);
    let mut x: usize = 0;
    while x < width
        invariant
            metrics.wf(),
            x <= width,
            width == len0.len() == len@.len(),
            len@ == all_raised(
                len0,
                metrics.base_len as int,
                humps@,
                peaks@ + edge_peaks(len0.len() as int, edge),
            ),
            all == column_targets(*metrics, len0, humps@, peaks@, edge),
            targets@ == all.take(x as int),
        decreases width - x,
    {
        let l: i32 = len[x];
        let kept: i32 = if l < 0 {
            0
        } else if l > metrics.max_len {
            metrics.max_len
        } else {
            l
        };
        targets.push(
            #[verifier::truncate]
            (kept as u16),
        );
        x += 1;
        assert(targets@ =~= all.take(x as int));
    }
    assert(all.take(width as int) =~= all);
    targets
}

/// A draw that is wanted keeps the plan valid and brings its end nearer.
pub proof fn law_plan_advances(v: PlanView, draw: i32)
    requires
        v.wf(),
        v.wants(),
    ensures
        v.fed(draw).wf(),
        0 <= v.fed(draw).left() < v.left(),
{
}

/// A plan wants draws exactly as long as its count of draws left is not zero.
pub proof fn law_plan_ends(v: PlanView)
    requires
        v.wf(),
    ensures
        v.left() >= 0,
        v.wants() <==> v.left() > 0,
{
}

/// A plan that is fed while it wants draws stays valid, and never takes more
/// draws than it counted at the start.
pub proof fn law_plan_takes_what_it_counts(v: PlanView, draws: Seq<i32>)
    requires
        v.wf(),
        forall|i: int| 0 <= i < draws.len() ==> (#[trigger] v.fed_all(draws.take(i))).wants(),
    ensures
        v.fed_all(draws).wf(),
        draws.len() + v.fed_all(draws).left() <= v.left(),
    decreases draws.len(),
{
    if draws.len() > 0 {
        let rest = draws.drop_last();
        assert forall|i: int| 0 <= i < rest.len() implies (#[trigger] v.fed_all(
            rest.take(i),
        )).wants() by {
            assert(rest.take(i) =~= draws.take(i));
        }
        law_plan_takes_what_it_counts(v, rest);
        assert(draws.take(draws.len() - 1) =~= rest);
        law_plan_advances(v.fed_all(rest), draws.last());
    }
}

/// A control point made from a draw that is not negative lies in
/// `0..amplitude`.
pub proof fn law_control_point_in_range(draw: int, amplitude: int)
    requires
        draw >= 0,
    ensures
        0 <= scaled_draw(draw, amplitude) < larger(amplitude, 1),
{
}

/// A column is exactly as long as the longest of what it was on the baseline and
/// what the peaks that reach it ask. The order of the peaks plays no part.
pub proof fn law_column_is_longest_asked(
    len: Seq<i32>,
    base_len: int,
    humps: Seq<i32>,
    peaks: Seq<Spike>,
    x: int,
)
    requires
        0 <= x < len.len(),
        i32::MIN <= base_len <= i32::MAX,
        humps.len() > BLEED_NOISE_STEP,
        all_stand(base_len, len.len() as int, peaks),
    ensures
        all_raised(len, base_len, humps, peaks).len() == len.len(),
        ({
            let h = all_raised(len, base_len, humps, peaks)[x];
            &&& h >= len[x]
            &&& forall|i: int|
                0 <= i < peaks.len() && reaches(#[trigger] peaks[i], x) ==> h >= bump(
                    base_len,
                    humps,
                    peaks[i],
                    x,
                )
            &&& h == len[x] || exists|i: int|
                0 <= i < peaks.len() && reaches(#[trigger] peaks[i], x) && h == bump(
                    base_len,
                    humps,
                    peaks[i],
                    x,
                )
        }),
    decreases peaks.len(),
{
    if peaks.len() > 0 {
        let rest = peaks.drop_last();
        let n = peaks.len() - 1;
        assert forall|i: int| 0 <= i < rest.len() implies stands(
            base_len,
            len.len() as int,
            #[trigger] rest[i],
        ) by {
            assert(rest[i] == peaks[i]);
        }
        law_column_is_longest_asked(len, base_len, humps, rest, x);
        let before = all_raised(len, base_len, humps, rest)[x];
        let h = all_raised(len, base_len, humps, peaks)[x];
        assert(stands(base_len, len.len() as int, peaks[n]));
        if reaches(peaks[n], x) {
            let d = distance(x, peaks[n].column as int);
            if d <= BLEED_PEAK_BLEND {
                assert(base_len + peaks[n].fade@[d] <= i32::MAX);
            }
            assert(h == larger(before as int, bump(base_len, humps, peaks[n], x)));
        }
        assert forall|i: int| 0 <= i < peaks.len() && reaches(#[trigger] peaks[i], x) implies h
            >= bump(base_len, humps, peaks[i], x) by {
            if i < n {
                assert(rest[i] == peaks[i]);
            }
        }
        if h != len[x] {
            if h == before {
                let i = choose|i: int|
                    0 <= i < rest.len() && reaches(#[trigger] rest[i], x) && before == bump(
                        base_len,
                        humps,
                        rest[i],
                        x,
                    );
                assert(rest[i] == peaks[i]);
            } else {
                assert(reaches(peaks[n], x));
            }
        }
    }
}

/// No column grows past the tallest peak that the screen has room for.
pub proof fn law_targets_fit_screen(
    metrics: BleedMetrics,
    baseline: Seq<i32>,
    humps: Seq<i32>,
    peaks: Seq<Spike>,
    edge: [i32; BLEED_SPIKE],
    x: int,
)
    requires
        metrics.wf(),
        0 <= x < baseline.len(),
    ensures
        column_targets(metrics, baseline, humps, peaks, edge)[x] <= metrics.max_len,
{
}

/// Where the edge peaks rise to the full height, one stands next to each edge of
/// the screen.
pub proof fn law_edges_reach_full_height(
    metrics: BleedMetrics,
    baseline: Seq<i32>,
    humps: Seq<i32>,
    peaks: Seq<Spike>,
    edge: [i32; BLEED_SPIKE],
)
    requires
        metrics.wf(),
        2 <= baseline.len() <= usize::MAX,
        humps.len() > BLEED_NOISE_STEP,
        all_stand(metrics.base_len as int, baseline.len() as int, peaks),
        tellable(metrics.base_len as int, edge),
        edge@[0] >= metrics.max_len - metrics.base_len,
    ensures
        column_targets(metrics, baseline, humps, peaks, edge)[1] == metrics.max_len as u16,
        column_targets(metrics, baseline, humps, peaks, edge)[baseline.len() - 2] == metrics.max_len as u16,
{
    let width = baseline.len() as int;
    let base_len = metrics.base_len as int;
    let edges = edge_peaks(width, edge);
    let all = peaks + edges;
    assert forall|i: int| 0 <= i < all.len() implies stands(base_len, width, #[trigger] all[i]) by {
        if i < peaks.len() {
            assert(all[i] == peaks[i]);
        } else {
            assert(all[i] == edges[i - peaks.len()]);
        }
    }
    law_column_is_longest_asked(baseline, base_len, humps, all, 1);
    law_column_is_longest_asked(baseline, base_len, humps, all, width - 2);
    let n = peaks.len() as int;
    assert(all[n] == edges[0]);
    assert(all[n + 1] == edges[1]);
    assert(reaches(all[n], 1));
    assert(reaches(all[n + 1], width - 2));
}

/// The target of column `x` is the longest of what the baseline and all the peaks
/// ask of it, the drawn ones, however many, and the two next to the edges, kept on
/// the screen. A peak asks for a hump as far as fourteen columns from it, and for
/// its spike as far as four. The result is that longest length.
pub proof fn law_target_is_longest_asked(
    metrics: BleedMetrics,
    baseline: Seq<i32>,
    humps: Seq<i32>,
    peaks: Seq<Spike>,
    edge: [i32; BLEED_SPIKE],
    x: int,
) -> (longest: int)
    requires
        metrics.wf(),
        0 <= x < baseline.len() <= usize::MAX,
        humps.len() >= 15,
        all_stand(metrics.base_len as int, baseline.len() as int, peaks),
        tellable(metrics.base_len as int, edge),
    ensures
        column_targets(metrics, baseline, humps, peaks, edge).len() == baseline.len(),
        column_targets(metrics, baseline, humps, peaks, edge)[x] == (if longest < 0 {
            0
        } else if longest > metrics.max_len {
            metrics.max_len as int
        } else {
            longest
        }) as u16,
        longest >= baseline[x],
        forall|i: int|
            0 <= i < peaks.len() ==> ({
                let c = (#[trigger] peaks[i]).column;
                let d = if x >= c {
                    x - c
                } else {
                    c - x
                };
                &&& d <= 14 ==> longest >= humps[d]
                &&& d <= 4 ==> longest >= metrics.base_len + peaks[i].fade@[d]
            }),
        baseline.len() >= 2 ==> ({
            let d = if x >= 1 {
                x - 1
            } else {
                1
            };
            &&& d <= 14 ==> longest >= humps[d]
            &&& d <= 4 ==> longest >= metrics.base_len + edge@[d]
        }),
        baseline.len() >= 2 ==> ({
            let d = if x >= baseline.len() - 2 {
                x - (baseline.len() - 2)
            } else {
                baseline.len() - 2 - x
            };
            &&& d <= 14 ==> longest >= humps[d]
            &&& d <= 4 ==> longest >= metrics.base_len + edge@[d]
        }),
        ({
            ||| longest == baseline[x]
            ||| exists|i: int|
                0 <= i < peaks.len() && ({
                    let c = (#[trigger] peaks[i]).column;
                    let d = if x >= c {
                        x - c
                    } else {
                        c - x
                    };
                    d <= 14 && longest == humps[d] || d <= 4 && longest == metrics.base_len
                        + peaks[i].fade@[d]
                })
            ||| baseline.len() >= 2 && ({
                let d = if x >= 1 {
                    x - 1
                } else {
                    1
                };
                d <= 14 && longest == humps[d] || d <= 4 && longest == metrics.base_len + edge@[d]
            })
            ||| baseline.len() >= 2 && ({
                let d = if x >= baseline.len() - 2 {
                    x - (baseline.len() - 2)
                } else {
                    baseline.len() - 2 - x
                };
                d <= 14 && longest == humps[d] || d <= 4 && longest == metrics.base_len + edge@[d]
            })
        }),
{
    let width = baseline.len() as int;
    let base_len = metrics.base_len as int;
    let edges = edge_peaks(width, edge);
    let all = peaks + edges;
    let n = peaks.len() as int;
    assert forall|i: int| 0 <= i < all.len() implies stands(base_len, width, #[trigger] all[i]) by {
        if i < n {
            assert(all[i] == peaks[i]);
        } else {
            assert(all[i] == edges[i - n]);
        }
    }
    law_column_is_longest_asked(baseline, base_len, humps, all, x);
    let longest = all_raised(baseline, base_len, humps, all)[x] as int;
    assert forall|i: int| 0 <= i < peaks.len() && reaches(#[trigger] peaks[i], x) implies longest
        >= bump(base_len, humps, peaks[i], x) by {
        assert(all[i] == peaks[i]);
    }
    if width >= 2 {
        assert(all[n] == edges[0]);
        assert(all[n + 1] == edges[1]);
        if reaches(edges[0], x) {
            assert(longest >= bump(base_len, humps, all[n], x));
        }
        if reaches(edges[1], x) {
            assert(longest >= bump(base_len, humps, all[n + 1], x));
        }
    }
    if longest != baseline[x] {
        let i = choose|i: int|
            0 <= i < all.len() && reaches(#[trigger] all[i], x) && longest == bump(
                base_len,
                humps,
                all[i],
                x,
            );
        if i < n {
            assert(all[i] == peaks[i]);
        } else {
            assert(all[i] == edges[i - n]);
        }
    }
    longest
}

/// Every drawn peak stands: at its column the target reaches its tip, as far as
/// the screen does.
pub proof fn law_every_peak_stands(
    metrics: BleedMetrics,
    baseline: Seq<i32>,
    humps: Seq<i32>,
    peaks: Seq<Spike>,
    edge: [i32; BLEED_SPIKE],
    i: int,
)
    requires
        metrics.wf(),
        metrics.max_len <= u16::MAX,
        baseline.len() <= usize::MAX,
        humps.len() >= 15,
        all_stand(metrics.base_len as int, baseline.len() as int, peaks),
        tellable(metrics.base_len as int, edge),
        0 <= i < peaks.len(),
    ensures
        ({
            let tip = metrics.base_len + peaks[i].fade@[0];
            let target = column_targets(metrics, baseline, humps, peaks, edge)[peaks[i].column as int];
            target >= tip || target == metrics.max_len
        }),
{
    assert(stands(metrics.base_len as int, baseline.len() as int, peaks[i]));
    let longest = law_target_is_longest_asked(
        metrics,
        baseline,
        humps,
        peaks,
        edge,
        peaks[i].column as int,
    );
    assert(longest >= metrics.base_len + peaks[i].fade@[0]);
}

/// One draw gives one control point of the baseline, until there is one for every
/// fourteen columns and two more; then decides one column, or the rise of the one
/// that the draw before it made a peak; and gives one control point of the bands
/// when all columns are through. A column becomes a peak if its draw is a multiple
/// of fifty.
pub proof fn law_draw_goes_where_it_is_due(v: PlanView, draw: i32)
    requires
        v.wf(),
    ensures
        ({
            let next = v.fed(draw);
            let points = v.width / 14 + 2;
            let remainder = |m: int|
                if m < 1 {
                    0
                } else if draw >= 0 {
                    draw as int % m
                } else {
                    -((-(draw as int)) % m)
                };
            &&& v.baseline.len() < points ==> next == (PlanView {
                baseline: v.baseline.push(remainder(v.jitter) as i32),
                ..v
            })
            &&& v.baseline.len() >= points && v.column < v.width && !v.rising && draw % 50 == 0
                ==> next == (PlanView { rising: true, ..v })
            &&& v.baseline.len() >= points && v.column < v.width && !v.rising && draw % 50 != 0
                ==> next == (PlanView { column: v.column + 1, ..v })
            &&& v.baseline.len() >= points && v.column < v.width && v.rising ==> {
                &&& next == (PlanView {
                    peaks: next.peaks,
                    rising: false,
                    column: v.column + 1,
                    ..v
                })
                &&& next.peaks.drop_last() == v.peaks
                &&& next.peaks.len() == v.peaks.len() + 1
                &&& next.peaks.last().column == v.column
                &&& next.peaks.last().rise == v.span / 2 + remainder(v.span / 2)
            }
            &&& v.baseline.len() >= points && v.column >= v.width ==> next == (PlanView {
                bands: v.bands.push(remainder(v.band_px) as i32),
                ..v
            })
        }),
{
    let next = v.fed(draw);
    if v.baseline.len() >= v.points() && v.column < v.width && v.rising {
        assert(next.peaks.drop_last() =~= v.peaks);
    }
}

/// A plan is complete when it has a control point for every fourteen columns and
/// two more, for the baseline and for the bands, and every column is decided.
pub proof fn law_complete_plan_covers_screen(v: PlanView)
    requires
        v.wf(),
    ensures
        !v.wants() <==> v.baseline.len() == v.width / 14 + 2 && v.bands.len() == v.width / 14 + 2
            && v.column == v.width,
{
}

/// A draw below zero is brought below the amplitude with its sign.
pub proof fn law_negative_draw_keeps_its_sign(draw: int, amplitude: int)
    requires
        draw < 0,
        amplitude >= 1,
    ensures
        scaled_draw(draw, amplitude) == -((-draw) % amplitude),
{
}

/// A peak can rise by what the tallest has over a resting column, or by one.
pub proof fn law_span_is_reach_or_one(metrics: BleedMetrics)
    ensures
        metrics.max_len - metrics.base_len >= 1 ==> metrics.span() == metrics.max_len
            - metrics.base_len,
        metrics.max_len - metrics.base_len < 1 ==> metrics.span() == 1,
{
}

/// A curve has a point for every column, between the control point at or before
/// it and the next one.
pub proof fn law_span_lies_between_its_points(ctrl: Seq<i32>, width: int, step: int, x: int)
    requires
        1 <= step <= usize::MAX,
        0 <= x < width,
    ensures
        spans_of(ctrl, width, step).len() == width,
        spans_of(ctrl, width, step)[x].from == ctrl[x / step],
        spans_of(ctrl, width, step)[x].to == ctrl[x / step + 1],
        spans_of(ctrl, width, step)[x].phase == x % step,
{
    lemma_cell(x, step);
}

} // verus!
