use doom_render::bleed::{
    BleedProfile, HealthBleed, ScreenEffect, BLEED_PAL_COUNT, BLEED_PAL_START,
};
use doom_render::shape::{BleedMetrics, BleedPlan, NoiseSpan, Spike, BLEED_NOISE_STEP, BLEED_SPIKE};

const W: usize = 64;
const H: usize = 120;

/// Random numbers in `0..256`.
struct Random {
    state: u32,
}

impl Random {
    fn draw(&mut self) -> i32 {
        self.state = self.state.wrapping_mul(1664525).wrapping_add(1013904223);
        (self.state >> 24) as i32
    }
}

fn metrics(height: usize) -> BleedMetrics {
    let h = height as f32;
    BleedMetrics {
        max_len: h as i32,
        base_len: (h * 0.03) as i32,
        jitter: (h * 0.24).max(1.0) as i32,
        band_px: (h * 0.02).max(1.0) as i32,
    }
}

fn interpolated(span: &NoiseSpan) -> i32 {
    let t = span.phase as f32 / BLEED_NOISE_STEP as f32;
    let t = (1.0 - (t * std::f32::consts::PI).cos()) * 0.5;
    (span.from as f32 + (span.to as f32 - span.from as f32) * t) as i32
}

/// What is left of a rise at each distance from the tip of a peak.
fn faded(rise: i32) -> [i32; BLEED_SPIKE] {
    let mut fade = [0; BLEED_SPIKE];
    for (d, left) in fade.iter_mut().enumerate() {
        *left = (rise as f32 * (1.0 - 0.5 * d as f32 / 4.0)) as i32;
    }
    fade
}

fn profile(width: usize, height: usize, random: &mut Random) -> BleedProfile {
    let m = metrics(height);
    let mut plan = BleedPlan::new(width, &m);
    while plan.wants_draw() {
        plan.feed(random.draw());
    }
    let baseline: Vec<i32> = plan
        .baseline_spans()
        .iter()
        .map(|s| ((m.base_len + interpolated(s)) as f32 * 0.85) as i32)
        .collect();
    let humps: Vec<i32> = (0..=BLEED_NOISE_STEP)
        .map(|d| {
            let t = d as f32 / BLEED_NOISE_STEP as f32;
            let crest = (1.0 + (t * std::f32::consts::PI).cos()) * 0.5;
            (m.base_len as f32 + m.jitter as f32 * crest) as i32
        })
        .collect();
    let half_w = (width as f32 * 0.5).max(1.0);
    let peaks: Vec<Spike> = plan
        .peaks()
        .iter()
        .map(|p| {
            let edge = (p.column as f32 - half_w).abs() / half_w;
            let scale = 0.5 + 0.5 * edge.powf(2.0);
            Spike { column: p.column, fade: faded((p.rise as f32 * scale) as i32) }
        })
        .collect();
    let band_noise: Vec<i32> = plan.band_spans().iter().map(interpolated).collect();
    let edge = faded(m.max_len - m.base_len);
    BleedProfile::new(&m, baseline, &humps, &peaks, edge, band_noise)
}

fn update(v: &mut HealthBleed, health: i32, width: usize, height: usize) {
    let fresh = if v.needs_profile(width, height) {
        Some(profile(width, height, &mut Random { state: 7 }))
    } else {
        None
    };
    v.update(health, width, height, fresh);
}

/// Lit pixel count over the whole frame.
fn lit(v: &HealthBleed) -> usize {
    (0..H)
        .flat_map(|y| (0..W).map(move |x| (x, y as u16)))
        .filter(|&(x, y)| v.palette_offset(x, y, 0) != 0)
        .count()
}

/// Full health: inactive, no pixel tinted (columns zero-length).
#[test]
fn full_health_inactive() {
    let mut v = HealthBleed::default();
    update(&mut v, 100, W, H);
    assert!(!v.is_active());
    assert_eq!(lit(&v), 0);
}

/// Damage hangs columns from the top: row 0 of a column tints, the bottom
/// stays clear.
#[test]
fn damage_tints_top_not_bottom() {
    let mut v = HealthBleed::default();
    update(&mut v, 20, W, H);
    assert!(v.is_active());
    let top = v.palette_offset(0, 0, 0);
    assert!(top >= BLEED_PAL_START, "top of column tints");
    assert!(top < BLEED_PAL_START + BLEED_PAL_COUNT, "in red range");
    assert_eq!(v.palette_offset(0, H as u16 - 1, 0), 0, "bottom stays clear");
}

/// Lower health grows the columns (more lit pixels).
#[test]
fn lower_health_grows_columns() {
    let mut v = HealthBleed::default();
    update(&mut v, 80, W, H);
    let mid = lit(&v);
    update(&mut v, 20, W, H);
    let low = lit(&v);
    assert!(low > mid, "lower health => longer columns");
}

/// On average the palette lightens top → bottom (leading edge lightest).
#[test]
fn column_lightens_downward() {
    let mut v = HealthBleed::default();
    update(&mut v, 0, W, H);
    let row_mean = |y: u16| -> f32 {
        let sum: usize = (0..W).map(|x| v.palette_offset(x, y, 0)).sum();
        sum as f32 / W as f32
    };
    assert!(row_mean(0) > row_mean(H as u16 - 1), "top darker than bottom on average");
}

/// Restoring to 100 clears the effect.
#[test]
fn clears_when_restored() {
    let mut v = HealthBleed::default();
    update(&mut v, 10, W, H);
    assert!(v.is_active());
    update(&mut v, 100, W, H);
    assert!(!v.is_active());
    assert_eq!(lit(&v), 0);
}

fn three_columns() -> BleedProfile {
    BleedProfile { target: vec![100, 30, 9], band_noise: vec![0, 3, 1], band_px: 4 }
}

/// The palettes of a whole column.
fn column(v: &HealthBleed, x: usize, rows: u16, use_palette: usize) -> Vec<usize> {
    (0..rows).map(|y| v.palette_offset(x, y, use_palette)).collect()
}

#[test]
fn half_health_gives_exact_bands() {
    let mut v = HealthBleed::default();
    v.update(50, 3, 200, Some(three_columns()));
    assert!(v.is_active());
    // Fifty rows, bands of sixteen shifted by two.
    let tall = column(&v, 0, 52, 9);
    assert!(tall[..20].iter().all(|&p| p == 3));
    assert!(tall[20..36].iter().all(|&p| p == 2));
    assert!(tall[36..50].iter().all(|&p| p == 1));
    assert_eq!(&tall[50..], &[9, 9]);
    // Fifteen rows, bands of five shifted by one.
    assert_eq!(column(&v, 1, 16, 9), vec![3, 3, 3, 3, 2, 2, 2, 2, 2, 1, 1, 1, 1, 1, 1, 9]);
    // Four rows, bands of four shifted back by one.
    assert_eq!(column(&v, 2, 5, 9), vec![2, 1, 1, 1, 9]);
}

#[test]
fn leading_edge_is_the_lightest_whatever_the_noise() {
    let mut v = HealthBleed::default();
    let profile = BleedProfile { target: vec![10, 10, 1], band_noise: vec![0, 39, 0], band_px: 40 };
    v.update(0, 3, 2000, Some(profile));
    assert_eq!(v.palette_offset(0, 9, 0), 1);
    assert_eq!(v.palette_offset(1, 9, 0), 1);
    assert_eq!(v.palette_offset(2, 0, 0), 1);
}

#[test]
fn top_of_a_tall_column_is_the_darkest_whatever_the_noise() {
    let mut v = HealthBleed::default();
    // Three bands of five rows: the least that is tall.
    let profile = BleedProfile { target: vec![15; 3], band_noise: vec![0, 4, 2], band_px: 5 };
    v.update(0, 3, 250, Some(profile));
    assert_eq!(v.palette_offset(0, 0, 0), 3);
    assert_eq!(v.palette_offset(1, 0, 0), 3);
    // A short column may end before its last band.
    let short = BleedProfile { target: vec![11, 11, 11], band_noise: vec![4, 4, 4], band_px: 5 };
    v.reset();
    v.update(0, 3, 250, Some(short));
    assert_eq!(v.palette_offset(0, 0, 0), 2);
}

#[test]
fn column_is_a_share_of_its_full_length() {
    let mut v = HealthBleed::default();
    update(&mut v, 0, W, H);
    let full: Vec<usize> =
        (0..W).map(|x| column(&v, x, H as u16, 0).iter().filter(|&&p| p != 0).count()).collect();
    assert!(full.iter().all(|&n| n <= H));
    for health in [1, 33, 50, 99, 100] {
        update(&mut v, health, W, H);
        for x in 0..W {
            let n = full[x] * (100 - health as usize) / 100;
            for y in 0..H {
                assert_eq!(v.palette_offset(x, y as u16, 0) != 0, y < n);
                assert!(y < H * (100 - health as usize) / 100 || y >= n);
            }
        }
    }
}

#[test]
fn health_is_taken_between_zero_and_one_hundred() {
    let mut below = HealthBleed::default();
    below.update(-40, 3, 200, Some(three_columns()));
    let mut zero = HealthBleed::default();
    zero.update(0, 3, 200, Some(three_columns()));
    for x in 0..3 {
        assert_eq!(column(&below, x, 110, 0), column(&zero, x, 110, 0));
    }
    let mut above = HealthBleed::default();
    above.update(170, 3, 200, Some(three_columns()));
    assert!(!above.is_active());
    assert_eq!(column(&above, 0, 3, 5), vec![5, 5, 5]);
}

#[test]
fn pattern_is_kept_until_size_changes() {
    let mut v = HealthBleed::default();
    assert!(v.needs_profile(3, 200));
    v.update(50, 3, 200, Some(three_columns()));
    assert!(!v.needs_profile(3, 200));
    assert!(v.needs_profile(4, 200));
    assert!(v.needs_profile(3, 201));
    let before = column(&v, 0, 60, 0);
    // A pattern that is not due is not taken over.
    let other = BleedProfile { target: vec![1, 1, 1], band_noise: vec![0, 0, 0], band_px: 1 };
    v.update(50, 3, 200, Some(other));
    assert_eq!(column(&v, 0, 60, 0), before);
    v.update(75, 3, 200, None);
    assert_eq!(column(&v, 0, 60, 0).iter().filter(|&&p| p != 0).count(), 25);
}

#[test]
fn reset_asks_for_a_new_pattern() {
    let mut v = HealthBleed::default();
    v.update(0, 3, 200, Some(three_columns()));
    v.reset();
    assert!(v.needs_profile(3, 200));
    let other = BleedProfile { target: vec![2, 2, 2], band_noise: vec![0, 0, 0], band_px: 1 };
    v.update(0, 3, 200, Some(other));
    assert_eq!(column(&v, 0, 4, 0).iter().filter(|&&p| p != 0).count(), 2);
}

#[test]
fn new_size_forgets_the_old_pattern() {
    let mut used = HealthBleed::default();
    used.update(40, 5, 190, Some(BleedProfile {
        target: vec![80; 5],
        band_noise: vec![1; 5],
        band_px: 3,
    }));
    used.update(50, 3, 200, Some(three_columns()));
    let mut fresh = HealthBleed::default();
    fresh.update(50, 3, 200, Some(three_columns()));
    for x in 0..3 {
        assert_eq!(column(&used, x, 100, 0), column(&fresh, x, 100, 0));
    }
}

#[test]
fn bleed_of_no_columns_is_active_when_hurt() {
    let mut v = HealthBleed::default();
    let empty = BleedProfile { target: Vec::new(), band_noise: Vec::new(), band_px: 1 };
    v.update(30, 0, 100, Some(empty));
    assert!(v.is_active());
    assert!(v.needs_profile(0, 100));
}

#[test]
fn every_column_hangs_and_lightens() {
    let mut v = HealthBleed::default();
    update(&mut v, 35, W, H);
    for x in 0..W {
        let palettes = column(&v, x, H as u16, 0);
        for pair in palettes.windows(2) {
            assert!(pair[0] >= pair[1]);
        }
    }
}

#[test]
fn edge_columns_reach_the_whole_screen() {
    let mut v = HealthBleed::default();
    update(&mut v, 0, W, H);
    for x in [1, W - 2] {
        assert!(column(&v, x, H as u16, 0).iter().all(|&p| p != 0));
    }
}
