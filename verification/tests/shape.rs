use doom_render::shape::{
    build_column_targets, noise_spans, BleedMetrics, BleedPlan, Spike, BLEED_SPIKE,
};

fn metrics(max_len: i32, base_len: i32) -> BleedMetrics {
    BleedMetrics { max_len, base_len, jitter: 24, band_px: 2 }
}

#[test]
fn plan_turns_draws_into_points_and_peaks() {
    let mut plan = BleedPlan::new(3, &metrics(100, 3));
    let draws = [30, 47, 7, 100, 60, 51, 5, 4];
    for &draw in draws.iter() {
        assert!(plan.wants_draw());
        plan.feed(draw);
    }
    assert!(!plan.wants_draw());
    let spans = plan.baseline_spans();
    assert_eq!(spans.len(), 3);
    for (x, s) in spans.iter().enumerate() {
        assert_eq!((s.from, s.to, s.phase), (6, 23, x));
    }
    let peaks = plan.peaks();
    assert_eq!(peaks.len(), 1);
    assert_eq!((peaks[0].column, peaks[0].rise), (1, 60));
    for s in plan.band_spans().iter() {
        assert_eq!((s.from, s.to), (1, 0));
    }
}

#[test]
fn plan_without_peaks_takes_one_draw_per_column() {
    let mut plan = BleedPlan::new(30, &metrics(100, 3));
    let mut count = 0;
    while plan.wants_draw() {
        plan.feed(1);
        count += 1;
    }
    // Four control points, thirty columns, four control points.
    assert_eq!(count, 38);
    assert!(plan.peaks().is_empty());
}

#[test]
fn plan_of_peaks_takes_two_draws_per_column() {
    let mut plan = BleedPlan::new(30, &metrics(100, 3));
    let mut count = 0;
    while plan.wants_draw() {
        plan.feed(0);
        count += 1;
    }
    assert_eq!(count, 68);
    assert_eq!(plan.peaks().len(), 30);
    assert!(plan.peaks().iter().all(|p| p.rise == 48));
}

#[test]
fn flat_screen_still_has_a_span() {
    let mut plan = BleedPlan::new(1, &metrics(0, 0));
    while plan.wants_draw() {
        plan.feed(0);
    }
    assert_eq!(plan.peaks().len(), 1);
    assert_eq!(plan.peaks()[0].rise, 0);
}

#[test]
fn spans_lie_between_neighbouring_points() {
    let ctrl = vec![10, 20, 30, 40];
    let spans = noise_spans(&ctrl, 5, 2);
    let got: Vec<(i32, i32, usize)> = spans.iter().map(|s| (s.from, s.to, s.phase)).collect();
    assert_eq!(got, vec![(10, 20, 0), (10, 20, 1), (20, 30, 0), (20, 30, 1), (30, 40, 0)]);
    let steps = noise_spans(&vec![1, 2, 3], 1, 0);
    assert_eq!((steps[0].from, steps[0].to, steps[0].phase), (1, 2, 0));
}

/// Humps of twenty rows that lose one with every column.
fn humps() -> Vec<i32> {
    (0..15).map(|d| 20 - d).collect()
}

/// A peak that fades to half its rise in even steps.
fn peak(column: usize, rise: i32) -> Spike {
    Spike { column, fade: faded(rise) }
}

fn faded(rise: i32) -> [i32; BLEED_SPIKE] {
    [rise, rise * 7 / 8, rise * 6 / 8, rise * 5 / 8, rise / 2]
}

/// The targets of a screen whose edge peaks are of full height.
fn targets_of(m: &BleedMetrics, baseline: Vec<i32>, humps: &[i32], peaks: &[Spike]) -> Vec<u16> {
    build_column_targets(m, baseline, humps, peaks, faded(m.max_len - m.base_len))
}

#[test]
fn peaks_rise_out_of_the_baseline() {
    let peaks = [peak(10, 40)];
    let targets = targets_of(&metrics(80, 8), vec![10; 20], &humps(), &peaks);
    assert_eq!(
        targets,
        vec![71, 80, 71, 62, 53, 44, 28, 33, 38, 43, 48, 43, 38, 33, 44, 53, 62, 71, 80, 71]
    );
}

#[test]
fn columns_out_of_reach_keep_the_baseline() {
    let targets = targets_of(&metrics(80, 8), vec![10; 40], &humps(), &[]);
    assert_eq!(targets[20], 10);
    assert_eq!(targets[15], 10);
    assert_eq!(targets[8], 13);
    assert_eq!(targets[1], 80);
    assert_eq!(targets[38], 80);
}

#[test]
fn order_of_peaks_plays_no_part() {
    let one = [peak(12, 30), peak(14, 50)];
    let two = [peak(14, 50), peak(12, 30)];
    let m = metrics(80, 8);
    assert_eq!(
        targets_of(&m, vec![10; 30], &humps(), &one),
        targets_of(&m, vec![10; 30], &humps(), &two)
    );
}

#[test]
fn targets_stay_on_the_screen() {
    let m = metrics(80, 8);
    assert_eq!(targets_of(&m, vec![200], &humps(), &[]), vec![80]);
    assert_eq!(targets_of(&m, vec![-5], &humps(), &[]), vec![0]);
    assert!(targets_of(&m, Vec::new(), &humps(), &[]).is_empty());
    assert_eq!(targets_of(&m, vec![0, 0], &humps(), &[]), vec![80, 80]);
}

#[test]
fn very_high_screens_wrap_their_targets() {
    assert_eq!(targets_of(&metrics(70000, 0), vec![70000], &humps(), &[]), vec![4464]);
}

#[test]
fn falling_peaks_are_rounded_toward_zero() {
    let flat = vec![-100; 15];
    let peaks = [peak(10, -3)];
    let targets = targets_of(&metrics(50, 20), vec![0; 40], &flat, &peaks);
    assert_eq!(&targets[10..16], &[17, 18, 18, 19, 19, 0]);
}

#[test]
fn spikes_are_taken_as_they_fade() {
    let spike = Spike { column: 20, fade: [30, 4, 25, 0, 1] };
    let low = vec![-100; 15];
    let targets = build_column_targets(&metrics(80, 8), vec![2; 40], &low, &[spike], [50, 0, 0, 0, 0]);
    assert_eq!(&targets[15..26], &[2, 9, 8, 33, 12, 38, 12, 33, 8, 9, 2]);
    assert_eq!(targets[1], 58);
    assert_eq!(targets[38], 58);
}
