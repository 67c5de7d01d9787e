use doom_render::wipe::{step_is_due, Wipe, OPAQUE_BLACK};
use std::time::Instant;

const W: usize = 8;
const H: usize = 200;
const PITCH: usize = 10;
const NEW: u32 = 0xFF00_0007;

/// The colour of the old frame at a place.
fn earlier(row: usize, col: usize) -> u32 {
    0xFF10_0000 + (row * W + col) as u32
}

/// A wipe that has been started, with an old frame drawn into it.
fn started(draws: &[i32]) -> Wipe {
    let mut wipe = Wipe::new(W as i32, H as i32, draws);
    wipe.start();
    let snapshot = wipe.snapshot_mut();
    for row in 0..H {
        for col in 0..W {
            snapshot[row * W + col] = earlier(row, col);
        }
    }
    wipe
}

fn surface() -> Vec<u32> {
    vec![NEW; PITCH * H]
}

/// Draws that start every column at the top of the screen.
fn level_draws() -> Vec<i32> {
    vec![0, 1, 1, 1, 1, 1, 1, 1]
}

#[test]
fn steps_are_sixteen_milliseconds_apart() {
    assert!(!step_is_due(0));
    assert!(!step_is_due(15));
    assert!(step_is_due(16));
    assert!(step_is_due(1000));
}

#[test]
fn start_clears_the_old_frame_to_black() {
    let mut wipe = Wipe::new(W as i32, H as i32, &level_draws());
    assert!(!wipe.is_wiping());
    assert!(wipe.snapshot_mut().is_empty());
    wipe.start();
    assert!(wipe.is_wiping());
    assert_eq!(wipe.snapshot_mut().len(), W * H);
    assert!(wipe.snapshot_mut().iter().all(|&c| c == OPAQUE_BLACK));
    let mut buf = surface();
    wipe.melt(&mut buf, PITCH, false);
    assert!(buf.iter().all(|&c| c == NEW || c == OPAQUE_BLACK));
}

#[test]
fn first_frame_covers_all_blocks_but_the_last() {
    let mut wipe = started(&level_draws());
    let mut buf = surface();
    assert!(!wipe.melt(&mut buf, PITCH, false));
    for row in 0..H {
        for col in 0..PITCH {
            let want = if col < 6 { earlier(row, col) } else { NEW };
            assert_eq!(buf[row * PITCH + col], want);
        }
    }
}

/// How far the old frame has come down in a column, as a melt draws it.
fn depth(wipe: &mut Wipe, col: usize) -> usize {
    let mut buf = surface();
    wipe.melt(&mut buf, PITCH, false);
    (0..H).take_while(|&row| buf[row * PITCH + col] == NEW).count()
}

#[test]
fn columns_fall_faster_then_evenly() {
    let mut wipe = started(&level_draws());
    let mut depths = Vec::new();
    for _ in 0..8 {
        depths.push(depth(&mut wipe, 3));
        wipe.melt(&mut surface(), PITCH, true);
    }
    assert_eq!(depths, vec![0, 2, 6, 14, 30, 38, 46, 54]);
}

#[test]
fn old_frame_moves_down_unchanged() {
    let mut wipe = started(&level_draws());
    wipe.melt(&mut surface(), PITCH, true);
    wipe.melt(&mut surface(), PITCH, true);
    let mut buf = surface();
    wipe.melt(&mut buf, PITCH, true);
    for row in 0..H {
        let want = if row < 6 { NEW } else { earlier(row - 6, 4) };
        assert_eq!(buf[row * PITCH + 4], want);
    }
}

#[test]
fn melt_ends_after_its_last_step() {
    let mut wipe = started(&level_draws());
    for _ in 0..26 {
        assert!(!wipe.is_melted());
        assert!(!wipe.melt(&mut surface(), PITCH, true));
    }
    assert!(wipe.is_melted());
    let mut buf = surface();
    assert!(wipe.melt(&mut buf, PITCH, true));
    assert_eq!(buf, surface());
    // A finished wipe rests.
    assert!(wipe.melt(&mut buf, PITCH, true));
    assert_eq!(buf, surface());
}

#[test]
fn waiting_columns_stand_still() {
    // Every column starts five rows above the screen.
    let mut wipe = started(&[5, 1, 1, 1, 1, 1, 1, 1]);
    for _ in 0..5 {
        assert_eq!(depth(&mut wipe, 0), 0);
        wipe.melt(&mut surface(), PITCH, true);
    }
    assert_eq!(depth(&mut wipe, 0), 0);
    wipe.melt(&mut surface(), PITCH, true);
    assert_eq!(depth(&mut wipe, 0), 2);
}

#[test]
fn starting_offsets_follow_the_draws() {
    // Offsets 0, -1, -2, ..: the blocks start one after the other.
    let mut wipe = started(&[0; 8]);
    for _ in 0..3 {
        wipe.melt(&mut surface(), PITCH, true);
    }
    assert_eq!(depth(&mut wipe, 0), 14);
    assert_eq!(depth(&mut wipe, 2), 2);
    assert_eq!(depth(&mut wipe, 4), 0);
    // Draws of two move up to the top and stay there.
    let mut wipe = started(&[1, 2, 2, 2, 2, 2, 2, 2]);
    wipe.melt(&mut surface(), PITCH, true);
    assert_eq!(depth(&mut wipe, 0), 0);
    assert_eq!(depth(&mut wipe, 2), 2);
}

#[test]
fn redrawing_does_not_step() {
    let mut wipe = started(&level_draws());
    wipe.melt(&mut surface(), PITCH, true);
    let mut once = surface();
    wipe.melt(&mut once, PITCH, false);
    let mut twice = once.clone();
    wipe.melt(&mut twice, PITCH, false);
    assert_eq!(once, twice);
}

#[test]
fn reset_ends_the_wipe_and_draws_new_offsets() {
    let mut wipe = started(&level_draws());
    wipe.melt(&mut surface(), PITCH, true);
    wipe.reset(&[3, 1, 1, 1, 1, 1, 1, 1]);
    assert!(!wipe.is_wiping());
    wipe.start();
    for _ in 0..4 {
        wipe.melt(&mut surface(), PITCH, true);
    }
    assert_eq!(depth(&mut wipe, 0), 2);
}

#[test]
fn clock_lets_a_wipe_run_in_its_own_time() {
    let begun = Instant::now();
    let mut wipe = started(&level_draws());
    let mut buf = surface();
    while !wipe.do_melt_pixels(&mut buf, PITCH) {
        assert!(begun.elapsed().as_secs() < 15);
    }
    // Twenty-six steps, sixteen milliseconds each.
    assert!(begun.elapsed().as_millis() >= 416);
}

#[test]
fn high_resolution_melts_wider_blocks_twice_as_fast() {
    let (w, h) = (12usize, 400usize);
    let mut wipe = Wipe::new(12, 400, &[0, 1, 1, 1, 1, 1, 1, 1, 1, 1, 1, 1]);
    wipe.start();
    let mut depths = Vec::new();
    for _ in 0..6 {
        let mut buf = vec![NEW; w * h];
        wipe.melt(&mut buf, w, true);
        depths.push((0..h).take_while(|&row| buf[row * w + 7] == NEW).count());
        assert!((0..h).all(|row| buf[row * w + 8] == NEW));
    }
    assert_eq!(depths, vec![0, 4, 12, 28, 60, 76]);
}

#[test]
fn low_screens_do_not_melt() {
    let (w, h) = (4usize, 150usize);
    let mut wipe = Wipe::new(4, 150, &[3, 1, 1, 1]);
    wipe.start();
    for _ in 0..200 {
        let mut buf = vec![NEW; w * h];
        assert!(!wipe.melt(&mut buf, w, true));
        assert!((0..h).all(|row| buf[row * w] == OPAQUE_BLACK));
    }
}

#[test]
fn padded_and_tight_surfaces_show_the_same() {
    let mut wipe = started(&[7, 0, 2, 1, 0, 2, 2, 1]);
    for _ in 0..12 {
        let mut padded = surface();
        let mut tight = vec![NEW; W * H];
        wipe.melt(&mut padded, PITCH, false);
        wipe.melt(&mut tight, W, true);
        for row in 0..H {
            assert_eq!(&padded[row * PITCH..row * PITCH + W], &tight[row * W..row * W + W]);
        }
    }
}

#[test]
fn redraw_before_the_interval_does_not_step() {
    let mut wipe = started(&level_draws());
    let now = Instant::now();
    for elapsed in [0, 1, 15] {
        let mut buf = surface();
        assert!(!wipe.melt_after(&mut buf, PITCH, elapsed, now));
        assert_eq!(buf[0], earlier(0, 0));
        assert_eq!(depth(&mut wipe, 0), 0);
    }
    wipe.melt_after(&mut surface(), PITCH, 16, now);
    assert_eq!(depth(&mut wipe, 0), 2);
    wipe.melt_after(&mut surface(), PITCH, 1_000_000, now);
    assert_eq!(depth(&mut wipe, 0), 6);
}

#[test]
fn step_restarts_the_wait() {
    let mut wipe = started(&level_draws());
    let begun = Instant::now();
    wipe.start_at(begun);
    while begun.elapsed().as_millis() < 60 {}
    // A step is overdue by the clock; one taken now puts the next one off.
    let step = Instant::now();
    wipe.melt_after(&mut surface(), PITCH, 60, step);
    wipe.do_melt_pixels(&mut surface(), PITCH);
    if step.elapsed().as_millis() < 16 {
        assert_eq!(depth(&mut wipe, 0), 2);
    }
    // One that is only redrawn does not.
    let mut wipe = started(&level_draws());
    wipe.start_at(begun);
    wipe.melt_after(&mut surface(), PITCH, 0, Instant::now());
    wipe.do_melt_pixels(&mut surface(), PITCH);
    assert_eq!(depth(&mut wipe, 0), 2);
}

/// Steps until nothing of the old frame is left.
fn steps(width: i32, height: i32, draws: &[i32]) -> usize {
    let mut wipe = Wipe::new(width, height, draws);
    wipe.start();
    let mut count = 0;
    while !wipe.is_melted() {
        let mut buf = vec![NEW; (width * height) as usize];
        wipe.melt(&mut buf, width as usize, true);
        count += 1;
    }
    count
}

#[test]
fn melts_take_their_time() {
    let level = [0, 1, 1, 1, 1, 1, 1, 1];
    let late = [15, 1, 1, 1, 1, 1, 1, 1];
    assert_eq!(steps(8, 200, &level), 26);
    assert_eq!(steps(8, 200, &late), 41);
    assert_eq!(steps(8, 400, &level), 26);
    assert_eq!(steps(8, 400, &late), 34);
    for first in 0..16 {
        let draws = [first, 0, 2, 2, 0, 1, 2, 0];
        let low = steps(8, 200, &draws);
        assert!(26 <= low && low <= 41);
        let high = steps(8, 400, &draws);
        assert!(26 <= high && high <= 34);
    }
}

#[test]
fn reset_takes_a_wipe_of_any_height() {
    let mut wipe = Wipe::new(4, -1, &[0, 1, 1, 1]);
    wipe.reset(&[3, 1, 1, 1]);
    assert!(!wipe.is_wiping());
}
