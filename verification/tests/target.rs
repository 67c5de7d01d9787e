use doom_render::bleed::BleedProfile;
use doom_render::display::{
    DisplayBackend, Extent, FrameSetup, FullscreenAction, Monitor, PixelsDisplay, Sdl2Display,
    SoftbufferDisplay, WindowState,
};
use doom_render::draw::{DrawBuffer, PALETTE_COLOURS};
use doom_render::target::{buffer_height, RenderTarget, RenderType};
use doom_render::wipe::OPAQUE_BLACK;
use std::time::Instant;

const W: usize = 320;
const H: usize = 200;
const PITCH: usize = 330;
const BACK: u32 = 0xFF22_2222;

fn softbuffer() -> DisplayBackend {
    DisplayBackend::Softbuffer(SoftbufferDisplay {})
}

/// Draws that start every column of a wipe at the top of the screen.
fn level_draws(width: usize) -> Vec<i32> {
    let mut draws = vec![1; width];
    draws[0] = 0;
    draws
}

fn target() -> RenderTarget {
    RenderTarget::new(false, W as u32, softbuffer(), RenderType::Software, &level_draws(W))
}

fn palette() -> Vec<u32> {
    (0..PALETTE_COLOURS as u32).map(|i| 0xFF00_0000 + i).collect()
}

fn palettes_flat() -> Vec<u32> {
    (0..4 * PALETTE_COLOURS as u32).map(|i| 0xFF00_0000 + (i / 256) * 0x1000 + i % 256).collect()
}

fn surface() -> Vec<u32> {
    vec![BACK; PITCH * H]
}

fn profile() -> BleedProfile {
    BleedProfile { target: vec![200; W], band_noise: vec![0; W], band_px: 4 }
}

#[test]
fn buffer_is_two_or_four_hundred_rows() {
    assert_eq!(buffer_height(false), 200);
    assert_eq!(buffer_height(true), 400);
    let narrow = RenderTarget::new(
        true,
        100,
        softbuffer(),
        RenderType::Software3D,
        &level_draws(400),
    );
    assert_eq!(narrow.frame_size(), Extent { width: 400, height: 400 });
    assert_eq!(narrow.render_type(), RenderType::Software3D);
    assert_eq!(target().frame_size(), Extent { width: 320, height: 200 });
    assert_eq!(RenderType::default(), RenderType::Software);
}

#[test]
fn status_bar_scales_with_resolution() {
    let mut low = target();
    assert_eq!(low.set_statusbar_height(32), 168);
    assert_eq!(low.buffer_size().statusbar_height(), 32);
    let mut high =
        RenderTarget::new(true, 640, softbuffer(), RenderType::Software, &level_draws(640));
    assert_eq!(high.set_statusbar_height(32), 336);
    assert_eq!(high.buffer_size().statusbar_height(), 64);
}

#[test]
fn resize_starts_blank_on_the_same_display() {
    let display = DisplayBackend::Pixels(PixelsDisplay::new(Extent { width: 800, height: 600 }));
    let mut first =
        RenderTarget::new(false, 320, display, RenderType::Software, &level_draws(W));
    first.set_statusbar_height(32);
    first.prepare_frame(Extent { width: 800, height: 600 });
    let mut new = first.resize(true, 700, RenderType::Software3D, &level_draws(700));
    assert_eq!(new.buffer_size().width(), 700);
    assert_eq!(new.buffer_size().statusbar_height(), 0);
    assert_eq!(new.render_type(), RenderType::Software3D);
    let area = Extent { width: 800, height: 600 };
    assert_eq!(new.prepare_frame(area), FrameSetup::Pixels { resize: true, surface: area });
    assert_eq!(new.prepare_frame(area), FrameSetup::Pixels { resize: false, surface: area });
}

#[test]
fn fullscreen_goes_to_the_display() {
    let action = target().set_fullscreen(2, Monitor::Missing, Monitor::Ready);
    assert_eq!(action, FullscreenAction::Winit(WindowState::ExclusiveOnPrimary));
}

#[test]
fn frame_asks_for_its_setup() {
    let drawable = Extent { width: 1280, height: 960 };
    let mut sdl = RenderTarget::new(
        false,
        W as u32,
        DisplayBackend::Sdl2(Sdl2Display::from_canvas(drawable)),
        RenderType::Software,
        &level_draws(W),
    );
    let setup = sdl.prepare_frame(drawable);
    assert_eq!(setup, FrameSetup::Sdl2 { create: true, crop: drawable });
    let larger = Extent { width: 1600, height: 1200 };
    assert_eq!(sdl.prepare_frame(larger), FrameSetup::Sdl2 { create: false, crop: drawable });
}

#[test]
fn scene_resolves_into_the_surface() {
    let mut target = target();
    let mut surface = surface();
    {
        let mut frame = target.frame(&mut surface, PITCH);
        frame.set_index(5, 7, 99);
        frame.scene_drawn(true);
        frame.finish_scene(&palette(), &palettes_flat(), 0);
        assert_eq!(frame.read_pixel(5, 7), 0xFF00_0063);
        assert_eq!(frame.read_pixel(0, 0), 0xFF00_0000);
    }
    assert_eq!(surface[7 * PITCH + 5], 0xFF00_0063);
    assert_eq!(surface[W], BACK);
    // The index plane is reused across frames.
    let mut frame = target.frame(&mut surface, PITCH);
    assert_eq!(frame.index_mut()[7 * W + 5], 99);
}

#[test]
fn direct_scene_is_not_resolved() {
    let mut target = target();
    let mut surface = surface();
    let mut frame = target.frame(&mut surface, PITCH);
    frame.set_pixel(1, 1, 0xFF12_3456);
    frame.scene_drawn(false);
    frame.finish_scene(&palette(), &palettes_flat(), 0);
    assert_eq!(frame.read_pixel(1, 1), 0xFF12_3456);
    assert_eq!(frame.read_pixel(0, 0), BACK);
}

#[test]
fn hurt_frame_is_tinted_from_the_top() {
    let mut target = target();
    let mut surface = surface();
    {
        let mut frame = target.frame(&mut surface, PITCH);
        assert!(frame.needs_bleed_profile());
        frame.set_health_bleed(50, Some(profile()));
        assert!(!frame.needs_bleed_profile());
        frame.finish_scene(&palette(), &palettes_flat(), 0);
        assert_eq!(frame.read_pixel(3, 0), 0xFF00_3000);
        assert_eq!(frame.read_pixel(3, 99), 0xFF00_1000);
        assert_eq!(frame.read_pixel(3, 100), 0xFF00_0000);
        frame.set_health_bleed(100, None);
        frame.finish_scene(&palette(), &palettes_flat(), 0);
        assert_eq!(frame.read_pixel(3, 0), 0xFF00_0000);
    }
    target.reset_health_bleed();
    let frame = target.frame(&mut surface, PITCH);
    assert!(frame.needs_bleed_profile());
}

#[test]
fn wipe_melts_the_old_frame_over_the_new_one() {
    let mut target = target();
    let mut surface = surface();
    assert!(!target.is_wiping());
    {
        let mut frame = target.frame(&mut surface, PITCH);
        frame.set_index(2, 0, 17);
        frame.start_wipe();
        frame.resolve_index_into_wipe(&palette());
        {
            let mut buf = frame.wipe_buffer();
            assert_eq!(buf.read_pixel(2, 0), 0xFF00_0011);
            buf.set_pixel(3, 0, 0xFF44_4444);
        }
        // A wipe that is on goes on.
        frame.start_wipe();
        assert_eq!(frame.wipe_buffer().read_pixel(3, 0), 0xFF44_4444);
        assert!(!frame.wipe_is_melted());
        assert!(!frame.do_wipe(&[]));
        assert_eq!(frame.read_pixel(2, 0), 0xFF00_0011);
        assert_eq!(frame.read_pixel(3, 0), 0xFF44_4444);
        assert_eq!(frame.read_pixel(W - 1, 0), BACK);
    }
    assert!(target.is_wiping());
    let mut frame = target.frame(&mut surface, PITCH);
    while !frame.wipe_is_melted() {
        assert!(!frame.do_wipe(&[]));
    }
    assert!(frame.do_wipe(&level_draws(W)));
    assert!(!target.is_wiping());
}

#[test]
fn fresh_wipe_is_opaque_black() {
    let mut target = target();
    let mut surface = surface();
    let mut frame = target.frame(&mut surface, PITCH);
    frame.start_wipe();
    assert_eq!(frame.wipe_buffer().read_pixel(100, 150), OPAQUE_BLACK);
    frame.do_wipe(&[]);
    assert_eq!(frame.read_pixel(100, 150), OPAQUE_BLACK);
}

#[test]
fn old_frame_is_resolved_without_the_bleed() {
    let mut target = target();
    let mut surface = surface();
    let mut frame = target.frame(&mut surface, PITCH);
    frame.set_health_bleed(0, Some(profile()));
    frame.set_index(4, 6, 33);
    frame.start_wipe();
    frame.resolve_index_into_wipe(&palette());
    {
        let buf = frame.wipe_buffer();
        assert_eq!(buf.read_pixel(4, 6), 0xFF00_0021);
        assert_eq!(buf.read_pixel(0, 0), 0xFF00_0000);
        assert_eq!(buf.read_pixel(W - 1, H - 1), 0xFF00_0000);
    }
    assert_eq!(frame.read_pixel(4, 6), BACK);
    // The frame itself is tinted.
    frame.finish_scene(&palette(), &palettes_flat(), 0);
    assert_eq!(frame.read_pixel(4, 6), 0xFF00_3021);
}

#[test]
fn hurt_frame_keeps_its_palette_below_the_bleed() {
    let mut target = target();
    let mut surface = surface();
    let mut frame = target.frame(&mut surface, PITCH);
    frame.set_health_bleed(50, Some(profile()));
    frame.set_index(9, 150, 5);
    frame.finish_scene(&palette(), &palettes_flat(), 2);
    assert_eq!(frame.read_pixel(9, 0), 0xFF00_3000);
    assert_eq!(frame.read_pixel(9, 150), 0xFF00_2005);
}

#[test]
fn wipe_of_a_frame_steps_when_it_is_due() {
    let mut target = target();
    let mut surface = surface();
    let mut frame = target.frame(&mut surface, PITCH);
    frame.start_wipe();
    let now = Instant::now();
    assert!(!frame.do_wipe_after(&[], 15, now));
    frame.buf_mut()[0] = BACK;
    assert!(!frame.do_wipe_after(&[], 15, now));
    assert_eq!(frame.read_pixel(0, 0), OPAQUE_BLACK);
    assert!(!frame.do_wipe_after(&[], 16, now));
    frame.buf_mut()[0] = BACK;
    assert!(!frame.do_wipe_after(&[], 0, now));
    assert_eq!(frame.read_pixel(0, 0), BACK);
    while !frame.wipe_is_melted() {
        assert!(!frame.do_wipe_after(&[], 16, now));
    }
    assert!(frame.do_wipe_after(&level_draws(W), 0, now));
    assert!(!target.is_wiping());
}
