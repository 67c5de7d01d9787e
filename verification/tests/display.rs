use doom_render::display::{
    acquire_step, in_pixels, texture_format, window_state, AcquireStep, DisplayBackend, Extent,
    FrameSetup, FullscreenAction, FullscreenMode, Monitor, PixelsDisplay, Sdl2Display, SizeSync,
    SoftbufferDisplay, TextureFormat, WgpuDisplay, WindowState,
};
use doom_render::post::PostEffect;

fn extent(width: u32, height: u32) -> Extent {
    Extent { width, height }
}

#[test]
fn modes_one_and_two_leave_the_window() {
    assert_eq!(FullscreenMode::from_mode(0), FullscreenMode::Windowed);
    assert_eq!(FullscreenMode::from_mode(1), FullscreenMode::Borderless);
    assert_eq!(FullscreenMode::from_mode(2), FullscreenMode::Exclusive);
    assert_eq!(FullscreenMode::from_mode(3), FullscreenMode::Windowed);
    assert_eq!(FullscreenMode::from_mode(255), FullscreenMode::Windowed);
}

#[test]
fn exclusive_mode_needs_a_video_mode() {
    let (missing, bare, ready) = (Monitor::Missing, Monitor::Bare, Monitor::Ready);
    assert_eq!(window_state(0, ready, ready), WindowState::Windowed);
    assert_eq!(window_state(1, missing, missing), WindowState::Borderless);
    assert_eq!(window_state(2, ready, bare), WindowState::ExclusiveOnCurrent);
    assert_eq!(window_state(2, bare, ready), WindowState::Windowed);
    assert_eq!(window_state(2, missing, ready), WindowState::ExclusiveOnPrimary);
    assert_eq!(window_state(2, missing, bare), WindowState::Windowed);
    assert_eq!(window_state(2, missing, missing), WindowState::Windowed);
}

#[test]
fn texture_formats_go_by_pixel_size() {
    assert_eq!(texture_format(4), Some(TextureFormat::Rgb888));
    assert_eq!(texture_format(2), Some(TextureFormat::Rgb565));
    assert_eq!(texture_format(1), None);
    assert_eq!(texture_format(8), None);
    assert_eq!(in_pixels(1284, 4), 321);
    assert_eq!(in_pixels(7, 2), 3);
}

#[test]
fn sdl2_texture_is_created_on_change_only() {
    let mut display = Sdl2Display::from_canvas(extent(800, 600));
    assert_eq!(display.tex_format, None);
    assert_eq!(display.crop, extent(800, 600));
    let first = extent(320, 200);
    assert!(display.ensure_texture(first, TextureFormat::Rgb888, extent(1024, 768)));
    assert_eq!(display.crop, extent(1024, 768));
    assert!(!display.ensure_texture(first, TextureFormat::Rgb888, extent(640, 480)));
    assert_eq!(display.crop, extent(1024, 768));
    assert!(display.ensure_texture(first, TextureFormat::Rgb565, extent(640, 480)));
    assert!(display.ensure_texture(extent(320, 400), TextureFormat::Rgb565, extent(640, 480)));
    assert_eq!(display.tex_size, extent(320, 400));
    assert_eq!(display.tex_format, Some(TextureFormat::Rgb565));
}

#[test]
fn each_backend_changes_fullscreen_its_own_way() {
    let sdl = DisplayBackend::Sdl2(Sdl2Display::from_canvas(extent(1, 1)));
    let soft = DisplayBackend::Softbuffer(SoftbufferDisplay {});
    let pixels = DisplayBackend::Pixels(PixelsDisplay::new(extent(1, 1)));
    let ready = Monitor::Ready;
    assert_eq!(
        sdl.set_fullscreen(2, ready, ready),
        FullscreenAction::Sdl2(FullscreenMode::Exclusive)
    );
    for winit in [soft, pixels] {
        assert_eq!(
            winit.set_fullscreen(2, ready, ready),
            FullscreenAction::Winit(WindowState::ExclusiveOnCurrent)
        );
    }
}

#[test]
fn each_backend_sets_up_a_frame_its_own_way() {
    let frame = extent(320, 200);
    let area = extent(1600, 1200);
    let mut sdl = DisplayBackend::Sdl2(Sdl2Display::from_canvas(extent(800, 600)));
    assert_eq!(sdl.render_frame(frame, area), FrameSetup::Sdl2 { create: true, crop: area });
    assert_eq!(
        sdl.render_frame(frame, extent(9, 9)),
        FrameSetup::Sdl2 { create: false, crop: area }
    );
    let mut soft = DisplayBackend::Softbuffer(SoftbufferDisplay {});
    assert_eq!(soft.render_frame(frame, area), FrameSetup::Softbuffer { surface: frame });
    assert_eq!(
        soft.render_frame(extent(0, 5), area),
        FrameSetup::Softbuffer { surface: extent(1, 5) }
    );
    let mut pixels = DisplayBackend::Pixels(PixelsDisplay::new(area));
    assert_eq!(
        pixels.render_frame(frame, area),
        FrameSetup::Pixels { resize: true, surface: area }
    );
    assert_eq!(
        pixels.render_frame(frame, extent(0, 0)),
        FrameSetup::Pixels { resize: false, surface: extent(0, 0) }
    );
}

#[test]
fn wgpu_display_starts_as_large_as_its_window() {
    let display = WgpuDisplay::new(extent(0, 3), vec![PostEffect::Crt]);
    assert_eq!(display.surface_size, extent(1, 3));
    assert_eq!(display.frame.size, extent(1, 3));
    assert_eq!(display.frame.scratch, vec![0, 0, 0]);
    assert_eq!(display.frame.bytes_per_row(), 4);
    assert_eq!(display.chain.kinds(), &[PostEffect::Crt]);
}

#[test]
fn wgpu_display_follows_buffer_and_window() {
    let window = extent(800, 600);
    let mut display = WgpuDisplay::new(window, Vec::new());
    let buffer = extent(2, 2);
    let sync = display.sync_sizes(buffer, window);
    assert_eq!(
        sync,
        SizeSync { frame_changed: true, surface_changed: false, rebuild_chain: true }
    );
    assert_eq!(display.frame.scratch.len(), 4);
    display.frame.scratch[3] = 9;
    let sync = display.sync_sizes(buffer, window);
    assert_eq!(
        sync,
        SizeSync { frame_changed: false, surface_changed: false, rebuild_chain: false }
    );
    assert_eq!(display.frame.scratch, vec![0, 0, 0, 9]);
    let sync = display.sync_sizes(buffer, extent(0, 600));
    assert_eq!(
        sync,
        SizeSync { frame_changed: false, surface_changed: true, rebuild_chain: true }
    );
    assert_eq!(display.surface_size, extent(1, 600));
}

#[test]
fn lost_surface_is_retried_once() {
    assert_eq!(acquire_step(true, false), AcquireStep::Draw);
    assert_eq!(acquire_step(true, true), AcquireStep::Draw);
    assert_eq!(acquire_step(false, false), AcquireStep::Reconfigure);
    assert_eq!(acquire_step(false, true), AcquireStep::DropFrame);
}
