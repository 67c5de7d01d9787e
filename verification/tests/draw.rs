use doom_render::bleed::{BleedProfile, HealthBleed};
use doom_render::draw::{resolve_plane, DrawBuffer, SurfaceBuf, PALETTE_COLOURS};
use doom_render::size::BufferSize;

const W: usize = 4;
const H: usize = 3;
const PITCH: usize = 6;
const PAD: u32 = 0xFFAB_CDEF;

/// The colour that a palette gives to an index.
fn colour(palette: usize, idx: usize) -> u32 {
    0xFF00_0000 + (palette * 0x1000 + idx) as u32
}

fn palettes_flat() -> Vec<u32> {
    (0..4 * PALETTE_COLOURS).map(|i| colour(i / PALETTE_COLOURS, i % PALETTE_COLOURS)).collect()
}

fn palette(which: usize) -> Vec<u32> {
    (0..PALETTE_COLOURS).map(|i| colour(which, i)).collect()
}

/// A bleed two rows long in the first column, one row long in the second.
fn hurt() -> HealthBleed {
    let mut bleed = HealthBleed::default();
    let profile = BleedProfile { target: vec![2, 1, 0, 0], band_noise: vec![0; 4], band_px: 1 };
    bleed.update(0, W, H, Some(profile));
    bleed
}

fn index_plane() -> Vec<u8> {
    (0..W * H).map(|i| i as u8 * 10).collect()
}

#[test]
fn resolve_looks_up_the_palette() {
    let size = BufferSize::new(W, H);
    let bleed = HealthBleed::default();
    let mut surface = vec![PAD; PITCH * H];
    resolve_plane(&size, &mut surface, PITCH, &index_plane(), &bleed, &palette(0), &[], 0);
    for y in 0..H {
        for x in 0..PITCH {
            let want = if x < W { colour(0, (y * W + x) * 10) } else { PAD };
            assert_eq!(surface[y * PITCH + x], want);
        }
    }
}

#[test]
fn resolve_without_padding_fills_the_surface() {
    let size = BufferSize::new(W, H);
    let bleed = HealthBleed::default();
    let mut surface = vec![PAD; W * H + 1];
    resolve_plane(&size, &mut surface, W, &index_plane(), &bleed, &palette(2), &[], 2);
    let want: Vec<u32> = (0..W * H).map(|i| colour(2, i * 10)).collect();
    assert_eq!(&surface[..W * H], want.as_slice());
    assert_eq!(surface[W * H], PAD);
}

#[test]
fn active_bleed_picks_the_palette_of_each_pixel() {
    let size = BufferSize::new(W, H);
    let bleed = hurt();
    let mut surface = vec![PAD; PITCH * H];
    let flat = palettes_flat();
    resolve_plane(&size, &mut surface, PITCH, &index_plane(), &bleed, &palette(0), &flat, 0);
    // Column 0 is two rows long with bands of one row, column 1 one row.
    assert_eq!(surface[0], colour(2, 0));
    assert_eq!(surface[PITCH], colour(1, 40));
    assert_eq!(surface[2 * PITCH], colour(0, 80));
    assert_eq!(surface[1], colour(1, 10));
    assert_eq!(surface[PITCH + 1], colour(0, 50));
    assert_eq!(surface[2], colour(0, 20));
    assert_eq!(surface[W], PAD);
}

#[test]
fn active_bleed_leaves_the_rest_to_the_frames_palette() {
    let size = BufferSize::new(W, H);
    let bleed = hurt();
    let mut surface = vec![PAD; PITCH * H];
    let flat = palettes_flat();
    resolve_plane(&size, &mut surface, PITCH, &index_plane(), &bleed, &palette(3), &flat, 3);
    assert_eq!(surface[0], colour(2, 0));
    assert_eq!(surface[PITCH], colour(1, 40));
    assert_eq!(surface[2 * PITCH], colour(3, 80));
    assert_eq!(surface[1], colour(1, 10));
    assert_eq!(surface[2], colour(3, 20));
}

#[test]
fn pixels_read_back_as_written() {
    let size = BufferSize::new(W, H);
    let bleed = HealthBleed::default();
    let mut surface = vec![PAD; PITCH * H];
    let mut index = vec![0u8; W * H];
    let mut buf = SurfaceBuf {
        size: &size,
        surface: &mut surface,
        pitch: PITCH,
        index: &mut index,
        bleed: &bleed,
    };
    buf.set_pixel(1, 2, 0xFF11_2233);
    assert_eq!(buf.read_pixel(1, 2), 0xFF11_2233);
    assert_eq!(buf.read_pixel(2, 2), PAD);
    assert_eq!(buf.buf_mut()[2 * PITCH + 1], 0xFF11_2233);
    buf.buf_mut()[0] = 5;
    assert_eq!(buf.read_pixel(0, 0), 5);
    assert_eq!(buf.size().width_usize(), W);
}

#[test]
fn indices_are_laid_out_by_width() {
    let size = BufferSize::new(W, H);
    let bleed = HealthBleed::default();
    let mut surface = vec![PAD; PITCH * H];
    let mut index = vec![0u8; W * H];
    let mut buf = SurfaceBuf {
        size: &size,
        surface: &mut surface,
        pitch: PITCH,
        index: &mut index,
        bleed: &bleed,
    };
    assert_eq!(buf.pitch(), W);
    assert_eq!(buf.get_buf_index(3, 2), 11);
    buf.set_index(3, 2, 200);
    assert_eq!(buf.index_mut()[11], 200);
    buf.index_mut()[0] = 7;
    buf.resolve(&palette(0), &[], 0);
    assert_eq!(buf.read_pixel(3, 2), colour(0, 200));
    assert_eq!(buf.read_pixel(0, 0), colour(0, 7));
    // Resolving again changes nothing.
    let once = buf.buf_mut().to_vec();
    buf.resolve(&palette(0), &[], 0);
    assert_eq!(buf.buf_mut().to_vec(), once);
}

#[test]
fn base_palette_and_tints_have_every_colour() {
    let size = BufferSize::new(W, H);
    let mut bleed = HealthBleed::default();
    let profile = BleedProfile { target: vec![3; 4], band_noise: vec![0; 4], band_px: 1 };
    bleed.update(0, W, H, Some(profile));
    let index = vec![255u8; W * H];
    let mut surface = vec![PAD; W * H];
    resolve_plane(&size, &mut surface, W, &index, &bleed, &palette(0), &palettes_flat(), 0);
    assert_eq!(surface[0], colour(3, 255));
    assert_eq!(surface[W], colour(2, 255));
    assert_eq!(surface[2 * W], colour(1, 255));
}
