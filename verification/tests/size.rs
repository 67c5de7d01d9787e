use doom_render::size::{BufferSize, FUZZ_TABLE, STBAR_HEIGHT};

#[test]
fn low_resolution_is_two_hundred_rows() {
    assert!(!BufferSize::new(320, 200).hi_res());
    assert!(BufferSize::new(640, 400).hi_res());
    assert!(BufferSize::new(320, 201).hi_res());
}

#[test]
fn dimensions_come_back() {
    let size = BufferSize::new(427, 201);
    assert_eq!((size.width(), size.height()), (427, 201));
    assert_eq!((size.width_usize(), size.height_usize()), (427, 201));
    assert_eq!((size.half_width(), size.half_height()), (213, 100));
    assert_eq!(size.statusbar_height(), 0);
    assert_eq!(size.view_height(), 201);
}

#[test]
fn status_bar_takes_rows_from_the_view() {
    let mut size = BufferSize::new(320, 200);
    size.set_statusbar_height(STBAR_HEIGHT);
    assert_eq!(size.statusbar_height(), 32);
    assert_eq!(size.view_height(), 168);
    assert_eq!(size.view_height_usize(), 168);
    assert_eq!(size.half_view_height(), 84);
    assert_eq!(size.view_height() + size.statusbar_height(), size.height());
}

#[test]
fn bar_higher_than_the_buffer_leaves_a_negative_view() {
    let mut size = BufferSize::new(320, 200);
    size.set_statusbar_height(205);
    assert_eq!(size.view_height(), -5);
    assert_eq!(size.half_view_height(), -2);
    assert_eq!(size.view_height_usize(), 0xFFFF_FFFB);
}

#[test]
fn fuzz_offsets_are_one_row_up_or_down() {
    assert_eq!(FUZZ_TABLE.len(), 50);
    assert!(FUZZ_TABLE.iter().all(|&o| o == 1 || o == -1));
    assert_eq!(FUZZ_TABLE.iter().sum::<i32>(), 8);
}
