//! Zoom state, clamping, cursor visibility and pixel read-back.

use pixel_picker::color::ColorFormat;
use pixel_picker::config::{Args, ZoomPolicy};
use pixel_picker::frame::Frame;
use pixel_picker::picker::PickerContext;

fn args(zoom: bool, scale: u32, size: u32) -> Args {
    Args {
        zoom,
        scale,
        size,
        format: ColorFormat::Hex,
        disable_color: false,
        disable_clipboard: false,
        exclusive: false,
    }
}

fn small_picker(zoom: bool, scale: u32, size: u32) -> PickerContext {
    let frame = Frame::solid(100, 100, (10, 20, 30));
    PickerContext::new(vec![(7, frame)], &args(zoom, scale, size), ZoomPolicy::default())
        .expect("well-formed input")
}

#[test]
fn zoom_visibility_covers_all_four_combinations() {
    let mut p = small_picker(false, 4, 11);
    // toggle off, hold off
    assert!(!p.should_display_zoom());
    // toggle on, hold off
    p.flip_toggle_zoom();
    assert!(p.should_display_zoom());
    // toggle on, hold on
    p.set_hold_zoom(true);
    assert!(!p.should_display_zoom());
    // toggle off, hold on
    p.flip_toggle_zoom();
    assert!(p.should_display_zoom());
}

#[test]
fn initial_zoom_is_square_of_scale() {
    let p = small_picker(false, 4, 11);
    assert_eq!(p.zoom(), 16);
    assert_eq!(p.zoom_size(), 11);
    assert!(p.hold_zoom() == false);
    let q = small_picker(true, 20, 11);
    // 20 * 20 = 400 saturates at the upper scale bound of 256.
    assert_eq!(q.zoom(), 256);
    assert!(q.hold_zoom());
}

#[test]
fn scroll_saturates_at_policy_bounds() {
    let mut p = small_picker(false, 4, 11);
    for _ in 0..1000 {
        p.change_zoom(false, 1);
        assert!((2..=256).contains(&p.zoom()));
    }
    assert_eq!(p.zoom(), 256);
    for _ in 0..1000 {
        p.change_zoom(true, 1);
        assert!((2..=256).contains(&p.zoom()));
    }
    assert_eq!(p.zoom(), 2);
    for _ in 0..1000 {
        p.change_zoom_size(false, 1);
        assert!((1..=63).contains(&p.zoom_size()));
        assert_eq!(p.zoom_size() % 2, 1);
    }
    assert_eq!(p.zoom_size(), 63);
    for _ in 0..1000 {
        p.change_zoom_size(true, 1);
        assert!((1..=63).contains(&p.zoom_size()));
        assert_eq!(p.zoom_size() % 2, 1);
    }
    assert_eq!(p.zoom_size(), 1);
}

#[test]
fn zoom_scale_steps_multiplicatively() {
    let mut p = small_picker(false, 4, 11);
    assert_eq!(p.zoom(), 16);
    p.change_zoom(false, 1);
    assert_eq!(p.zoom(), 32);
    p.change_zoom(true, 1);
    assert_eq!(p.zoom(), 16);
    p.change_zoom(true, 2);
    assert_eq!(p.zoom(), 4);
}

#[test]
fn zoom_size_steps_by_two() {
    let mut p = small_picker(false, 4, 11);
    p.change_zoom_size(false, 1);
    assert_eq!(p.zoom_size(), 13);
    p.change_zoom_size(true, 1);
    assert_eq!(p.zoom_size(), 11);
}

#[test]
fn cursor_hidden_for_small_zoom_window() {
    let p = small_picker(false, 4, 3);
    assert!(!p.cursor_visible());
    let q = small_picker(false, 4, 11);
    assert!(q.cursor_visible());
}

#[test]
fn shrinking_below_threshold_hides_cursor() {
    let mut p = small_picker(false, 4, 7);
    assert!(p.cursor_visible());
    p.change_zoom_size(true, 1);
    assert_eq!(p.zoom_size(), 5);
    assert!(!p.cursor_visible());
    p.change_zoom_size(false, 1);
    assert_eq!(p.zoom_size(), 7);
    assert!(p.cursor_visible());
}

#[test]
fn set_cursor_ignored_at_small_sizes() {
    let mut p = small_picker(false, 4, 3);
    p.set_cursor(true);
    assert!(!p.cursor_visible());
    let mut q = small_picker(false, 4, 11);
    q.set_cursor(false);
    assert!(!q.cursor_visible());
    q.set_cursor(true);
    assert!(q.cursor_visible());
}

#[test]
fn get_pixel_reads_the_original_frame() {
    let mut frame = Frame::solid(100, 100, (10, 20, 30));
    frame.set_pixel(42, 17, (1, 2, 3));
    let p = PickerContext::new(
        vec![(7, frame)],
        &args(false, 4, 11),
        ZoomPolicy::default(),
    )
    .expect("well-formed input");
    assert_eq!(p.get_pixel(7, 42, 17), Some((1, 2, 3)));
    assert_eq!(p.get_pixel(7, 0, 0), Some((10, 20, 30)));
    assert_eq!(p.get_pixel(7, 100, 0), None);
    assert_eq!(p.get_pixel(8, 0, 0), None);
}

#[test]
fn duplicate_window_identity_is_rejected() {
    let a = Frame::solid(10, 10, (0, 0, 0));
    let b = Frame::solid(10, 10, (0, 0, 0));
    let r = PickerContext::new(
        vec![(7, a), (7, b)],
        &args(false, 4, 11),
        ZoomPolicy::default(),
    );
    assert!(matches!(r, Err(pixel_picker::picker::SetupError::DuplicateWindow)));
}

#[test]
fn passthrough_buffer_is_packed_frame() {
    let mut frame = Frame::solid(2, 2, (1, 2, 3));
    frame.set_pixel(1, 0, (255, 0, 128));
    let p = PickerContext::new(
        vec![(9, frame)],
        &args(false, 4, 11),
        ZoomPolicy::default(),
    )
    .expect("well-formed input");
    let buf = p.draw_empty_window(9).expect("window exists");
    assert_eq!(buf.len(), 4);
    assert_eq!(buf[0], 0x010203);
    assert_eq!(buf[1], 0xFF0080);
    assert_eq!(buf[2], 0x010203);
    assert_eq!(buf[3], 0x010203);
    assert!(p.draw_empty_window(10).is_none());
}

#[test]
fn redraw_declines_near_edge_and_draws_inside() {
    let frame = Frame::solid(100, 100, (10, 20, 30));
    let p = PickerContext::new(
        vec![(7, frame)],
        &args(true, 4, 11),
        ZoomPolicy::default(),
    )
    .expect("well-formed input");
    assert_eq!(p.zoom(), 16);
    assert!(p.redraw_window(7, 3, 3).is_none());
    let buf = p.redraw_window(7, 50, 50).expect("cursor inside");
    assert_eq!(buf.len(), 100 * 100);
    // With zoom scale 16 the magnified square is 11 * 16 + 1 = 177 wide,
    // clipped to the whole 100-sided frame; (50, 50) sits on a grid line
    // ((50 - (50 - 88)) % 16 == 138 % 16 == 10, so check a nearby cell).
    let border: u8 = 255 - 18;
    let grid_word = u32::from_be_bytes([0, border, border, border]);
    // Tile left/top = 50 - 88 = -38; frame (0, 0) is tile (38, 38);
    // 38 % 16 != 0, so it shows a magnified source pixel.
    assert_eq!(buf[0], 0x0A141E);
    // Tile x 48 is a grid column: frame x = 48 - 38 = 10.
    assert_eq!(buf[10], grid_word);
}
