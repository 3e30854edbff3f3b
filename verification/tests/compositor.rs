//! The magnifier compositor on concrete frames.

use pixel_picker::frame::Frame;
use pixel_picker::magnifier::{average_luma, magnifier_tile, magnify};

fn solid_frame(w: u32, h: u32, rgb: (u8, u8, u8)) -> Frame {
    Frame::solid(w, h, rgb)
}

const BASE: (u8, u8, u8) = (10, 20, 30);

/// Luma of (10, 20, 30) with the 2126/7152/722 weighting is 18, so the
/// contrasting border color is 237.
#[test]
fn uniform_crop_average_luma() {
    let f = solid_frame(100, 100, BASE);
    assert_eq!(average_luma(&f, 45, 45, 11), 18);
}

#[test]
fn magnified_square_is_45_with_grid_every_4() {
    let f = solid_frame(100, 100, BASE);
    let border = 255 - average_luma(&f, 45, 45, 11);
    assert_eq!(border, 237);
    let tile = magnifier_tile(&f, 45, 45, 11, 4, border);
    assert_eq!(tile.width(), 45);
    assert_eq!(tile.height(), 45);
    for ty in 0..45u32 {
        for tx in 0..45u32 {
            let expected = if tx % 4 == 0 || ty % 4 == 0 {
                (237, 237, 237)
            } else {
                BASE
            };
            assert_eq!(tile.get(tx, ty), Some(expected));
        }
    }
}

/// The composite has the dimensions of the base frame, carries the grid
/// inside the magnified square, and leaves the area outside it untouched.
#[test]
fn composite_matches_base_dimensions() {
    let f = solid_frame(100, 100, BASE);
    let m = magnify(&f, 50, 50, 11, 4).expect("cursor well inside the frame");
    assert_eq!(m.width(), 100);
    assert_eq!(m.height(), 100);
    // The 45-sided magnified square starts at 50 - 45/2 = 28.
    assert_eq!(m.get(28, 28), Some((237, 237, 237)));
    assert_eq!(m.get(29, 29), Some(BASE));
    assert_eq!(m.get(0, 0), Some(BASE));
    assert_eq!(m.get(99, 99), Some(BASE));
}

/// Compositing works on a copy: the source frame still reports its own
/// pixel at the cursor afterwards.
#[test]
fn compositing_leaves_source_untouched() {
    let f = solid_frame(100, 100, BASE);
    let _ = magnify(&f, 50, 50, 11, 4).expect("cursor well inside the frame");
    assert_eq!(f.get(50, 50), Some(BASE));
}

/// A cursor at (3, 3) with zoom window size 11 fails the bounds check:
/// the crop would start at 3 - 5, off the frame.
#[test]
fn bounds_check_declines_near_edge() {
    let f = solid_frame(100, 100, BASE);
    assert!(magnify(&f, 3, 3, 11, 4).is_none());
    assert!(magnify(&f, 50, 3, 11, 4).is_none());
    assert!(magnify(&f, 96, 50, 11, 4).is_none());
    assert!(magnify(&f, 50, 50, 11, 4).is_some());
}

/// The magnifier clips at the frame edge once the bounds check passes:
/// the crop fits, the larger magnified square need not.
#[test]
fn composite_clips_at_frame_edge() {
    let f = solid_frame(100, 100, BASE);
    let m = magnify(&f, 6, 6, 11, 4).expect("crop fits");
    assert_eq!(m.width(), 100);
    assert_eq!(m.height(), 100);
    // Tile top-left would be 6 - 22 = -16; on-frame (0, 0) is tile
    // (16, 16), which is a grid position.
    assert_eq!(m.get(0, 0), Some((237, 237, 237)));
}

/// Nearest-neighbor upscaling repeats each source pixel across its cell.
#[test]
fn nearest_neighbor_repeats_source_pixels() {
    let mut f = solid_frame(20, 20, (0, 0, 0));
    f.set_pixel(10, 10, (200, 100, 50));
    let border = 255 - average_luma(&f, 9, 9, 3);
    let tile = magnifier_tile(&f, 9, 9, 3, 4, border);
    assert_eq!(tile.width(), 13);
    // Source (10, 10) is crop cell (1, 1): tile coordinates 4..8 in each
    // axis, minus the grid lines at multiples of 4.
    assert_eq!(tile.get(5, 5), Some((200, 100, 50)));
    assert_eq!(tile.get(6, 7), Some((200, 100, 50)));
    // Neighbor cell (0, 0) holds the dark source pixel.
    assert_eq!(tile.get(1, 1), Some((0, 0, 0)));
    // Grid line between the cells.
    assert_eq!(tile.get(4, 5), Some((border, border, border)));
}
