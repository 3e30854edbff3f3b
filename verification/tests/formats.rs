//! Color formatting, luminance and the zoom-size validator.

use pixel_picker::color::{contrast_color, format_color, luma, ColorFormat};
use pixel_picker::config::{valid_zoom_size, ZoomSizeError};
use pixel_picker::frame::Frame;
use pixel_picker::video_mode::{get_ideal_video_mode, VideoModeInfo};

#[test]
fn luma_uses_standard_weighting() {
    assert_eq!(luma((10, 20, 30)), 18);
    assert_eq!(luma((0, 0, 0)), 0);
    assert_eq!(luma((255, 255, 255)), 255);
    assert_eq!(luma((255, 0, 0)), 54);
    assert_eq!(luma((0, 255, 0)), 182);
    assert_eq!(luma((0, 0, 255)), 18);
}

#[test]
fn contrast_is_inverse_luma() {
    assert_eq!(contrast_color((10, 20, 30)), 237);
    assert_eq!(contrast_color((255, 255, 255)), 0);
    assert_eq!(contrast_color((0, 0, 0)), 255);
}

#[test]
fn hex_format_is_uppercase_with_hash() {
    assert_eq!(format_color(ColorFormat::Hex, (16, 32, 48)), b"#102030".to_vec());
    assert_eq!(format_color(ColorFormat::Hex, (255, 255, 255)), b"#FFFFFF".to_vec());
    assert_eq!(format_color(ColorFormat::Hex, (0, 10, 171)), b"#000AAB".to_vec());
}

#[test]
fn rgb_format_is_comma_separated_decimal() {
    assert_eq!(format_color(ColorFormat::Rgb, (10, 2, 255)), b"10, 2, 255".to_vec());
    assert_eq!(format_color(ColorFormat::Rgb, (0, 0, 0)), b"0, 0, 0".to_vec());
    assert_eq!(format_color(ColorFormat::Rgb, (100, 200, 30)), b"100, 200, 30".to_vec());
}

#[test]
fn format_names_match_flags() {
    assert_eq!(ColorFormat::Hex.name(), "hex");
    assert_eq!(ColorFormat::Rgb.name(), "rgb");
}

#[test]
fn zoom_size_accepts_odd_numerals() {
    assert_eq!(valid_zoom_size("11"), Ok(11));
    assert_eq!(valid_zoom_size("1"), Ok(1));
    assert_eq!(valid_zoom_size("+13"), Ok(13));
    assert_eq!(valid_zoom_size("4294967295"), Ok(u32::MAX));
}

#[test]
fn zoom_size_rejects_even_values() {
    assert_eq!(valid_zoom_size("12"), Err(ZoomSizeError::NotOdd));
    assert_eq!(valid_zoom_size("0"), Err(ZoomSizeError::NotOdd));
}

#[test]
fn zoom_size_rejects_non_numerals() {
    assert_eq!(valid_zoom_size(""), Err(ZoomSizeError::NotANumber));
    assert_eq!(valid_zoom_size("abc"), Err(ZoomSizeError::NotANumber));
    assert_eq!(valid_zoom_size("1 1"), Err(ZoomSizeError::NotANumber));
    assert_eq!(valid_zoom_size("-3"), Err(ZoomSizeError::NotANumber));
    assert_eq!(valid_zoom_size("+"), Err(ZoomSizeError::NotANumber));
}

#[test]
fn zoom_size_rejects_overflow() {
    assert_eq!(valid_zoom_size("4294967297"), Err(ZoomSizeError::TooLarge));
    assert_eq!(valid_zoom_size("99999999999"), Err(ZoomSizeError::TooLarge));
}

#[test]
fn frame_construction_checks_byte_count() {
    assert!(Frame::from_rgb_bytes(2, 2, vec![0; 12]).is_some());
    assert!(Frame::from_rgb_bytes(2, 2, vec![0; 11]).is_none());
    assert!(Frame::from_rgba_bytes(2, 2, vec![0; 16]).is_some());
    assert!(Frame::from_rgba_bytes(2, 2, vec![0; 12]).is_none());
}

#[test]
fn rgba_conversion_drops_alpha() {
    let data = vec![1, 2, 3, 99, 4, 5, 6, 99];
    let f = Frame::from_rgba_bytes(2, 1, data).expect("matching byte count");
    assert_eq!(f.get(0, 0), Some((1, 2, 3)));
    assert_eq!(f.get(1, 0), Some((4, 5, 6)));
}

#[test]
fn packed_buffer_layout_is_bgr_in_low_bytes() {
    let f = Frame::from_rgb_bytes(1, 1, vec![0xAA, 0xBB, 0xCC]).expect("matching byte count");
    assert_eq!(f.packed(), vec![0xAABBCC]);
}

fn mode(w: u32, h: u32, depth: u16, refresh: u32) -> VideoModeInfo {
    VideoModeInfo { width: w, height: h, bit_depth: depth, refresh_millihertz: refresh }
}

#[test]
fn ideal_video_mode_prefers_resolution_then_depth_then_refresh() {
    assert!(get_ideal_video_mode(&vec![]).is_none());
    let modes = vec![
        mode(1920, 1080, 32, 60000),
        mode(2560, 1440, 24, 30000),
        mode(1920, 1080, 32, 144000),
    ];
    assert_eq!(get_ideal_video_mode(&modes), Some(mode(2560, 1440, 24, 30000)));
    let same_res = vec![
        mode(1920, 1080, 24, 144000),
        mode(1920, 1080, 32, 60000),
    ];
    assert_eq!(get_ideal_video_mode(&same_res), Some(mode(1920, 1080, 32, 60000)));
    let same_depth = vec![
        mode(1920, 1080, 32, 60000),
        mode(1920, 1080, 32, 144000),
    ];
    assert_eq!(get_ideal_video_mode(&same_depth), Some(mode(1920, 1080, 32, 144000)));
}
