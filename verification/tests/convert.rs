use diffscreen::convert::{
    bgra_to_i420, can_convert_bgra, can_convert_i420, clamp, i420_to_rgb, ROUND_TRIP_ERROR,
};

fn bgra(pixels: &[(u8, u8, u8)]) -> Vec<u8> {
    let mut out = Vec::new();
    for &(r, g, b) in pixels {
        out.extend_from_slice(&[b, g, r, 255]);
    }
    out
}

const RED: (u8, u8, u8) = (255, 0, 0);
const GREEN: (u8, u8, u8) = (0, 255, 0);
const BLUE: (u8, u8, u8) = (0, 0, 255);
const WHITE: (u8, u8, u8) = (255, 255, 255);
const BLACK: (u8, u8, u8) = (0, 0, 0);

#[test]
fn clamp_saturates() {
    assert_eq!(clamp(-5), 0);
    assert_eq!(clamp(-1), 0);
    assert_eq!(clamp(0), 0);
    assert_eq!(clamp(128), 128);
    assert_eq!(clamp(255), 255);
    assert_eq!(clamp(256), 255);
    assert_eq!(clamp(300), 255);
    assert_eq!(clamp(i32::MIN), 0);
    assert_eq!(clamp(i32::MAX), 255);
}

#[test]
fn single_colours_to_i420() {
    // (colour, luma, blue difference, red difference)
    let cases = [
        (RED, 82u8, 91u8, 240u8),
        (GREEN, 144, 55, 35),
        (BLUE, 41, 240, 111),
        (WHITE, 235, 128, 128),
        (BLACK, 16, 128, 128),
    ];
    for (colour, y, u, v) in cases {
        let src = bgra(&[colour]);
        let mut dest = vec![9u8; 7];
        bgra_to_i420(1, 1, &src, &mut dest);
        assert_eq!(dest, vec![y, u, v]);
    }
}

#[test]
fn chroma_is_rounded_toward_zero() {
    // -38 * 255 + 128 = -9562, and -9562 / 256 is -37.35: toward zero that
    // is -37, so the sample is 91 and not 90.
    let src = bgra(&[RED]);
    let mut dest = Vec::new();
    bgra_to_i420(1, 1, &src, &mut dest);
    assert_eq!(dest[1], 91);
}

#[test]
fn two_by_two_to_i420() {
    let src = bgra(&[RED, GREEN, BLUE, WHITE]);
    let mut dest = Vec::new();
    bgra_to_i420(2, 2, &src, &mut dest);
    // four luma samples, then the chroma of the top left pixel
    assert_eq!(dest, vec![82, 144, 41, 235, 91, 240]);
}

#[test]
fn row_pitch_is_taken_from_the_buffer() {
    // two rows of two pixels, each row padded to twelve bytes
    let mut src = Vec::new();
    src.extend_from_slice(&bgra(&[RED, GREEN]));
    src.extend_from_slice(&[1, 2, 3, 4]);
    src.extend_from_slice(&bgra(&[BLUE, WHITE]));
    src.extend_from_slice(&[5, 6, 7, 8]);
    let mut dest = Vec::new();
    bgra_to_i420(2, 2, &src, &mut dest);
    assert_eq!(dest, vec![82, 144, 41, 235, 91, 240]);
}

#[test]
fn odd_sizes_round_the_chroma_planes_up() {
    let src = bgra(&[RED, GREEN, BLUE, WHITE, BLACK, RED, GREEN, BLUE, WHITE]);
    let mut dest = Vec::new();
    bgra_to_i420(3, 3, &src, &mut dest);
    assert_eq!(dest.len(), 9 + 4 + 4);
    assert_eq!(&dest[..9], &[82, 144, 41, 235, 16, 82, 144, 41, 235]);
    // blocks start at (0,0) red, (2,0) blue, (0,2) green, (2,2) white
    assert_eq!(&dest[9..13], &[91, 240, 55, 128]);
    assert_eq!(&dest[13..], &[240, 111, 35, 128]);
}

#[test]
fn width_zero_gives_an_empty_image() {
    let mut dest = vec![1u8, 2, 3];
    bgra_to_i420(0, 4, &[], &mut dest);
    assert!(dest.is_empty());
}

#[test]
fn i420_to_rgb_exact_values() {
    // the samples of pure red
    let mut dest = vec![0u8; 3];
    i420_to_rgb(1, 1, &[82], &[91], &[240], &mut dest, 1, 1);
    // 82 + (112 * 359 >> 8) = 82 + 157; 82 - (-37 * 88 >> 8) - (112 * 182 >> 8)
    // = 82 + 13 - 79; 82 + (-37 * 453 >> 8) = 82 - 66
    assert_eq!(dest, vec![239, 16, 16]);
    // grey stays grey
    i420_to_rgb(1, 1, &[128], &[128], &[128], &mut dest, 1, 1);
    assert_eq!(dest, vec![128, 128, 128]);
    // out of range results saturate; green is 255 - (127 * 88 >> 8) -
    // (127 * 182 >> 8) = 255 - 43 - 90
    i420_to_rgb(1, 1, &[255], &[255], &[255], &mut dest, 1, 1);
    assert_eq!(dest, vec![255, 122, 255]);
    i420_to_rgb(1, 1, &[0], &[0], &[0], &mut dest, 1, 1);
    assert_eq!(dest, vec![0, 135, 0]);
}

#[test]
fn i420_to_rgb_crops_and_leaves_the_rest() {
    // a picture of four by two, luma 10 * row + column, grey chroma
    let sy = [0u8, 1, 2, 3, 10, 11, 12, 13];
    let su = [128u8; 2];
    let sv = [128u8; 2];
    let mut dest = vec![7u8; 3 * 2 * 2 + 2];
    i420_to_rgb(4, 2, &sy, &su, &sv, &mut dest, 2, 2);
    assert_eq!(dest, vec![0, 0, 0, 1, 1, 1, 10, 10, 10, 11, 11, 11, 7, 7]);
    // a crop larger than the picture is cut down to it
    let mut dest = vec![7u8; 3 * 4 * 2 + 1];
    i420_to_rgb(4, 2, &sy, &su, &sv, &mut dest, 9, 9);
    let mut want = Vec::new();
    for y in sy {
        want.extend_from_slice(&[y, y, y]);
    }
    want.push(7);
    assert_eq!(dest, want);
    // an empty crop writes nothing
    let mut dest = vec![7u8; 4];
    i420_to_rgb(4, 2, &sy, &su, &sv, &mut dest, 0, 2);
    assert_eq!(dest, vec![7, 7, 7, 7]);
}

#[test]
fn chroma_rows_are_half_the_width_apart() {
    // width 4: chroma rows are 2 samples apart, rows 2 and 3 use the second
    let sy = [100u8; 16];
    let su = [128u8, 128, 128, 255];
    let sv = [128u8; 4];
    let mut dest = vec![0u8; 48];
    i420_to_rgb(4, 4, &sy, &su, &sv, &mut dest, 4, 4);
    // pixel (3, 3) has blue difference 255: blue 100 + (127 * 453 >> 8) = 324
    let at = 3 * (3 * 4 + 3);
    assert_eq!(&dest[at..at + 3], &[100, 100 - 43, 255]);
    // pixel (1, 3) has grey chroma
    let at = 3 * (3 * 4 + 1);
    assert_eq!(&dest[at..at + 3], &[100, 100, 100]);
}

fn round_trip(r: u8, g: u8, b: u8) -> (u8, u8, u8) {
    let src = bgra(&[(r, g, b); 4]);
    let mut planar = Vec::new();
    bgra_to_i420(2, 2, &src, &mut planar);
    let mut rgb = vec![0u8; 12];
    i420_to_rgb(2, 2, &planar[..4], &planar[4..5], &planar[5..], &mut rgb, 2, 2);
    for pixel in rgb.chunks(3) {
        assert_eq!(pixel, &rgb[..3]);
    }
    (rgb[0], rgb[1], rgb[2])
}

#[test]
fn round_trip_stays_within_the_error_bound() {
    let bound = ROUND_TRIP_ERROR as i32;
    assert_eq!(bound, 21);
    let mut worst = 0;
    let mut values: Vec<u8> = (0..=255u8).step_by(5).collect();
    values.extend_from_slice(&[4, 16, 43, 75, 180, 191, 243, 250]);
    for &r in &values {
        for &g in &values {
            for &b in &values {
                let (r2, g2, b2) = round_trip(r, g, b);
                for (was, is) in [(r, r2), (g, g2), (b, b2)] {
                    let off = (is as i32 - was as i32).abs();
                    assert!(off <= bound, "{:?} came back as {:?}", (r, g, b), (r2, g2, b2));
                    worst = worst.max(off);
                }
            }
        }
    }
    // the bound is reached
    assert_eq!(worst, bound);
    assert_eq!(round_trip(250, 243, 180).0, 250 - 21);
}

#[test]
fn round_trip_is_not_exact_where_chroma_is_shared() {
    // the second pixel of a block gets the chroma of the first
    let src = bgra(&[RED, BLUE, RED, RED]);
    let mut planar = Vec::new();
    bgra_to_i420(2, 2, &src, &mut planar);
    let mut rgb = vec![0u8; 12];
    i420_to_rgb(2, 2, &planar[..4], &planar[4..5], &planar[5..], &mut rgb, 2, 2);
    assert_eq!(&rgb[..3], &[239, 16, 16]);
    // blue's luma 41 with red's chroma: 41 + 157, 41 + 13 - 79, 41 - 66
    assert_eq!(&rgb[3..6], &[198, 0, 0]);
}

#[test]
fn which_buffers_hold_a_bgra_picture() {
    // no rows, no picture
    assert!(!can_convert_bgra(4, 0, 64));
    assert!(!can_convert_bgra(0, 0, 0));
    // no columns: nothing is read
    assert!(can_convert_bgra(0, 4, 0));
    // exactly as large as the picture
    assert!(can_convert_bgra(4, 4, 64));
    // the last byte that is read is the red one of the last pixel
    assert!(can_convert_bgra(1, 1, 3));
    assert!(!can_convert_bgra(1, 1, 2));
    assert!(can_convert_bgra(4, 4, 63));
    assert!(can_convert_bgra(4, 4, 60));
    // rows are taken to be 59 / 4 = 14 bytes apart: 3 * 14 + 15 = 57
    assert!(can_convert_bgra(4, 4, 59));
    assert!(can_convert_bgra(4, 4, 57));
    assert!(!can_convert_bgra(4, 4, 56));
    assert!(!can_convert_bgra(4, 4, 15));
    // padded rows
    assert!(can_convert_bgra(2, 2, 24));
    assert!(!can_convert_bgra(5, 4, 64));
    // too large to address
    assert!(!can_convert_bgra(usize::MAX, 1, usize::MAX));
    assert!(!can_convert_bgra(usize::MAX / 4, 8, usize::MAX));
}

#[test]
fn which_buffers_hold_an_rgb_picture() {
    assert!(can_convert_i420(4, 2, 8, 2, 2, 24, 4, 2));
    // luma plane too short
    assert!(!can_convert_i420(4, 2, 7, 2, 2, 24, 4, 2));
    // chroma planes too short
    assert!(!can_convert_i420(4, 2, 8, 1, 2, 24, 4, 2));
    assert!(!can_convert_i420(4, 2, 8, 2, 1, 24, 4, 2));
    // destination too short
    assert!(!can_convert_i420(4, 2, 8, 2, 2, 23, 4, 2));
    // a crop needs less of everything
    assert!(can_convert_i420(4, 2, 2, 1, 1, 6, 2, 1));
    assert!(can_convert_i420(4, 2, 6, 1, 1, 12, 2, 2));
    assert!(!can_convert_i420(4, 2, 5, 1, 1, 12, 2, 2));
    // an empty crop needs nothing
    assert!(can_convert_i420(4, 2, 0, 0, 0, 0, 0, 2));
    assert!(can_convert_i420(4, 2, 0, 0, 0, 0, 4, 0));
    assert!(can_convert_i420(0, 0, 0, 0, 0, 0, 9, 9));
    assert!(!can_convert_i420(usize::MAX, usize::MAX, 8, 2, 2, 24, usize::MAX, usize::MAX));
}
