use diffscreen::capture::{
    bgra_to_rgb, capture_step, flip_rows, CaptureAction, CaptureOutcome, RELOAD_NANOS, RETRY_NANOS,
};

#[test]
fn capture_policy() {
    assert_eq!(RETRY_NANOS, 1_000_000_000 / 60);
    assert_eq!(RELOAD_NANOS, 200_000_000);
    assert_eq!(capture_step(CaptureOutcome::Frame), CaptureAction::Deliver);
    assert_eq!(capture_step(CaptureOutcome::WouldBlock), CaptureAction::Retry(16_666_666));
    assert_eq!(capture_step(CaptureOutcome::Failed), CaptureAction::Reload(216_666_666));
    assert_eq!(capture_step(CaptureOutcome::Missing), CaptureAction::Reload(200_000_000));
}

#[test]
fn flip_even_and_odd() {
    let mut picture = [1u8, 2, 3, 4, 5, 6, 7, 8];
    flip_rows(&mut picture, 2);
    assert_eq!(picture, [7, 8, 5, 6, 3, 4, 1, 2]);
    let mut picture = [1u8, 2, 3, 4, 5, 6, 7, 8, 9];
    flip_rows(&mut picture, 3);
    assert_eq!(picture, [7, 8, 9, 4, 5, 6, 1, 2, 3]);
    flip_rows(&mut picture, 3);
    assert_eq!(picture, [1, 2, 3, 4, 5, 6, 7, 8, 9]);
}

#[test]
fn flip_of_one_row_or_none() {
    let mut picture = [1u8, 2, 3];
    flip_rows(&mut picture, 3);
    assert_eq!(picture, [1, 2, 3]);
    let mut picture: [u8; 0] = [];
    flip_rows(&mut picture, 4);
    let mut picture = [1u8, 2, 3];
    flip_rows(&mut picture, 1);
    assert_eq!(picture, [3, 2, 1]);
}

#[test]
fn bgra_to_rgb_swaps_and_drops_alpha() {
    let bgra = [1u8, 2, 3, 255, 4, 5, 6, 255];
    let mut rgb = [0u8; 6];
    bgra_to_rgb(&bgra, &mut rgb);
    assert_eq!(rgb, [3, 2, 1, 6, 5, 4]);
}

#[test]
fn bgra_to_rgb_stops_at_the_shorter_buffer() {
    let bgra = [1u8, 2, 3, 255, 4, 5, 6, 255, 7, 8];
    let mut rgb = [9u8; 8];
    bgra_to_rgb(&bgra, &mut rgb);
    assert_eq!(rgb, [3, 2, 1, 6, 5, 4, 9, 9]);
    let mut rgb = [9u8; 5];
    bgra_to_rgb(&bgra, &mut rgb);
    assert_eq!(rgb, [3, 2, 1, 9, 9]);
    let mut rgb = [9u8; 4];
    bgra_to_rgb(&[1, 2, 3], &mut rgb);
    assert_eq!(rgb, [9, 9, 9, 9]);
}
