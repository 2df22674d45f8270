use diffscreen::config::BIT_MASK;
use diffscreen::delta::{decode_delta, encode_delta, mask_frame};

#[test]
fn delta_is_the_bytewise_xor() {
    let previous = [0x00u8, 0xFF, 0x0F, 0xAA];
    let current = [0x01u8, 0xFF, 0xF0, 0x55];
    let mut diff = vec![9u8; 9];
    assert!(encode_delta(&current, &previous, &mut diff));
    assert_eq!(diff, vec![0x01, 0x00, 0xFF, 0xFF]);
}

#[test]
fn delta_round_trip() {
    let a: Vec<u8> = (0..=255u8).collect();
    let b: Vec<u8> = (0..=255u8).map(|x| x.wrapping_mul(37).wrapping_add(11)).collect();
    let mut diff = Vec::new();
    assert!(encode_delta(&b, &a, &mut diff));
    let mut shown = a.clone();
    decode_delta(&mut shown, &diff);
    assert_eq!(shown, b);
}

#[test]
fn equal_frames_signal_no_change() {
    let a = [3u8, 1, 4, 1, 5, 9, 2, 6];
    let mut diff = vec![1u8];
    assert!(!encode_delta(&a, &a, &mut diff));
    assert_eq!(diff, vec![0u8; 8]);
}

#[test]
fn a_single_changed_byte_is_a_change() {
    let a = [0u8; 64];
    let mut b = [0u8; 64];
    b[63] = 1;
    let mut diff = Vec::new();
    assert!(encode_delta(&b, &a, &mut diff));
    assert_eq!(diff.iter().filter(|&&d| d != 0).count(), 1);
    assert_eq!(diff[63], 1);
}

#[test]
fn empty_frames_do_not_change() {
    let mut diff = vec![1u8, 2];
    assert!(!encode_delta(&[], &[], &mut diff));
    assert!(diff.is_empty());
    let mut shown: [u8; 0] = [];
    decode_delta(&mut shown, &[]);
}

#[test]
fn mask_drops_the_low_bits() {
    assert_eq!(BIT_MASK, 0b1111_1000);
    let mut frame = [0xFFu8, 0x07, 0x08, 0x0F, 0x00, 0xAB];
    mask_frame(&mut frame, BIT_MASK);
    assert_eq!(frame, [0xF8, 0x00, 0x08, 0x08, 0x00, 0xA8]);
    // masking again changes nothing
    let once = frame;
    mask_frame(&mut frame, BIT_MASK);
    assert_eq!(frame, once);
    // a full mask keeps everything
    let mut frame = [0xFFu8, 0x07];
    mask_frame(&mut frame, 0xFF);
    assert_eq!(frame, [0xFF, 0x07]);
}
