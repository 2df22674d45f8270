use diffscreen::compress::{compress, decompress, CodecError, CompressionBackend};

#[test]
fn it_works() {
    let s = "Hello11111111111111111111".as_bytes();
    let mut pr = vec![0u8; 100];
    let p = compress(s, &mut pr).unwrap();
    assert_ne!(&pr[..p], s);
    let mut dpr = vec![0u8; 100];
    let u = decompress(&pr[..p], &mut dpr).unwrap();
    assert_eq!(s, &dpr[..u]);
}

#[test]
fn backend_round_trip() {
    let mut backend = CompressionBackend::new(3).unwrap();
    let raw: Vec<u8> = (0..2000u32).map(|i| (i / 100) as u8).collect();
    let mut packed = Vec::new();
    let n = backend.compress_with_room(&raw, &mut packed).unwrap();
    assert_eq!(n, packed.len());
    assert!(n < raw.len());
    assert_ne!(packed, raw);
    let mut back = Vec::new();
    let m = backend.decompress_with_room(&packed, &mut back, raw.len()).unwrap();
    assert_eq!(m, raw.len());
    assert_eq!(back, raw);
    // the contexts are used again and again
    for round in 0..5u8 {
        let raw = vec![round; 300];
        backend.compress_with_room(&raw, &mut packed).unwrap();
        backend.decompress_with_room(&packed, &mut back, 300).unwrap();
        assert_eq!(back, raw);
    }
}

#[test]
fn xor_of_still_pictures_compresses_well() {
    let mut backend = CompressionBackend::new(3).unwrap();
    let mut packed = Vec::new();
    let n = backend.compress_with_room(&[0u8; 100_000], &mut packed).unwrap();
    assert!(n < 100);
}

#[test]
fn empty_input_round_trip() {
    let mut backend = CompressionBackend::new(3).unwrap();
    let mut packed = vec![1u8, 2, 3];
    let n = backend.compress_with_room(&[], &mut packed).unwrap();
    assert!(n > 0);
    let mut back = vec![9u8];
    assert_eq!(backend.decompress(&packed, &mut back), Ok(0));
    assert!(back.is_empty());
}

#[test]
fn output_that_does_not_fit_is_an_error() {
    let mut backend = CompressionBackend::new(3).unwrap();
    let raw: Vec<u8> = (0..4096u32).map(|i| (i * i % 251) as u8).collect();
    let mut small: Vec<u8> = Vec::new();
    small.shrink_to_fit();
    assert_eq!(backend.compress(&raw, &mut small), Err(CodecError::Compress));
    assert!(small.is_empty());
    let mut packed = Vec::new();
    backend.compress_with_room(&raw, &mut packed).unwrap();
    let mut back: Vec<u8> = Vec::new();
    assert_eq!(backend.decompress(&packed, &mut back), Err(CodecError::Decompress));
    assert!(back.is_empty());
    assert_eq!(
        backend.decompress_with_room(&packed, &mut back, 100),
        Err(CodecError::Decompress)
    );
}

#[test]
fn garbage_does_not_decompress() {
    let mut back = Vec::with_capacity(100);
    assert_eq!(
        decompress(&[0xDE, 0xAD, 0xBE, 0xEF, 1, 2, 3], &mut back),
        Err(CodecError::Decompress)
    );
    assert!(back.is_empty());
}
