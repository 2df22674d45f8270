use diffscreen::bitmap::Bitmap;

#[test]
fn test() {
    let mut bm = Bitmap::new();
    assert_eq!(bm.push(0), true);
    assert_eq!(bm.push(10), true);
    assert_eq!(bm.push(127), true);
    assert_eq!(bm.push(128), true);
    assert_eq!(bm.push(168), true);
    assert_eq!(bm.push(255), true);

    assert_eq!(bm.push(0), false);
    assert_eq!(bm.push(10), false);
    assert_eq!(bm.push(127), false);
    assert_eq!(bm.push(128), false);
    assert_eq!(bm.push(168), false);
    assert_eq!(bm.push(255), false);

    bm.remove(10);
    bm.remove(168);

    assert_eq!(bm.push(10), true);
    assert_eq!(bm.push(168), true);
}
