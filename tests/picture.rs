use maplibre_native::Image;

#[test]
fn full_tile_has_one_mebibyte() {
    let img = Image::new(512, 512, vec![0u8; 512 * 512 * 4]).unwrap();
    assert_eq!(img.as_raw().len(), 1_048_576);
    assert_eq!(img.into_raw().len(), 512 * 512 * 4);
}

#[test]
fn image_needs_four_bytes_per_pixel() {
    assert!(Image::new(2, 2, vec![0u8; 15]).is_none());
    assert!(Image::new(2, 2, vec![0u8; 17]).is_none());
    assert!(Image::new(0, 7, Vec::new()).is_some());
    assert!(Image::new(u32::MAX, u32::MAX, vec![0u8; 4]).is_none());
}

#[test]
fn raw_layout_round_trip() {
    let img = Image::new(1, 2, vec![1, 2, 3, 4, 5, 6, 7, 8]).unwrap();
    let raw = img.to_raw();
    assert_eq!(raw, vec![1, 0, 0, 0, 2, 0, 0, 0, 1, 2, 3, 4, 5, 6, 7, 8]);
    let back = Image::from_raw(&raw).unwrap();
    assert_eq!((back.width(), back.height()), (1, 2));
    assert_eq!(back, img);
    assert!(Image::from_raw(&raw[..raw.len() - 1]).is_none());
    assert!(Image::from_raw(&raw[..7]).is_none());
}

#[test]
fn clone_keeps_pixels() {
    let img = Image::new(1, 1, vec![9, 8, 7, 6]).unwrap();
    let copy = img.clone();
    assert_eq!(copy, img);
    assert_eq!(copy.as_raw(), &vec![9, 8, 7, 6]);
}
