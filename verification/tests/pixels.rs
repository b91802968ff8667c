use voidsnap::pixels::{
    argb_u32, convert_to_argb8888, convert_to_rgba, crop_frozen, PixelError, PixelFormat,
};

/// Two rows of two pixels, each row followed by three bytes of padding.
const RAW: [u8; 22] = [
    1, 2, 3, 4, 5, 6, 7, 8, 0xEE, 0xEE, 0xEE, 11, 12, 13, 14, 15, 16, 17, 18, 0xEE, 0xEE, 0xEE,
];

#[test]
fn packs_by_hand() {
    assert_eq!(argb_u32(0xAA, 0xBB, 0xCC, 0xDD), 0xAABB_CCDD);
}

#[test]
fn reads_every_format() {
    assert_eq!(
        convert_to_argb8888(&RAW, 2, 2, 11, PixelFormat::Argb8888),
        Ok(vec![0x0403_0201, 0x0807_0605, 0x0E0D_0C0B, 0x1211_100F])
    );
    assert_eq!(
        convert_to_argb8888(&RAW, 2, 2, 11, PixelFormat::Xrgb8888),
        Ok(vec![0xFF03_0201, 0xFF07_0605, 0xFF0D_0C0B, 0xFF11_100F])
    );
    assert_eq!(
        convert_to_argb8888(&RAW, 2, 2, 11, PixelFormat::Abgr8888),
        Ok(vec![0x0401_0203, 0x0805_0607, 0x0E0B_0C0D, 0x120F_1011])
    );
    assert_eq!(
        convert_to_argb8888(&RAW, 2, 2, 11, PixelFormat::Xbgr8888),
        Ok(vec![0xFF01_0203, 0xFF05_0607, 0xFF0B_0C0D, 0xFF0F_1011])
    );
}

#[test]
fn reads_bytes_of_every_format() {
    assert_eq!(
        convert_to_rgba(&RAW, 2, 1, 11, PixelFormat::Argb8888),
        Ok(vec![3, 2, 1, 4, 7, 6, 5, 8])
    );
    assert_eq!(
        convert_to_rgba(&RAW, 2, 1, 11, PixelFormat::Xrgb8888),
        Ok(vec![3, 2, 1, 255, 7, 6, 5, 255])
    );
    assert_eq!(
        convert_to_rgba(&RAW, 2, 1, 11, PixelFormat::Abgr8888),
        Ok(vec![1, 2, 3, 4, 5, 6, 7, 8])
    );
    assert_eq!(
        convert_to_rgba(&RAW, 1, 2, 11, PixelFormat::Xbgr8888),
        Ok(vec![1, 2, 3, 255, 11, 12, 13, 255])
    );
}

#[test]
fn stops_where_the_data_ends() {
    let cut = &RAW[..18];
    assert_eq!(
        convert_to_argb8888(cut, 2, 2, 11, PixelFormat::Argb8888),
        Err(PixelError::Underflow { x: 1, y: 1 })
    );
    assert_eq!(
        convert_to_rgba(cut, 2, 2, 11, PixelFormat::Xbgr8888),
        Err(PixelError::Underflow { x: 1, y: 1 })
    );
    // The padding after the last pixel is not needed.
    assert!(convert_to_rgba(&RAW[..19], 2, 2, 11, PixelFormat::Argb8888).is_ok());
    assert_eq!(
        convert_to_rgba(&[], 1, 1, 4, PixelFormat::Argb8888),
        Err(PixelError::Underflow { x: 0, y: 0 })
    );
}

#[test]
fn refuses_other_formats() {
    let other = PixelFormat::Other(0x3432_4258);
    assert_eq!(
        convert_to_argb8888(&RAW, 2, 2, 11, other),
        Err(PixelError::Unsupported { code: 0x3432_4258 })
    );
    assert_eq!(
        convert_to_rgba(&RAW, 2, 2, 11, other),
        Err(PixelError::Unsupported { code: 0x3432_4258 })
    );
    // A missing pixel is noticed before its format is.
    assert_eq!(
        convert_to_rgba(&RAW[..3], 2, 2, 11, other),
        Err(PixelError::Underflow { x: 0, y: 0 })
    );
}

#[test]
fn pictures_without_extent_are_empty() {
    assert_eq!(convert_to_argb8888(&[], 0, 9, 4, PixelFormat::Other(1)), Ok(vec![]));
    assert_eq!(convert_to_rgba(&[], 9, 0, 4, PixelFormat::Other(1)), Ok(vec![]));
}

#[test]
fn huge_offsets_are_past_the_end() {
    assert_eq!(
        convert_to_rgba(&RAW, 1, u32::MAX, u32::MAX, PixelFormat::Argb8888),
        Err(PixelError::Underflow { x: 0, y: 1 })
    );
}

#[test]
fn crops_a_part() {
    let frozen: Vec<u32> = (0..12).map(|i| 0xA000_0000 + i * 0x01_0203).collect();
    let (rgba, w, h) = crop_frozen(&frozen, 4, 3, 1, 1, 2, 2);
    assert_eq!((w, h), (2, 2));
    let mut expected: Vec<u8> = Vec::new();
    for i in [5u8, 6, 9, 10] {
        expected.extend([i, 2 * i, 3 * i, 0xA0]);
    }
    assert_eq!(rgba, expected);
}

#[test]
fn crops_at_the_edges() {
    let frozen: Vec<u32> = (0..12).collect();
    // Past the right and bottom edges.
    assert_eq!(crop_frozen(&frozen, 4, 3, 3, 2, 100, 100), (vec![0, 0, 11, 0], 1, 1));
    // Past the left and top edges.
    assert_eq!(crop_frozen(&frozen, 4, 3, -9, -5, 10, 6), (vec![0, 0, 0, 0], 1, 1));
    // Past all of them.
    let (rgba, w, h) = crop_frozen(&frozen, 4, 3, -1, -1, 50, 50);
    assert_eq!((w, h), (4, 3));
    assert_eq!(rgba.iter().skip(2).step_by(4).copied().collect::<Vec<u8>>(), (0..12).collect::<Vec<u8>>());
    // Wholly outside.
    assert_eq!(crop_frozen(&frozen, 4, 3, 9, 9, 5, 5), (vec![], 0, 0));
    assert_eq!(crop_frozen(&frozen, 4, 3, -5, 0, 2, 3), (vec![], 0, 3));
    assert_eq!(crop_frozen(&frozen, 4, 3, -5, -5, 5, 5), (vec![], 0, 0));
    // No extent, and none that fits 32 bits.
    assert_eq!(crop_frozen(&frozen, 4, 3, 2, 2, -1, 0), (vec![], 0, 0));
    let far = i32::MAX;
    assert_eq!(crop_frozen(&frozen, 4, 3, far, far, far, far), (vec![], 0, 0));
}

#[test]
fn frozen_and_live_agree() {
    for format in [
        PixelFormat::Argb8888,
        PixelFormat::Xrgb8888,
        PixelFormat::Abgr8888,
        PixelFormat::Xbgr8888,
    ] {
        let frozen = convert_to_argb8888(&RAW, 2, 2, 11, format).unwrap();
        let live = convert_to_rgba(&RAW, 2, 2, 11, format).unwrap();
        assert_eq!(crop_frozen(&frozen, 2, 2, 0, 0, 2, 2), (live, 2, 2));
    }
}

#[test]
fn formats_without_alpha_are_opaque() {
    for format in [PixelFormat::Xrgb8888, PixelFormat::Xbgr8888] {
        let colors = convert_to_argb8888(&RAW, 2, 2, 11, format).unwrap();
        assert!(colors.iter().all(|px| px >> 24 == 255));
        let bytes = convert_to_rgba(&RAW, 2, 2, 11, format).unwrap();
        assert!(bytes.chunks(4).all(|px| px[3] == 255));
        assert_eq!(bytes.len(), 16);
    }
}
