use inference_bridge::image_processing::{
    argb8888_to_dynamic_image, dynamic_image_to_argb8888, pack_argb, resize_image_to_max_edge,
    target_dimensions, unpack_argb, DecodeError, Image, ResizeError, MAX_RESAMPLE_EDGE,
};

fn opaque_red() -> i32 {
    0xFFFF0000u32 as i32
}

fn sample_buffer(len: usize) -> Vec<i32> {
    let mut state: u32 = 0x9E37_79B9;
    let mut out = Vec::with_capacity(len);
    for _ in 0..len {
        state = state.wrapping_mul(1_664_525).wrapping_add(1_013_904_223);
        out.push(state as i32);
    }
    out
}

#[test]
fn decode_opaque_red_gives_rgba_bytes() {
    let img = argb8888_to_dynamic_image(1, 1, vec![opaque_red()]).unwrap();
    assert_eq!(img.width(), 1);
    assert_eq!(img.height(), 1);
    assert_eq!(img.as_raw(), &vec![255u8, 0, 0, 255]);
}

#[test]
fn encode_opaque_red_gives_packed_pixel() {
    let img = Image::from_raw(1, 1, vec![255, 0, 0, 255]).unwrap();
    assert_eq!(dynamic_image_to_argb8888(img), vec![opaque_red()]);
}

#[test]
fn opaque_red_round_trip() {
    let buffer = vec![opaque_red()];
    let img = argb8888_to_dynamic_image(1, 1, buffer.clone()).unwrap();
    assert_eq!(dynamic_image_to_argb8888(img), buffer);
}

#[test]
fn unpack_orders_channels_as_rgba() {
    assert_eq!(unpack_argb(0x11223344), (0x22, 0x33, 0x44, 0x11));
    assert_eq!(unpack_argb(0x80FF0001u32 as i32), (0xFF, 0x00, 0x01, 0x80));
    assert_eq!(unpack_argb(-1), (255, 255, 255, 255));
    assert_eq!(unpack_argb(0), (0, 0, 0, 0));
}

#[test]
fn pack_puts_alpha_on_top() {
    assert_eq!(pack_argb(0x22, 0x33, 0x44, 0x11), 0x11223344);
    assert_eq!(pack_argb(0, 0, 0, 0x7F), 0x7F000000);
    assert_eq!(pack_argb(0, 0, 0, 0x80), i32::MIN);
    assert_eq!(pack_argb(255, 255, 255, 255), -1);
}

#[test]
fn sign_bit_follows_alpha() {
    for alpha in 0u8..=255 {
        let packed = pack_argb(1, 2, 3, alpha);
        assert_eq!(packed < 0, alpha >= 0x80);
    }
}

#[test]
fn decode_then_encode_is_identity() {
    for (width, height) in [(0u32, 0u32), (1, 1), (3, 5), (16, 9), (1, 257), (64, 64)] {
        let buffer = sample_buffer((width * height) as usize);
        let img = argb8888_to_dynamic_image(width, height, buffer.clone()).unwrap();
        assert_eq!(img.as_raw().len(), 4 * buffer.len());
        assert_eq!(dynamic_image_to_argb8888(img), buffer);
    }
}

#[test]
fn encode_then_decode_is_identity() {
    let bytes: Vec<u8> = (0..4 * 6 * 7).map(|i| (i * 37 % 256) as u8).collect();
    let img = Image::from_raw(6, 7, bytes.clone()).unwrap();
    let packed = dynamic_image_to_argb8888(img);
    assert_eq!(packed.len(), 42);
    let back = argb8888_to_dynamic_image(6, 7, packed).unwrap();
    assert_eq!(back.into_raw(), bytes);
}

#[test]
fn decode_keeps_pixel_order() {
    let img = argb8888_to_dynamic_image(2, 1, vec![0x01020304, 0x05060708]).unwrap();
    assert_eq!(img.as_raw(), &vec![2u8, 3, 4, 1, 6, 7, 8, 5]);
}

#[test]
fn decode_refuses_wrong_length() {
    assert_eq!(argb8888_to_dynamic_image(2, 2, vec![]), Err(DecodeError::LengthMismatch));
    assert_eq!(argb8888_to_dynamic_image(2, 2, vec![0; 3]), Err(DecodeError::LengthMismatch));
    assert_eq!(argb8888_to_dynamic_image(2, 2, vec![0; 5]), Err(DecodeError::LengthMismatch));
    assert_eq!(argb8888_to_dynamic_image(2, 2, vec![0; 8]), Err(DecodeError::LengthMismatch));
    assert_eq!(argb8888_to_dynamic_image(0, 7, vec![0; 7]), Err(DecodeError::LengthMismatch));
    assert_eq!(argb8888_to_dynamic_image(1, 1, vec![]), Err(DecodeError::LengthMismatch));
}

#[test]
fn decode_does_not_wrap_the_pixel_count() {
    // 65536 * 65536 is zero in 32 bits; the buffer is still too short.
    assert_eq!(
        argb8888_to_dynamic_image(65536, 65536, vec![]),
        Err(DecodeError::LengthMismatch)
    );
}

#[test]
fn decode_accepts_empty_image() {
    let img = argb8888_to_dynamic_image(0, 9, vec![]).unwrap();
    assert_eq!((img.width(), img.height()), (0, 9));
    assert!(img.as_raw().is_empty());
}

#[test]
fn from_raw_wants_exact_length() {
    assert!(Image::from_raw(2, 2, vec![0; 16]).is_some());
    assert!(Image::from_raw(2, 2, vec![0; 15]).is_none());
    assert!(Image::from_raw(2, 2, vec![0; 17]).is_none());
    assert!(Image::from_raw(0, 0, vec![]).is_some());
    assert!(Image::from_raw(0, 3, vec![0; 4]).is_none());
}

#[test]
fn clone_keeps_the_image() {
    let img = Image::from_raw(1, 2, vec![1, 2, 3, 4, 5, 6, 7, 8]).unwrap();
    let copy = img.clone();
    assert_eq!(copy, img);
    assert_eq!(copy.into_raw(), vec![1, 2, 3, 4, 5, 6, 7, 8]);
}

#[test]
fn resize_2000_by_1000_to_1024() {
    assert_eq!(target_dimensions(2000, 1000, 1024), (1024, 512));
    let img = Image::from_raw(2000, 1000, vec![7u8; 4 * 2000 * 1000]).unwrap();
    let out = resize_image_to_max_edge(img, 1024).unwrap();
    assert_eq!((out.width(), out.height()), (1024, 512));
    assert_eq!(out.as_raw().len(), 4 * 1024 * 512);
}

#[test]
fn target_dimensions_round_down_each_edge() {
    assert_eq!(target_dimensions(1000, 2000, 1024), (512, 1024));
    assert_eq!(target_dimensions(3, 2, 2), (2, 1));
    assert_eq!(target_dimensions(1025, 1025, 1024), (1024, 1024));
    assert_eq!(target_dimensions(1999, 999, 1000), (1000, 499));
    assert_eq!(target_dimensions(7, 5000, 1024), (1, 1024));
    assert_eq!(target_dimensions(1, 5000, 1024), (0, 1024));
    assert_eq!(target_dimensions(10, 10, 0), (0, 0));
    assert_eq!(target_dimensions(0, 5, 3), (0, 3));
    assert_eq!(target_dimensions(0, 0, 0), (0, 0));
    assert_eq!(target_dimensions(u32::MAX, u32::MAX, u32::MAX - 1), (u32::MAX - 1, u32::MAX - 1));
}

#[test]
fn target_dimensions_keep_what_fits() {
    assert_eq!(target_dimensions(1024, 1024, 1024), (1024, 1024));
    assert_eq!(target_dimensions(640, 480, 1024), (640, 480));
    assert_eq!(target_dimensions(1, 1, u32::MAX), (1, 1));
}

#[test]
fn resize_is_identity_when_image_fits() {
    for (width, height, max_edge) in [(4u32, 3u32, 4u32), (4, 3, 5), (3, 4, 4), (1, 1, 1024)] {
        let buffer = sample_buffer((width * height) as usize);
        let img = argb8888_to_dynamic_image(width, height, buffer).unwrap();
        let out = resize_image_to_max_edge(img.clone(), max_edge).unwrap();
        assert_eq!(out, img);
    }
}

#[test]
fn resize_never_exceeds_max_edge() {
    for (width, height, max_edge) in
        [(40u32, 30u32, 16u32), (30, 40, 16), (17, 17, 16), (33, 2, 8), (100, 1, 10), (9, 9, 1)]
    {
        let buffer = sample_buffer((width * height) as usize);
        let img = argb8888_to_dynamic_image(width, height, buffer).unwrap();
        let out = resize_image_to_max_edge(img, max_edge).unwrap();
        assert_eq!((out.width(), out.height()), target_dimensions(width, height, max_edge));
        assert!(out.width() <= max_edge && out.height() <= max_edge);
        assert!(out.width().max(out.height()) == max_edge);
        assert_eq!(out.as_raw().len(), 4 * (out.width() * out.height()) as usize);
    }
}

#[test]
fn resize_to_nothing_gives_empty_image() {
    let img = Image::from_raw(3, 3, vec![9u8; 36]).unwrap();
    let out = resize_image_to_max_edge(img, 0).unwrap();
    assert_eq!((out.width(), out.height()), (0, 0));
    assert!(out.as_raw().is_empty());
    let thin = Image::from_raw(1, 40, vec![9u8; 160]).unwrap();
    let out = resize_image_to_max_edge(thin, 10).unwrap();
    assert_eq!((out.width(), out.height()), (0, 10));
    assert!(out.as_raw().is_empty());
}

#[test]
fn resize_of_flat_colour_keeps_the_colour() {
    let mut bytes = Vec::new();
    for _ in 0..(20 * 10) {
        bytes.extend_from_slice(&[10u8, 200, 30, 255]);
    }
    let img = Image::from_raw(20, 10, bytes).unwrap();
    let out = resize_image_to_max_edge(img, 8).unwrap();
    assert_eq!((out.width(), out.height()), (8, 4));
    for pixel in out.as_raw().chunks(4) {
        assert_eq!(pixel, &[10u8, 200, 30, 255]);
    }
}

#[test]
fn resize_refuses_empty_image() {
    let img = Image::from_raw(0, 5, vec![]).unwrap();
    assert_eq!(resize_image_to_max_edge(img, 10), Err(ResizeError::InvalidDimensions));
    let img = Image::from_raw(5, 0, vec![]).unwrap();
    assert_eq!(resize_image_to_max_edge(img, 1), Err(ResizeError::InvalidDimensions));
    let img = Image::from_raw(0, 0, vec![]).unwrap();
    assert_eq!(resize_image_to_max_edge(img, 0), Err(ResizeError::InvalidDimensions));
}

#[test]
fn resize_refuses_what_the_resampler_does_not_take() {
    assert_eq!(MAX_RESAMPLE_EDGE, 1 << 20);
    let edge = MAX_RESAMPLE_EDGE + 1;
    let wide = Image::from_raw(edge, 1, vec![0u8; 4 * edge as usize]).unwrap();
    assert_eq!(resize_image_to_max_edge(wide, 1024), Err(ResizeError::TooLarge));
    let high = Image::from_raw(1, edge, vec![0u8; 4 * edge as usize]).unwrap();
    assert_eq!(resize_image_to_max_edge(high, edge - 1), Err(ResizeError::TooLarge));
}

#[test]
fn resize_takes_the_longest_edge_allowed() {
    let edge = MAX_RESAMPLE_EDGE;
    let wide = Image::from_raw(edge, 1, vec![200u8; 4 * edge as usize]).unwrap();
    let out = resize_image_to_max_edge(wide, edge - 1).unwrap();
    assert_eq!((out.width(), out.height()), (edge - 1, 0));
    let wide = Image::from_raw(edge, 2, vec![200u8; 8 * edge as usize]).unwrap();
    let out = resize_image_to_max_edge(wide, edge / 2).unwrap();
    assert_eq!((out.width(), out.height()), (edge / 2, 1));
    assert!(out.as_raw().iter().all(|b| *b == 200));
}

#[test]
fn oversize_image_that_fits_comes_back_as_it_is() {
    let edge = MAX_RESAMPLE_EDGE + 1;
    let wide = Image::from_raw(edge, 1, vec![3u8; 4 * edge as usize]).unwrap();
    let out = resize_image_to_max_edge(wide.clone(), edge).unwrap();
    assert_eq!(out, wide);
}
