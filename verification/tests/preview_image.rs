use preview_image::Error;
use preview_image::Linear16;
use preview_image::PreviewImage;
use preview_image::PreviewRgba;

#[test]
fn test_empty_preview_image() -> Result<(), Error> {
    PreviewImage::empty()?;
    Ok(())
}

#[test]
fn test_preview_image_with_ok_dimensions() -> Result<(), Error> {
    PreviewImage::with_dimensions(0, 0)?;

    PreviewImage::with_dimensions(1, 1)?;
    PreviewImage::with_dimensions(1, 0)?;
    PreviewImage::with_dimensions(0, 1)?;

    PreviewImage::with_dimensions(8, 1)?;

    PreviewImage::with_dimensions(1024, 1024)?;

    PreviewImage::with_dimensions(4096, 4096)?;

    Ok(())
}

#[test]
fn test_preview_image_with_unsupported_dimensions() {
    assert!(PreviewImage::with_dimensions(u32::MAX, u32::MAX).is_err());
}

#[test]
fn test_preview_image_with_pixels() -> Result<(), Error> {
    let pixels = vec![PreviewRgba::zero(); 128 * 64];

    PreviewImage::with_pixels(128, 64, &pixels)?;

    Ok(())
}

#[test]
fn test_clone_preview_image() -> Result<(), Error> {
    let pixels = vec![PreviewRgba::zero(); 128 * 64];

    let preview_image = PreviewImage::with_pixels(128, 64, &pixels)?;

    let _ = preview_image.clone();

    Ok(())
}

#[test]
fn test_with_dimensions_reports_size_and_default_fill() {
    let image = PreviewImage::with_dimensions(3, 2).unwrap();
    assert_eq!(image.width(), 3);
    assert_eq!(image.height(), 2);
    assert_eq!(image.pixels().len(), 6);
    for y in 0..2 {
        for x in 0..3 {
            assert_eq!(image.get_pixel(x, y), Some(PreviewRgba::from_u8(0, 0, 0, 255)));
        }
    }
}

#[test]
fn test_empty_has_zero_dimensions() {
    let image = PreviewImage::empty().unwrap();
    assert_eq!(image.width(), 0);
    assert_eq!(image.height(), 0);
    assert_eq!(image.pixels().len(), 0);
    assert_eq!(image.get_pixel(0, 0), None);
}

#[test]
fn test_unsupported_dimensions_fail_with_overflow() {
    assert_eq!(
        PreviewImage::with_dimensions(u32::MAX, u32::MAX).err(),
        Some(Error::Overflow)
    );
    assert_eq!(PreviewImage::with_dimensions(0x8000, 0x8000).err(), Some(Error::Overflow));
}

#[test]
fn test_set_pixel_then_get_pixel() {
    let mut image = PreviewImage::with_dimensions(4, 4).unwrap();
    let value = PreviewRgba::from_u8(1, 2, 3, 4);
    assert_eq!(image.set_pixel(2, 3, value), Ok(()));
    assert_eq!(image.get_pixel(2, 3), Some(value));
    // the other pixels keep the default value
    assert_eq!(image.get_pixel(3, 2), Some(PreviewRgba::from_u8(0, 0, 0, 255)));
}

#[test]
fn test_out_of_range_coordinates() {
    let mut image = PreviewImage::with_dimensions(4, 4).unwrap();
    let value = PreviewRgba::from_u8(1, 2, 3, 4);
    assert_eq!(image.set_pixel(4, 0, value), Err(Error::OutOfRange));
    assert_eq!(image.set_pixel(0, 4, value), Err(Error::OutOfRange));
    assert_eq!(image.set_pixel(u32::MAX, u32::MAX, value), Err(Error::OutOfRange));
    assert_eq!(image.get_pixel(4, 0), None);
    assert_eq!(image.get_pixel(0, 4), None);
    assert_eq!(image.get_pixel(u32::MAX, u32::MAX), None);
}

#[test]
fn test_clone_is_a_deep_copy() {
    let pixels = vec![PreviewRgba::zero(); 2 * 2];
    let mut original = PreviewImage::with_pixels(2, 2, &pixels).unwrap();
    let mut copy = original.clone();
    assert_eq!(copy.width(), 2);
    assert_eq!(copy.height(), 2);

    let value = PreviewRgba::from_u8(10, 20, 30, 40);
    assert_eq!(copy.set_pixel(0, 0, value), Ok(()));
    assert_eq!(copy.get_pixel(0, 0), Some(value));
    assert_eq!(original.get_pixel(0, 0), Some(PreviewRgba::zero()));

    let other = PreviewRgba::from_u8(5, 6, 7, 8);
    assert_eq!(original.set_pixel(1, 1, other), Ok(()));
    assert_eq!(copy.get_pixel(1, 1), Some(PreviewRgba::zero()));
}

#[test]
fn test_with_pixels_reads_back_every_pixel() {
    let pixels = vec![PreviewRgba::zero(); 128 * 64];
    let image = PreviewImage::with_pixels(128, 64, &pixels).unwrap();
    assert_eq!(image.width(), 128);
    assert_eq!(image.height(), 64);
    for y in 0..64 {
        for x in 0..128 {
            assert_eq!(image.get_pixel(x, y), Some(PreviewRgba::zero()));
        }
    }
}

#[test]
fn test_mut_pixels_writes_the_buffer() {
    let mut image = PreviewImage::with_dimensions(2, 2).unwrap();
    let value = PreviewRgba::from_u8(7, 8, 9, 10);
    {
        let view = image.mut_pixels();
        assert_eq!(view.len(), 4);
        view[3] = value;
    }
    assert_eq!(image.get_pixel(1, 1), Some(value));
    assert_eq!(image.pixels()[3], value);
    assert_eq!(image.pixels()[0], PreviewRgba::from_u8(0, 0, 0, 255));
}

#[test]
fn test_pixel_equality_is_structural() {
    assert_eq!(PreviewRgba::from_u8(1, 2, 3, 4), PreviewRgba::from_u8(1, 2, 3, 4));
    assert_ne!(PreviewRgba::from_u8(1, 2, 3, 4), PreviewRgba::from_u8(1, 2, 3, 5));
    assert_eq!(PreviewRgba::default(), PreviewRgba::from_u8(0, 0, 0, 255));
    assert_eq!(PreviewRgba::zero(), PreviewRgba::from_u8(0, 0, 0, 0));
}

#[test]
fn test_from_f16_of_zero_is_the_zero_pixel() {
    let zero = Linear16::from_bits(0);
    assert_eq!(PreviewRgba::from_f16(zero, zero, zero, zero), PreviewRgba::zero());
}

#[test]
fn test_from_f16_known_values() {
    let half = Linear16::from_bits(0x3800); // 0.5
    let one = Linear16::from_bits(0x3C00); // 1.0
    let zero = Linear16::from_bits(0);
    let pixel = PreviewRgba::from_f16(one, half, zero, one);
    // 1.0 * 255 == 255; 0.5 * 255 == 127.5, truncated toward zero
    assert_eq!(pixel, PreviewRgba::from_u8(255, 127, 0, 255));
}

#[test]
fn test_from_f16_is_monotonic_on_samples() {
    // ascending samples in [0, 1]
    let bits = [
        0x0000u16, 0x0001, 0x03FF, 0x0400, 0x1C00, 0x2E66, 0x3400, 0x3800, 0x3A00, 0x3BFF,
        0x3C00,
    ];
    let zero = Linear16::from_bits(0);
    let mut previous = 0u8;
    for &b in bits.iter() {
        let pixel = PreviewRgba::from_f16(Linear16::from_bits(b), zero, zero, zero);
        assert!(pixel.r >= previous, "byte decreased at bit pattern {b:#06x}");
        previous = pixel.r;
    }
}

#[test]
fn test_from_f16_matches_half_precision_narrowing() {
    // Against the half crate, over every bit pattern: the conversion is
    // (value as f32 * 255) narrowed to u8, exactly as a float narrowing.
    for bits in 0..=u16::MAX {
        let sample = Linear16::from_bits(bits);
        let pixel = PreviewRgba::from_f16(sample, sample, sample, sample);
        let expected = (half::f16::from_bits(bits).to_f32() * 255f32) as u8;
        assert_eq!(
            pixel.r, expected,
            "mismatch at bit pattern {bits:#06x} ({})",
            half::f16::from_bits(bits)
        );
    }
}
