// Reading the format, the dimensions and the resolution of image files.

use rust_xlsxwriter::error::XlsxError;
use rust_xlsxwriter::image::{
    unpack_u16_from_be_bytes, unpack_u16_from_le_bytes, unpack_u32_from_be_bytes,
    unpack_u32_from_le_bytes, DensityUnit, Image, Resolution, XlsxImageType,
};

// A PNG chunk: length, name, content, and four bytes in place of the
// checksum.
fn png_chunk(name: &[u8; 4], content: &[u8]) -> Vec<u8> {
    let mut chunk = Vec::new();
    chunk.extend_from_slice(&(content.len() as u32).to_be_bytes());
    chunk.extend_from_slice(name);
    chunk.extend_from_slice(content);
    chunk.extend_from_slice(&[0, 0, 0, 0]);
    chunk
}

// A PNG file of the given size; with a resolution in pixels per metre, if
// one is given.
fn png(width: u32, height: u32, density: Option<(u32, u32, u8)>) -> Vec<u8> {
    let mut data = vec![0x89, b'P', b'N', b'G', 0x0D, 0x0A, 0x1A, 0x0A];
    let mut header = Vec::new();
    header.extend_from_slice(&width.to_be_bytes());
    header.extend_from_slice(&height.to_be_bytes());
    header.extend_from_slice(&[8, 2, 0, 0, 0]);
    data.extend(png_chunk(b"IHDR", &header));
    if let Some((x, y, unit)) = density {
        let mut phys = Vec::new();
        phys.extend_from_slice(&x.to_be_bytes());
        phys.extend_from_slice(&y.to_be_bytes());
        phys.push(unit);
        data.extend(png_chunk(b"pHYs", &phys));
    }
    data.extend(png_chunk(b"IDAT", &[1, 2, 3]));
    data.extend(png_chunk(b"IEND", &[]));
    data
}

// A JPEG file with a JFIF header of the given unit and densities, and a
// frame header of the given size.
fn jpeg(width: u16, height: u16, units: u8, x_density: u16, y_density: u16) -> Vec<u8> {
    let mut data = vec![0xFF, 0xD8];
    // APP0: marker, length 16, "JFIF\0", version, units, densities, thumbnail.
    data.extend_from_slice(&[0xFF, 0xE0, 0x00, 0x10]);
    data.extend_from_slice(b"JFIF\0");
    data.extend_from_slice(&[1, 1, units]);
    data.extend_from_slice(&x_density.to_be_bytes());
    data.extend_from_slice(&y_density.to_be_bytes());
    data.extend_from_slice(&[0, 0]);
    // A table that is skipped.
    data.extend_from_slice(&[0xFF, 0xDB, 0x00, 0x04, 0xAA, 0xBB]);
    // SOF0: marker, length 11, precision, height, width, components.
    data.extend_from_slice(&[0xFF, 0xC0, 0x00, 0x0B, 8]);
    data.extend_from_slice(&height.to_be_bytes());
    data.extend_from_slice(&width.to_be_bytes());
    data.extend_from_slice(&[1, 1, 0x11, 0]);
    // Start of scan.
    data.extend_from_slice(&[0xFF, 0xDA, 0x00, 0x02]);
    data
}

// A BMP file of the given size, with header fields for a resolution that
// are to be ignored.
fn bmp(width: u32, height: u32) -> Vec<u8> {
    let mut data = vec![b'B', b'M'];
    data.extend_from_slice(&[0; 16]);
    data.extend_from_slice(&width.to_le_bytes());
    data.extend_from_slice(&height.to_le_bytes());
    data.extend_from_slice(&[1, 0, 24, 0, 0, 0, 0, 0, 0, 0, 0, 0]);
    // 11811 pixels per metre, which would be 300 per inch.
    data.extend_from_slice(&11811u32.to_le_bytes());
    data.extend_from_slice(&11811u32.to_le_bytes());
    data
}

// A GIF file of the given size.
fn gif(width: u16, height: u16) -> Vec<u8> {
    let mut data = b"GIF89a".to_vec();
    data.extend_from_slice(&width.to_le_bytes());
    data.extend_from_slice(&height.to_le_bytes());
    data.extend_from_slice(&[0, 0, 0]);
    data
}

// The resolution in pixels per inch.
fn dpi(resolution: Resolution) -> f64 {
    match resolution.unit {
        DensityUnit::Inch => resolution.value as f64,
        DensityUnit::Centimeter => resolution.value as f64 * 2.54,
        DensityUnit::Meter => resolution.value as f64 * 0.0254,
    }
}

const DEFAULT: Resolution = Resolution { value: 96, unit: DensityUnit::Inch };

#[test]
fn png_with_resolution_in_pixels_per_metre() {
    let image = Image::new(png(64, 64, Some((2835, 2835, 1)))).unwrap();
    assert_eq!(image.image_type(), XlsxImageType::Png);
    assert_eq!(image.width(), 64);
    assert_eq!(image.height(), 64);
    assert_eq!(image.width_dpi(), Resolution { value: 2835, unit: DensityUnit::Meter });
    assert_eq!(image.height_dpi(), Resolution { value: 2835, unit: DensityUnit::Meter });
    assert!(!image.has_default_dpi());
    assert_eq!(dpi(image.width_dpi()), 2835.0 * 0.0254);
    assert_eq!(dpi(image.width_dpi()), 72.009);
    assert!((dpi(image.height_dpi()) - 72.0).abs() < 0.01);
    assert_eq!(image.image_type().extension(), "png");
}

#[test]
fn png_resolution_values_of_common_densities() {
    let image = Image::new(png(64, 64, Some((11811, 11811, 1)))).unwrap();
    assert_eq!(dpi(image.width_dpi()), 299.9994);
    let image = Image::new(png(64, 64, Some((5906, 5906, 1)))).unwrap();
    assert_eq!(dpi(image.width_dpi()), 150.01239999999999);
    let image = Image::new(png(64, 64, Some((3780, 3780, 1)))).unwrap();
    assert_eq!(dpi(image.height_dpi()), 96.012);
}

#[test]
fn png_without_resolution_has_the_default() {
    let image = Image::new(png(200, 80, None)).unwrap();
    assert_eq!((image.width(), image.height()), (200, 80));
    assert_eq!(image.width_dpi(), DEFAULT);
    assert_eq!(image.height_dpi(), DEFAULT);
    assert!(image.has_default_dpi());
}

#[test]
fn png_resolution_with_unknown_unit_is_ignored() {
    let image = Image::new(png(23, 23, Some((2835, 2835, 0)))).unwrap();
    assert_eq!(image.width_dpi(), DEFAULT);
    assert!(image.has_default_dpi());
}

#[test]
fn png_chunks_after_the_end_chunk_are_not_read() {
    let mut data = png(32, 32, None);
    let mut header = Vec::new();
    header.extend_from_slice(&99u32.to_be_bytes());
    header.extend_from_slice(&99u32.to_be_bytes());
    header.extend_from_slice(&[8, 2, 0, 0, 0]);
    data.extend(png_chunk(b"IHDR", &header));
    let image = Image::new(data).unwrap();
    assert_eq!((image.width(), image.height()), (32, 32));
}

#[test]
fn jpeg_with_resolution_in_pixels_per_inch() {
    let image = Image::new(jpeg(64, 64, 1, 96, 96)).unwrap();
    assert_eq!(image.image_type(), XlsxImageType::Jpg);
    assert_eq!((image.width(), image.height()), (64, 64));
    assert_eq!(dpi(image.width_dpi()), 96.0);
    assert_eq!(dpi(image.height_dpi()), 96.0);
    assert_eq!(image.image_type().extension(), "jpeg");

    let image = Image::new(jpeg(640, 480, 1, 300, 150)).unwrap();
    assert_eq!((image.width(), image.height()), (640, 480));
    assert_eq!(dpi(image.width_dpi()), 300.0);
    assert_eq!(dpi(image.height_dpi()), 150.0);
    // A resolution per inch leaves the mark of the default in place.
    assert!(image.has_default_dpi());
}

#[test]
fn jpeg_with_resolution_in_pixels_per_centimetre() {
    let image = Image::new(jpeg(11, 16, 2, 28, 28)).unwrap();
    assert_eq!(image.width_dpi(), Resolution { value: 28, unit: DensityUnit::Centimeter });
    assert_eq!(dpi(image.width_dpi()), 28.0 * 2.54);
    assert!(!image.has_default_dpi());
}

#[test]
fn jpeg_resolution_of_zero_or_one_is_replaced() {
    let image = Image::new(jpeg(11, 16, 1, 0, 1)).unwrap();
    assert_eq!(image.width_dpi(), DEFAULT);
    assert_eq!(image.height_dpi(), DEFAULT);
    let image = Image::new(jpeg(11, 16, 2, 0, 40)).unwrap();
    assert_eq!(image.width_dpi(), DEFAULT);
    assert_eq!(image.height_dpi(), Resolution { value: 40, unit: DensityUnit::Centimeter });
    // One pixel per centimetre is a resolution like any other.
    let image = Image::new(jpeg(11, 16, 2, 1, 1)).unwrap();
    assert_eq!(image.width_dpi(), Resolution { value: 1, unit: DensityUnit::Centimeter });
}

#[test]
fn jpeg_resolution_without_unit_is_ignored() {
    let image = Image::new(jpeg(72, 72, 0, 1, 1)).unwrap();
    assert_eq!(image.width_dpi(), DEFAULT);
    assert_eq!(image.height_dpi(), DEFAULT);
}

#[test]
fn bmp_always_has_the_default_resolution() {
    let image = Image::new(bmp(32, 32)).unwrap();
    assert_eq!(image.image_type(), XlsxImageType::Bmp);
    assert_eq!((image.width(), image.height()), (32, 32));
    assert_eq!(dpi(image.width_dpi()), 96.0);
    assert_eq!(dpi(image.height_dpi()), 96.0);
    assert_eq!(image.image_type().extension(), "bmp");
}

#[test]
fn gif_always_has_the_default_resolution() {
    let image = Image::new(gif(200, 80)).unwrap();
    assert_eq!(image.image_type(), XlsxImageType::Gif);
    assert_eq!((image.width(), image.height()), (200, 80));
    assert_eq!(dpi(image.width_dpi()), 96.0);
    assert_eq!(dpi(image.height_dpi()), 96.0);
    assert_eq!(image.image_type().extension(), "gif");
}

#[test]
fn image_keeps_its_bytes_and_takes_an_alternative_text() {
    let data = gif(2, 3);
    let mut image = Image::new(data.clone()).unwrap();
    assert_eq!(image.data(), &data);
    assert_eq!(image.alt_text(), "");
    image.set_alt_text("A logo");
    assert_eq!(image.alt_text(), "A logo");
    assert_eq!((image.width(), image.height()), (2, 3));
}

#[test]
fn unknown_file_format() {
    let image = Image::new(b"This is not an image.".to_vec());
    assert!(matches!(image, Err(XlsxError::UnknownImageType)));
    assert!(matches!(Image::new(Vec::new()), Err(XlsxError::UnknownImageType)));
    assert!(matches!(Image::new(vec![0xFF, 0xD8, 0xFF]), Err(XlsxError::UnknownImageType)));
    assert_eq!(XlsxImageType::Unknown.extension(), "unknown");
}

#[test]
fn invalid_file_format() {
    // A PNG file without a header chunk has no dimensions.
    let mut data = vec![0x89, b'P', b'N', b'G', 0x0D, 0x0A, 0x1A, 0x0A];
    data.extend(png_chunk(b"IDAT", &[1, 2, 3]));
    data.extend(png_chunk(b"IEND", &[]));
    assert!(matches!(Image::new(data), Err(XlsxError::ImageDimensionError)));

    assert!(matches!(Image::new(png(0, 64, None)), Err(XlsxError::ImageDimensionError)));
    assert!(matches!(Image::new(png(64, 0, None)), Err(XlsxError::ImageDimensionError)));
    assert!(matches!(Image::new(gif(0, 0)), Err(XlsxError::ImageDimensionError)));
}

#[test]
fn truncated_files_have_no_dimensions() {
    let full = png(64, 64, None);
    assert!(matches!(Image::new(full[..20].to_vec()), Err(XlsxError::ImageDimensionError)));
    assert!(matches!(Image::new(b"BM123456".to_vec()), Err(XlsxError::ImageDimensionError)));
    assert!(matches!(Image::new(b"GIF89a".to_vec()), Err(XlsxError::ImageDimensionError)));
    let full = jpeg(64, 64, 1, 96, 96);
    assert!(matches!(Image::new(full[..30].to_vec()), Err(XlsxError::ImageDimensionError)));
}

#[test]
fn integers_are_read_in_both_byte_orders() {
    let data = [0x12, 0x34, 0x56, 0x78, 0x9A];
    assert_eq!(unpack_u16_from_be_bytes(&data, 0), 0x1234);
    assert_eq!(unpack_u16_from_le_bytes(&data, 0), 0x3412);
    assert_eq!(unpack_u16_from_be_bytes(&data, 3), 0x789A);
    assert_eq!(unpack_u32_from_be_bytes(&data, 0), 0x12345678);
    assert_eq!(unpack_u32_from_le_bytes(&data, 0), 0x78563412);
    assert_eq!(unpack_u32_from_be_bytes(&data, 1), 0x3456789A);
    assert_eq!(unpack_u32_from_le_bytes(&[0xFF, 0xFF, 0xFF, 0xFF], 0), u32::MAX);
}

// An image file of the given kind, size and resolution. The resolution of
// a PNG file is in pixels per metre, that of a JPEG file in pixels per
// inch; BMP and GIF files state none that is read.
fn file(kind: &str, width: u32, height: u32, density: Option<u32>) -> Vec<u8> {
    match kind {
        "png" => png(width, height, density.map(|d| (d, d, 1))),
        "jpeg" => match density {
            Some(d) => jpeg(width as u16, height as u16, 1, d as u16, d as u16),
            None => jpeg(width as u16, height as u16, 0, 1, 1),
        },
        "gif" => gif(width as u16, height as u16),
        "bmp" => bmp(width, height),
        _ => unreachable!(),
    }
}

#[test]
fn test_images() {
    let image_test_data = vec![
        // Name, width, height, width_dpi, height_dpi, type, density in the file.
        ("black_150.jpg", 64, 64, 150.0, 150.0, "jpeg", Some(150)),
        ("black_300.jpg", 64, 64, 300.0, 300.0, "jpeg", Some(300)),
        ("black_300.png", 64, 64, 299.9994, 299.9994, "png", Some(11811)),
        ("black_300e.png", 64, 64, 299.9994, 299.9994, "png", Some(11811)),
        ("black_72.jpg", 64, 64, 72.0, 72.0, "jpeg", Some(72)),
        ("black_72.png", 64, 64, 72.009, 72.009, "png", Some(2835)),
        ("black_72e.png", 64, 64, 72.009, 72.009, "png", Some(2835)),
        ("black_96.jpg", 64, 64, 96.0, 96.0, "jpeg", Some(96)),
        ("black_96.png", 64, 64, 96.012, 96.012, "png", Some(3780)),
        ("blue.jpg", 23, 23, 96.0, 96.0, "jpeg", None),
        ("blue.png", 23, 23, 96.0, 96.0, "png", None),
        ("grey.jpg", 99, 69, 96.0, 96.0, "jpeg", None),
        ("grey.png", 99, 69, 96.0, 96.0, "png", None),
        ("happy.jpg", 423, 563, 96.0, 96.0, "jpeg", None),
        ("issue32.png", 115, 115, 96.0, 96.0, "png", None),
        ("logo.gif", 200, 80, 96.0, 96.0, "gif", None),
        ("logo.jpg", 200, 80, 96.0, 96.0, "jpeg", None),
        ("logo.png", 200, 80, 96.0, 96.0, "png", None),
        ("mylogo.png", 215, 36, 95.9866, 95.9866, "png", Some(3779)),
        ("red.bmp", 32, 32, 96.0, 96.0, "bmp", None),
        ("red.gif", 32, 32, 96.0, 96.0, "gif", None),
        ("red.jpg", 32, 32, 96.0, 96.0, "jpeg", None),
        ("red.png", 32, 32, 96.0, 96.0, "png", None),
        ("red2.png", 32, 32, 96.0, 96.0, "png", None),
        ("red_208.png", 208, 49, 96.0, 96.0, "png", None),
        ("red_64x20.png", 64, 20, 96.0, 96.0, "png", None),
        ("red_readonly.png", 32, 32, 96.0, 96.0, "png", None),
        ("train.jpg", 640, 480, 96.0, 96.0, "jpeg", None),
        ("watermark.png", 1778, 1003, 329.9968, 329.9968, "png", Some(12992)),
        ("yellow.jpg", 72, 72, 96.0, 96.0, "jpeg", None),
        ("yellow.png", 72, 72, 96.0, 96.0, "png", None),
        ("zero_dpi.jpg", 11, 16, 96.0, 96.0, "jpeg", Some(0)),
        (
            "black_150.png",
            64,
            64,
            150.01239999999999,
            150.01239999999999,
            "png",
            Some(5906),
        ),
        (
            "black_150e.png",
            64,
            64,
            150.01239999999999,
            150.01239999999999,
            "png",
            Some(5906),
        ),
    ];

    for test_data in image_test_data {
        let (filename, width, height, width_dpi, height_dpi, image_type, density) = test_data;

        let image = Image::new(file(image_type, width, height, density)).unwrap();
        assert_eq!(width as f64, image.width() as f64, "{}", filename);
        assert_eq!(height as f64, image.height() as f64, "{}", filename);
        assert_eq!(width_dpi, dpi(image.width_dpi()), "{}", filename);
        assert_eq!(height_dpi, dpi(image.height_dpi()), "{}", filename);
        assert_eq!(image_type, image.image_type().extension(), "{}", filename);
    }
}
