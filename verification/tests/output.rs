use image::{DynamicImage, ImageBuffer, ImageFormat, Rgb};
use rapidraw_cli::output::{
    can_encode, encode_chosen, encode_for_path, format_for_extension, format_of, output_format, OutputFormat,
};

fn picture() -> DynamicImage {
    DynamicImage::ImageRgb8(ImageBuffer::from_fn(17, 11, |x, y| {
        Rgb([(x * 15) as u8, (y * 23) as u8, (x * y) as u8])
    }))
}

fn saved(picture: &DynamicImage, path: &str, quality: u8) -> Vec<u8> {
    match encode_for_path(picture, path, quality) {
        Some(Ok(bytes)) => bytes,
        Some(Err(reason)) => panic!("refused: {reason}"),
        None => panic!("slack in the buffer"),
    }
}

fn refused(picture: &DynamicImage, path: &str) -> String {
    match encode_for_path(picture, path, 90) {
        Some(Err(reason)) => reason,
        _ => panic!("not refused"),
    }
}

#[test]
fn formats_have_names() {
    assert_eq!(format_of("jpg"), Ok(OutputFormat::Jpeg));
    assert_eq!(format_of("jpeg"), Ok(OutputFormat::Jpeg));
    assert_eq!(format_of("png"), Ok(OutputFormat::Png));
    assert_eq!(format_of("webp"), Ok(OutputFormat::WebP));
    assert_eq!(format_of("tif"), Ok(OutputFormat::Tiff));
    assert_eq!(format_of("tiff"), Ok(OutputFormat::Tiff));
    assert_eq!(format_of("gif"), Err("Unsupported output format: .gif".to_string()));
    assert_eq!(format_of("JPG"), Err("Unsupported output format: .JPG".to_string()));
    assert_eq!(format_of(""), Err("Unsupported output format: .".to_string()));
}

#[test]
fn extension_asks_for_a_format() {
    assert_eq!(format_for_extension(None), Ok(OutputFormat::Jpeg));
    assert_eq!(format_for_extension(Some("TiFF".to_string())), Ok(OutputFormat::Tiff));
    assert_eq!(
        format_for_extension(Some("GIF".to_string())),
        Err("Unsupported output format: .gif".to_string())
    );
    assert_eq!(
        format_for_extension(Some("ÄÖ".to_string())),
        Err("Unsupported output format: .äö".to_string())
    );
}

#[test]
fn path_asks_for_a_format() {
    assert_eq!(output_format("a.jpg"), Ok(OutputFormat::Jpeg));
    assert_eq!(output_format("out/b.PNG"), Ok(OutputFormat::Png));
    assert_eq!(output_format("/x.y/c.webp"), Ok(OutputFormat::WebP));
    assert_eq!(output_format("a.jpg.tif"), Ok(OutputFormat::Tiff));
    assert_eq!(output_format("a.tiff/"), Ok(OutputFormat::Tiff));
    assert_eq!(output_format("a.tiff/."), Ok(OutputFormat::Tiff));
    assert_eq!(output_format("a.bmp"), Err("Unsupported output format: .bmp".to_string()));
    assert_eq!(output_format("a."), Err("Unsupported output format: .".to_string()));
    assert_eq!(output_format("..."), Err("Unsupported output format: .".to_string()));
}

#[test]
fn path_without_extension_asks_for_jpeg() {
    for path in ["photo", "", ".png", "dir.png/photo", "a.png/..", "..", ".", "/"] {
        assert_eq!(output_format(path), Ok(OutputFormat::Jpeg));
    }
}

#[test]
fn saved_pictures_bear_their_marks() {
    let picture = picture();
    assert_eq!(saved(&picture, "a.jpg", 90)[..2], [0xff, 0xd8]);
    assert_eq!(saved(&picture, "a.png", 90)[..8], [137, 80, 78, 71, 13, 10, 26, 10]);
    let webp = saved(&picture, "a.webp", 90);
    assert_eq!(&webp[..4], b"RIFF");
    assert_eq!(&webp[8..12], b"WEBP");
    let tiff = saved(&picture, "a.tif", 90);
    assert!(&tiff[..4] == b"II*\0" || &tiff[..4] == b"MM\0*");
}

#[test]
fn lossless_pictures_read_back() {
    let picture = picture();
    for (path, format) in [
        ("a.png", ImageFormat::Png),
        ("a.webp", ImageFormat::WebP),
        ("a.tiff", ImageFormat::Tiff),
    ] {
        let bytes = saved(&picture, path, 1);
        assert_eq!(image::guess_format(&bytes).expect("known"), format);
        assert_eq!(image::load_from_memory(&bytes).expect("readable"), picture);
    }
}

#[test]
fn jpeg_reads_back_in_size() {
    let read = image::load_from_memory(&saved(&picture(), "a", 90)).expect("readable");
    assert_eq!((read.width(), read.height()), (17, 11));
}

#[test]
fn jpeg_quality_is_one_to_a_hundred() {
    let picture = picture();
    assert_eq!(saved(&picture, "a.jpg", 0), saved(&picture, "a.jpg", 1));
    assert_eq!(saved(&picture, "a.jpg", 255), saved(&picture, "a.jpg", 100));
    assert_ne!(saved(&picture, "a.jpg", 1), saved(&picture, "a.jpg", 100));
}

#[test]
fn other_formats_know_no_quality() {
    let picture = picture();
    for path in ["a.png", "a.webp", "a.tif"] {
        assert_eq!(saved(&picture, path, 1), saved(&picture, path, 100));
    }
}

#[test]
fn unknown_format_is_refused_first() {
    let slack = ImageBuffer::from_raw(1, 1, vec![0u8; 5]).expect("long enough");
    let slack = DynamicImage::ImageRgb8(slack);
    assert_eq!(refused(&slack, "a.gif"), "Unsupported output format: .gif");
    assert!(encode_for_path(&slack, "a.png", 90).is_none());
    assert!(encode_for_path(&slack, "a.jpg", 90).is_none());
}

#[test]
fn refusal_is_handed_on() {
    let refused = encode_chosen(&picture(), Err("no".to_string()), 90);
    assert_eq!(refused, Err("no".to_string()));
    let made = encode_chosen(&picture(), Ok(OutputFormat::Png), 90);
    assert_eq!(made, Ok(saved(&picture(), "x.png", 90)));
}

#[test]
fn empty_pictures_are_refused() {
    let empty = DynamicImage::new_rgb8(0, 4);
    assert_eq!(
        refused(&empty, "a.jpg"),
        "Format error encoding Jpeg:\nInvalid image size (0 x 4) to encode as JPEG: \
         width and height must be >= 1 and <= 65535"
    );
    assert_eq!(refused(&empty, "a.png"), "Zero width not allowed");
    assert_eq!(refused(&DynamicImage::new_rgb8(4, 0), "a.png"), "Zero height not allowed");
    assert_eq!(
        refused(&empty, "a.webp"),
        "Format error encoding WebP:\nInvalid dimensions"
    );
    assert_eq!(
        refused(&empty, "a.tif"),
        "Format error encoding Tiff:\nformat error: invalid dimensions: 0x4"
    );
}

#[test]
fn long_edges_are_refused() {
    let long = DynamicImage::new_luma8(65536, 1);
    assert_eq!(
        refused(&long, "a.jpg"),
        "Format error encoding Jpeg:\nInvalid image size (65536 x 1) to encode as JPEG: \
         width and height must be >= 1 and <= 65535"
    );
    assert_eq!(
        refused(&long, "a.webp"),
        "Format error encoding WebP:\nInvalid dimensions"
    );
    assert_eq!(saved(&long, "a.png", 90)[1], 80);
    let webp = saved(&DynamicImage::new_luma8(16384, 1), "a.webp", 90);
    assert_eq!(&webp[8..12], b"WEBP");
    let jpeg = saved(&DynamicImage::new_luma8(65535, 1), "a.jpg", 90);
    assert_eq!(jpeg[0], 0xff);
}

#[test]
fn layouts_without_a_place_are_refused() {
    assert_eq!(
        refused(&DynamicImage::new_rgb32f(2, 2), "a.png"),
        "The encoder or decoder for Png does not support the color type `Rgb32F`"
    );
    assert_eq!(
        refused(&DynamicImage::new_luma_a8(2, 2), "a.tif"),
        "The encoder or decoder for Tiff does not support the color type `La8`"
    );
    assert_eq!(
        refused(&DynamicImage::new_luma_a16(2, 2), "a.tif"),
        "The encoder or decoder for Tiff does not support the color type `La16`"
    );
}

#[test]
fn every_layout_has_a_jpeg() {
    let layouts = [
        DynamicImage::new_luma8(3, 2),
        DynamicImage::new_luma_a8(3, 2),
        DynamicImage::new_rgb8(3, 2),
        DynamicImage::new_rgba8(3, 2),
        DynamicImage::new_luma16(3, 2),
        DynamicImage::new_luma_a16(3, 2),
        DynamicImage::new_rgb16(3, 2),
        DynamicImage::new_rgba16(3, 2),
        DynamicImage::new_rgb32f(3, 2),
        DynamicImage::new_rgba32f(3, 2),
    ];
    for picture in layouts {
        assert_eq!(saved(&picture, "a.jpeg", 90)[..2], [0xff, 0xd8]);
        assert_eq!(&saved(&picture, "a.webp", 90)[..4], b"RIFF");
    }
}

#[test]
fn paths_with_drives_and_backslashes_ask_for_a_format() {
    assert_eq!(output_format("C:\\photos\\out.png"), Ok(OutputFormat::Png));
    assert_eq!(output_format("C:out.WEBP"), Ok(OutputFormat::WebP));
    assert_eq!(output_format("a:b:c.tif"), Ok(OutputFormat::Tiff));
    assert_eq!(output_format("x\\y/z.q.jpeg"), Ok(OutputFormat::Jpeg));
    assert_eq!(output_format("C:\\photos\\out"), Ok(OutputFormat::Jpeg));
    assert_eq!(
        output_format("C:\\photos\\out.gif"),
        Err("Unsupported output format: .gif".to_string())
    );
}

#[test]
fn spellings_of_one_extension_save_alike() {
    let picture = picture();
    assert_eq!(saved(&picture, "a.PNG", 9), saved(&picture, "b/c.png", 9));
    assert_eq!(saved(&picture, "a.jpg", 9), saved(&picture, "a.JPEG", 9));
    assert_eq!(saved(&picture, "a.tif", 9), saved(&picture, "a.tiff", 9));
    assert_eq!(saved(&picture, "a", 9), saved(&picture, "a.jpg", 9));
}

#[test]
fn slack_is_dropped_where_the_layout_changes() {
    let slack = ImageBuffer::from_raw(2, 2, vec![7u8; 17]).expect("long enough");
    let slack = DynamicImage::ImageRgba8(slack);
    let exact = ImageBuffer::from_raw(2, 2, vec![7u8; 16]).expect("long enough");
    let exact = DynamicImage::ImageRgba8(exact);
    assert_eq!(saved(&slack, "a.jpg", 90), saved(&exact, "a.jpg", 90));
    assert!(encode_for_path(&slack, "a.webp", 90).is_none());
    assert!(can_encode(OutputFormat::Jpeg, &slack));
    assert!(!can_encode(OutputFormat::WebP, &slack));
    assert!(!can_encode(OutputFormat::Tiff, &slack));
    assert!(can_encode(OutputFormat::Tiff, &exact));
    let deep = ImageBuffer::from_raw(1, 1, vec![9u16; 4]).expect("long enough");
    let deep = DynamicImage::ImageRgb16(deep);
    assert_eq!(&saved(&deep, "a.webp", 90)[..4], b"RIFF");
    assert_eq!(saved(&deep, "a.jpg", 90)[0], 0xff);
    assert!(encode_for_path(&deep, "a.png", 90).is_none());
}

#[test]
fn deep_pictures_have_a_png() {
    let deep = ImageBuffer::from_fn(5, 4, |x, y| Rgb([x as u16 * 9000, y as u16 * 700, 257]));
    let deep = DynamicImage::ImageRgb16(deep);
    let read = image::load_from_memory(&saved(&deep, "a.png", 90)).expect("readable");
    assert_eq!(read, deep);
}

/// A picture of any pixel layout, with samples that differ.
fn filled(picture: DynamicImage) -> DynamicImage {
    let (width, height, color) = (picture.width(), picture.height(), picture.color());
    let bytes: Vec<u8> =
        (0..picture.as_bytes().len()).map(|i| (i * 37 + i / 256 * 11) as u8).collect();
    let words: Vec<u16> =
        bytes.as_chunks::<2>().0.iter().map(|pair| u16::from_ne_bytes(*pair)).collect();
    let floats: Vec<f32> = bytes.iter().map(|byte| *byte as f32 / 7.0).collect();
    let count = width as usize * height as usize * color.channel_count() as usize;
    match picture {
        DynamicImage::ImageLuma8(_) => ImageBuffer::from_raw(width, height, bytes)
            .map(DynamicImage::ImageLuma8),
        DynamicImage::ImageLumaA8(_) => ImageBuffer::from_raw(width, height, bytes)
            .map(DynamicImage::ImageLumaA8),
        DynamicImage::ImageRgb8(_) => ImageBuffer::from_raw(width, height, bytes)
            .map(DynamicImage::ImageRgb8),
        DynamicImage::ImageRgba8(_) => ImageBuffer::from_raw(width, height, bytes)
            .map(DynamicImage::ImageRgba8),
        DynamicImage::ImageLuma16(_) => ImageBuffer::from_raw(width, height, words)
            .map(DynamicImage::ImageLuma16),
        DynamicImage::ImageLumaA16(_) => ImageBuffer::from_raw(width, height, words)
            .map(DynamicImage::ImageLumaA16),
        DynamicImage::ImageRgb16(_) => ImageBuffer::from_raw(width, height, words)
            .map(DynamicImage::ImageRgb16),
        DynamicImage::ImageRgba16(_) => ImageBuffer::from_raw(width, height, words)
            .map(DynamicImage::ImageRgba16),
        DynamicImage::ImageRgb32F(_) => {
            ImageBuffer::from_raw(width, height, floats[..count].to_vec())
                .map(DynamicImage::ImageRgb32F)
        }
        _ => ImageBuffer::from_raw(width, height, floats[..count].to_vec())
            .map(DynamicImage::ImageRgba32F),
    }
    .expect("long enough")
}

/// The picture that is decoded from the bytes of a file.
fn decoded(bytes: Vec<u8>, format: ImageFormat) -> DynamicImage {
    let mut reader = image::ImageReader::with_format(std::io::Cursor::new(bytes), format);
    reader.no_limits();
    reader.decode().expect("readable")
}

#[test]
fn lossless_files_hold_the_picture() {
    for (width, height) in [(1, 1), (5, 3), (400, 900)] {
        let layouts = [
            DynamicImage::new_luma8(width, height),
            DynamicImage::new_luma_a8(width, height),
            DynamicImage::new_rgb8(width, height),
            DynamicImage::new_rgba8(width, height),
            DynamicImage::new_luma16(width, height),
            DynamicImage::new_luma_a16(width, height),
            DynamicImage::new_rgb16(width, height),
            DynamicImage::new_rgba16(width, height),
            DynamicImage::new_rgb32f(width, height),
            DynamicImage::new_rgba32f(width, height),
        ];
        for layout in layouts {
            let picture = filled(layout);
            let color = picture.color();
            if color.bytes_per_pixel() / color.channel_count() < 4 {
                let bytes = saved(&picture, "a.png", 1);
                assert_eq!(bytes, saved(&picture, "a.png", 100));
                assert_eq!(decoded(bytes, ImageFormat::Png), picture);
            }
            if color.channel_count() != 2 {
                let bytes = saved(&picture, "a.tif", 1);
                assert_eq!(bytes, saved(&picture, "a.tif", 100));
                assert_eq!(decoded(bytes, ImageFormat::Tiff), picture);
            }
        }
    }
}

#[test]
fn directory_of_a_tiff_file_is_where_it_should_be() {
    for (picture, channels, depth) in [
        (DynamicImage::new_luma8(3, 2), 1, 1),
        (DynamicImage::new_luma16(7, 1), 1, 2),
        (DynamicImage::new_rgb8(5, 3), 3, 1),
        (DynamicImage::new_rgba16(5, 3), 4, 2),
        (DynamicImage::new_rgb8(1000, 333), 3, 1),
        (DynamicImage::new_rgb8(1000, 334), 3, 1),
        (DynamicImage::new_rgb8(1000, 335), 3, 1),
        (DynamicImage::new_luma8(1_000_001, 4), 1, 1),
        (DynamicImage::new_rgba32f(300, 999), 4, 4),
    ] {
        let (width, height) = (picture.width() as u64, picture.height() as u64);
        let row = width * channels * depth;
        let strips = height.div_ceil(1_000_000u64.div_ceil(row));
        let lists = if strips >= 2 { 8 * strips } else { 0 };
        let kinds = if channels >= 3 { 4 * channels } else { 0 };
        let bytes = saved(&picture, "a.tif", 90);
        let at = u32::from_ne_bytes([bytes[4], bytes[5], bytes[6], bytes[7]]);
        assert_eq!(at as u64, 24 + height * row + kinds + lists);
    }
}
