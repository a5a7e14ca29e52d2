use image::{DynamicImage, ImageBuffer, Luma, Rgb, Rgba};
use rapidraw_cli::picture::{
    dimensions, fit_image, fit_to_edge, holds_exact_buffer, shape, shrink_target,
};

fn gradient(width: u32, height: u32) -> DynamicImage {
    DynamicImage::ImageRgb8(ImageBuffer::from_fn(width, height, |x, y| {
        Rgb([(x * 3 % 256) as u8, (y * 5 % 256) as u8, ((x + y) % 256) as u8])
    }))
}

#[test]
fn pictures_within_the_bound_are_left() {
    assert_eq!(shrink_target(600, 400, None), None);
    assert_eq!(shrink_target(600, 400, Some(600)), None);
    assert_eq!(shrink_target(600, 400, Some(601)), None);
    assert_eq!(shrink_target(0, 0, Some(0)), None);
}

#[test]
fn longer_edge_is_brought_down() {
    assert_eq!(shrink_target(600, 400, Some(599)), Some(599));
    assert_eq!(shrink_target(400, 600, Some(599)), Some(599));
    assert_eq!(shrink_target(1, 1, Some(0)), Some(0));
    assert_eq!(shrink_target(u32::MAX, 1, Some(u32::MAX - 1)), Some(u32::MAX - 1));
}

#[test]
fn size_of_a_picture() {
    assert_eq!(dimensions(&gradient(7, 5)), (7, 5));
    assert_eq!(dimensions(&DynamicImage::new_luma8(0, 3)), (0, 3));
}

#[test]
fn picture_without_bounds_stays() {
    let picture = gradient(9, 4);
    let kept = fit_to_edge(picture.clone(), None).expect("nothing to resample");
    assert_eq!(kept, picture);
}

#[test]
fn picture_of_the_size_asked_for_stays() {
    let picture = gradient(9, 4);
    let kept = fit_image(&picture, (9, 4));
    assert_eq!(kept, picture);
}

#[test]
fn picture_is_brought_into_bounds() {
    let fitted = fit_image(&gradient(600, 400), (300, 200));
    assert_eq!(dimensions(&fitted), (300, 200));
    assert!(matches!(fitted, DynamicImage::ImageRgb8(_)));
    assert!(holds_exact_buffer(&fitted));
    assert_eq!(
        fitted,
        gradient(600, 400).resize(300, 200, image::imageops::FilterType::Lanczos3)
    );
}

#[test]
fn proportions_are_kept() {
    let fitted = fit_image(&gradient(100, 50), (40, 40));
    assert_eq!(dimensions(&fitted), (40, 20));
    let fitted = fit_image(&gradient(50, 100), (40, 40));
    assert_eq!(dimensions(&fitted), (20, 40));
}

#[test]
fn picture_keeps_at_least_a_pixel() {
    let fitted = fit_image(&gradient(100, 2), (10, 0));
    assert_eq!(dimensions(&fitted), (1, 1));
}

#[test]
fn layouts_survive_fitting() {
    let wide = DynamicImage::ImageLuma16(ImageBuffer::from_pixel(8, 8, Luma([40000u16])));
    let fitted = fit_image(&wide, (4, 4));
    assert!(matches!(fitted, DynamicImage::ImageLuma16(_)));
    let float = DynamicImage::ImageRgba32F(ImageBuffer::from_pixel(8, 8, Rgba([0.5f32; 4])));
    let fitted = fit_image(&float, (2, 2));
    assert!(matches!(fitted, DynamicImage::ImageRgba32F(_)));
    assert_eq!(dimensions(&fitted), (2, 2));
}

#[test]
fn edges_beyond_single_precision_are_not_resampled() {
    assert!(fit_to_edge(gradient(4, 4), Some(0x100_0001)).is_err());
    assert!(fit_to_edge(gradient(4, 4), Some(u32::MAX)).is_err());
}

#[test]
fn slack_in_a_buffer_is_noticed() {
    let exact = ImageBuffer::from_raw(2, 2, vec![1u8; 12]).expect("long enough");
    assert!(holds_exact_buffer(&DynamicImage::ImageRgb8(exact)));
    let slack = ImageBuffer::from_raw(2, 2, vec![1u8; 13]).expect("long enough");
    assert!(!holds_exact_buffer(&DynamicImage::ImageRgb8(slack)));
    let deep = ImageBuffer::from_raw(1, 1, vec![1u16; 3]).expect("long enough");
    assert!(holds_exact_buffer(&DynamicImage::ImageRgb16(deep)));
    assert!(holds_exact_buffer(&DynamicImage::new_rgba8(0, 0)));
}

#[test]
fn other_edge_is_rounded_to_the_nearest_pixel() {
    for (from, bounds, to) in [
        ((200, 300), (67, 100), (67, 100)),
        ((2000, 4000), (500, 1000), (500, 1000)),
        ((1000, 1000), (100, 100), (100, 100)),
        ((1000, 1), (100, 100), (100, 1)),
        ((7, 3), (5, 5), (5, 2)),
    ] {
        let fitted = fit_image(&gradient(from.0, from.1), bounds);
        assert_eq!(dimensions(&fitted), to);
    }
}

#[test]
fn longer_edge_is_met_exactly() {
    for (from, edge, to) in [
        ((1920, 1080), 13, (13, 7)),
        ((1080, 1920), 13, (7, 13)),
        ((200, 300), 100, (67, 100)),
        ((1000, 1), 100, (100, 1)),
        ((64, 64), 63, (63, 63)),
        ((5, 4), 0, (1, 1)),
    ] {
        let fitted = fit_to_edge(gradient(from.0, from.1), Some(edge)).expect("small enough");
        assert_eq!(dimensions(&fitted), to);
    }
}

#[test]
fn picture_that_is_not_resampled_is_given_back() {
    let kept = fit_to_edge(gradient(3, 2), Some(u32::MAX)).expect_err("too large");
    assert_eq!(kept, gradient(3, 2));
}

#[test]
fn shape_of_a_picture() {
    let found = shape(&DynamicImage::new_rgba16(5, 6));
    assert_eq!((found.width, found.height, found.channels, found.depth), (5, 6, 4, 2));
    let found = shape(&DynamicImage::new_luma8(1, 0));
    assert_eq!((found.width, found.height, found.channels, found.depth), (1, 0, 1, 1));
    let found = shape(&DynamicImage::new_rgb32f(2, 2));
    assert_eq!((found.channels, found.depth), (3, 4));
}

#[test]
fn empty_edges_become_a_pixel_long() {
    for (from, bounds, to) in [
        ((0, 0), (5, 4), (1, 1)),
        ((0, 0), (5, 0), (1, 1)),
        ((0, 9), (5, 4), (1, 4)),
        ((0, 9), (5, 0), (1, 1)),
        ((9, 0), (5, 4), (5, 1)),
        ((9, 0), (0, 4), (1, 1)),
        ((9, 8), (0, 4), (1, 1)),
        ((9, 8), (5, 0), (1, 1)),
        ((0, 4), (0, 4), (0, 4)),
    ] {
        let fitted = fit_image(&DynamicImage::new_rgb8(from.0, from.1), bounds);
        assert_eq!(dimensions(&fitted), to);
        assert!(holds_exact_buffer(&fitted));
        assert!(fitted.as_bytes().iter().all(|sample| *sample == 0));
    }
}
