//! The rendered picture: its size, and bringing it down to a size asked for.

use image::{DynamicImage, GenericImageView};
use vstd::prelude::*;

verus! {

/// A picture in one of the pixel layouts of the `image` crate. It is carried
/// through as it is; what it holds is named by [`image_shape`] and
/// [`image_samples`].
#[verifier::external_type_specification]
#[verifier::external_body]
pub struct ExDynamicImage(DynamicImage);

/// The size and the pixel layout of a picture.
pub struct Shape {
    pub width: u32,
    pub height: u32,
    /// Samples per pixel: grey, grey and alpha, three colours, or these and alpha.
    pub channels: u8,
    /// Bytes per sample: one, two, or four for floating-point samples.
    pub depth: u8,
}

/// The shape of a picture.
pub uninterp spec fn image_shape(image: DynamicImage) -> Shape;

/// The samples in the buffer of a picture, row by row and pixel by pixel, each as
/// the unsigned number that its bits make.
pub uninterp spec fn image_samples(image: DynamicImage) -> Seq<u32>;

/// Whether there is a pixel layout with this many samples of this many bytes:
/// floating-point samples come with colours only.
pub open spec fn is_layout(channels: u8, depth: u8) -> bool {
    &&& 1 <= channels <= 4
    &&& depth == 1 || depth == 2 || (depth == 4 && channels >= 3)
}

/// Whether the buffer of a picture holds the samples of its pixels and no more.
pub open spec fn is_exact(image: DynamicImage) -> bool {
    let shape = image_shape(image);
    image_samples(image).len() == shape.width * shape.height * shape.channels
}

/// Whether the samples of one picture are an outcome of resampling another with the
/// three-lobed Lanczos filter. The filter is computed in floating point with a sine,
/// whose last digit may differ between machines, so there can be several.
pub uninterp spec fn is_lanczos3_of(
    source_shape: Shape,
    source_samples: Seq<u32>,
    shape: Shape,
    samples: Seq<u32>,
) -> bool;

/// The longer of two edges.
pub open spec fn longer_edge(width: u32, height: u32) -> u32 {
    if width >= height {
        width
    } else {
        height
    }
}

/// The length that the longer edge of a picture is to be brought down to: the bound
/// that was asked for, where there is one and the edge is longer.
pub open spec fn shrink_to(width: u32, height: u32, resize: Option<u32>) -> Option<u32> {
    match resize {
        Some(edge) => if longer_edge(width, height) > edge {
            Some(edge)
        } else {
            None
        },
        None => None,
    }
}

/// Decides whether a picture of this size is brought down, and to what longer edge.
pub fn shrink_target(width: u32, height: u32, resize: Option<u32>) -> (edge: Option<u32>)
    ensures
        edge == shrink_to(width, height, resize),
{
    match resize {
        Some(edge) => {
            let longer: u32 = if width >= height {
                width
            } else {
                height
            };
            if longer > edge {
                Some(edge)
            } else {
                None
            }
        },
        None => None,
    }
}

/// A picture is only ever brought down, never blown up: the longer edge asked for is
/// shorter than the one it has, and a picture within the bound is left as it is.
pub proof fn law_never_enlarged(width: u32, height: u32, edge: u32)
    ensures
        shrink_to(width, height, Some(edge)) is Some <==> width > edge || height > edge,
        shrink_to(width, height, Some(edge)) is Some ==> shrink_to(width, height, Some(edge))
            == Some(edge),
        shrink_to(width, height, None) is None,
{
}

/// Calls `image::GenericImageView::dimensions`, which gives the width and the height
/// of a picture.
#[verifier::external_body]
fn image_size(image: &DynamicImage) -> (size: (u32, u32))
    ensures
        size.0 == image_shape(*image).width,
        size.1 == image_shape(*image).height,
{
    image.dimensions()
}

/// Calls `image::DynamicImage::color`, and gives the number of channels and the bytes
/// per pixel of the colour type that it names.
#[verifier::external_body]
fn image_color(image: &DynamicImage) -> (color: (u8, u8))
    ensures
        color.0 == image_shape(*image).channels,
        color.1 == image_shape(*image).channels * image_shape(*image).depth,
        is_layout(color.0, image_shape(*image).depth),
{
    let color = image.color();
    (color.channel_count(), color.bytes_per_pixel())
}

/// Calls `image::DynamicImage::as_bytes`, and gives the length of the buffer, which
/// holds every sample in as many bytes as the pixel layout says.
#[verifier::external_body]
fn image_bytes(image: &DynamicImage) -> (length: usize)
    ensures
        length == image_samples(*image).len() * image_shape(*image).depth,
{
    image.as_bytes().len()
}

/// The size and the pixel layout of a picture.
pub fn shape(image: &DynamicImage) -> (found: Shape)
    ensures
        found == image_shape(*image),
{
    let (width, height) = image_size(image);
    let (channels, pixel_bytes) = image_color(image);
    let ghost held = image_shape(*image);
    proof {
        assert((held.channels * held.depth) / held.channels as int == held.depth as int)
            by (nonlinear_arith)
            requires
                held.channels >= 1,
        ;
    }
    Shape { width, height, channels, depth: pixel_bytes / channels }
}

/// The width and the height of a picture.
pub fn dimensions(image: &DynamicImage) -> (size: (u32, u32))
    ensures
        size == (image_shape(*image).width, image_shape(*image).height),
{
    image_size(image)
}

/// Whether the buffer of a picture holds the samples of its pixels and no more.
pub fn holds_exact_buffer(image: &DynamicImage) -> (exact: bool)
    ensures
        exact == is_exact(*image),
{
    let (width, height) = image_size(image);
    let (channels, pixel_bytes) = image_color(image);
    let length: usize = image_bytes(image);
    let ghost shape = image_shape(*image);
    let ghost count = image_samples(*image).len() as int;
    proof {
        let pixels_here = shape.width * shape.height;
        let exact_count = pixels_here * shape.channels;
        assert(0 <= pixels_here <= 0xffff_ffff * 0xffff_ffff) by (nonlinear_arith)
            requires
                pixels_here == shape.width * shape.height,
                0 <= shape.width <= 0xffff_ffff,
                0 <= shape.height <= 0xffff_ffff,
        ;
        assert(0 <= pixels_here * pixel_bytes <= 0xffff_ffff * 0xffff_ffff * 255)
            by (nonlinear_arith)
            requires
                0 <= pixels_here <= 0xffff_ffff * 0xffff_ffff,
                0 <= pixel_bytes <= 255,
        ;
        assert(pixels_here * pixel_bytes == exact_count * shape.depth) by (nonlinear_arith)
            requires
                pixel_bytes == shape.channels * shape.depth,
                exact_count == pixels_here * shape.channels,
        ;
        assert(exact_count * shape.depth == count * shape.depth <==> exact_count == count)
            by (nonlinear_arith)
            requires
                shape.depth >= 1,
        ;
    }
    let pixels: u128 = width as u128 * height as u128;
    length as u128 == pixels * pixel_bytes as u128
}

/// The greater of `n` and one.
pub open spec fn at_least_one(n: u32) -> int {
    if n == 0 {
        1
    } else {
        n as int
    }
}

/// The longest edge whose positions single precision, in which resampling counts them,
/// tells apart. Beyond it the weights of a pixel can all come to nothing, and then
/// resampling panics: so it does where a row of 33245542 grey pixels of one byte is
/// brought down by one.
pub open spec fn edge_limit() -> int {
    0x100_0000
}

/// Whether a picture of this size can be resampled to the size asked for: the edges
/// are no longer than single precision can number, and the buffer between the two
/// passes and the one for the result, of at most sixteen bytes per pixel, can be
/// allocated.
pub open spec fn can_resample(width: u32, height: u32, nwidth: u32, nheight: u32) -> bool {
    &&& width <= edge_limit() && height <= edge_limit()
    &&& nwidth <= edge_limit() && nheight <= edge_limit()
    &&& width * at_least_one(nheight) * 16 <= isize::MAX
    &&& at_least_one(nwidth) * at_least_one(nheight) * 16 <= isize::MAX
}

/// Whether `made` is `other * scale / base` rounded to the nearest whole number, or one
/// where that is none. Half-way between two numbers it may be either.
pub open spec fn is_nearest(made: int, other: int, scale: int, base: int) -> bool {
    &&& made >= 1
    &&& {
        ||| -base <= 2 * (made * base - other * scale) <= base
        ||| made == 1 && 2 * (other * scale) <= base
    }
}

/// Whether a size is what a picture of another size becomes when it is brought into
/// given bounds with its proportions kept: the edge that has to change the most meets
/// its bound, the other stays within its own and is in proportion, to the nearest
/// pixel.
pub open spec fn fits(width: u32, height: u32, bounds: (u32, u32), new: (u32, u32)) -> bool {
    if bounds.0 * height <= bounds.1 * width {
        &&& new.0 == bounds.0
        &&& new.1 <= bounds.1
        &&& is_nearest(new.1 as int, height as int, bounds.0 as int, width as int)
    } else {
        &&& new.1 == bounds.1
        &&& new.0 <= bounds.0
        &&& is_nearest(new.0 as int, width as int, bounds.1 as int, height as int)
    }
}

/// Whether a size is what a picture of another size is given by resampling it to bounds
/// that are not its own size. An edge that is empty, or whose bound is, becomes one
/// pixel long; where just one edge of the picture is empty, the other meets its bound.
pub open spec fn is_new_size(
    width: u32,
    height: u32,
    bounds: (u32, u32),
    new: (u32, u32),
) -> bool {
    if width == 0 && height == 0 {
        new == (1u32, 1u32)
    } else if width == 0 {
        new.0 == 1 && new.1 == at_least_one(bounds.1)
    } else if height == 0 {
        new.0 == at_least_one(bounds.0) && new.1 == 1
    } else if bounds.0 == 0 || bounds.1 == 0 {
        new == (1u32, 1u32)
    } else {
        fits(width, height, bounds, new)
    }
}

/// Whether all of these samples are zero.
pub open spec fn is_dark(samples: Seq<u32>) -> bool {
    forall|i: int| 0 <= i < samples.len() ==> #[trigger] samples[i] == 0
}

/// Whether one picture has the pixel layout of another and the size that the other
/// has when it is brought into the given bounds. What is made of a picture without
/// pixels has zeros for samples.
pub open spec fn is_reshaped(
    source: DynamicImage,
    bounds: (u32, u32),
    resized: DynamicImage,
) -> bool {
    let from = image_shape(source);
    let to = image_shape(resized);
    &&& to.channels == from.channels && to.depth == from.depth
    &&& if bounds == (from.width, from.height) {
        to == from && image_samples(resized) == image_samples(source)
    } else {
        &&& is_new_size(from.width, from.height, bounds, (to.width, to.height))
        &&& is_exact(resized)
        &&& from.width == 0 || from.height == 0 ==> is_dark(image_samples(resized))
    }
}

/// Whether one picture is another brought into the given bounds: resampled from it,
/// unless it has that size already.
pub open spec fn is_resized(
    source: DynamicImage,
    bounds: (u32, u32),
    resized: DynamicImage,
) -> bool {
    &&& is_reshaped(source, bounds, resized)
    &&& bounds == (image_shape(source).width, image_shape(source).height) || is_lanczos3_of(
        image_shape(source),
        image_samples(source),
        image_shape(resized),
        image_samples(resized),
    )
}

/// Calls `image::DynamicImage::resize` with the filter `Lanczos3`. A picture that has
/// the size asked for is copied. Any other becomes as large as fits into that size
/// with its proportions kept, to the nearest pixel and at least one pixel each way, in
/// the same pixel layout. On longer edges than those admitted it can panic.
#[verifier::external_body]
fn resize_lanczos3(image: &DynamicImage, nwidth: u32, nheight: u32) -> (resized: DynamicImage)
    requires
        can_resample(image_shape(*image).width, image_shape(*image).height, nwidth, nheight),
    ensures
        is_reshaped(*image, (nwidth, nheight), resized),
        (nwidth, nheight) == (image_shape(*image).width, image_shape(*image).height)
            || is_lanczos3_of(
            image_shape(*image),
            image_samples(*image),
            image_shape(resized),
            image_samples(resized),
        ),
{
    image.resize(nwidth, nheight, image::imageops::FilterType::Lanczos3)
}

/// Decides whether a picture of this size can be resampled to the size asked for.
fn is_resampling_possible(width: u32, height: u32, nwidth: u32, nheight: u32) -> (possible: bool)
    ensures
        possible == can_resample(width, height, nwidth, nheight),
{
    if width > 0x100_0000 || height > 0x100_0000 || nwidth > 0x100_0000 || nheight > 0x100_0000 {
        return false;
    }
    let rows: u128 = if nheight == 0 {
        1
    } else {
        nheight as u128
    };
    let columns: u128 = if nwidth == 0 {
        1
    } else {
        nwidth as u128
    };
    proof {
        assert(0 <= width * rows <= 0x100_0000 * 0x100_0000) by (nonlinear_arith)
            requires
                0 <= width <= 0x100_0000,
                0 <= rows <= 0x100_0000,
        ;
        assert(0 <= columns * rows <= 0x100_0000 * 0x100_0000) by (nonlinear_arith)
            requires
                0 <= columns <= 0x100_0000,
                0 <= rows <= 0x100_0000,
        ;
    }
    let limit: u128 = isize::MAX as u128;
    width as u128 * rows * 16 <= limit && columns * rows * 16 <= limit
}

/// Brings a picture into bounds with its proportions kept.
pub fn fit_image(image: &DynamicImage, bounds: (u32, u32)) -> (resized: DynamicImage)
    requires
        can_resample(
            image_shape(*image).width,
            image_shape(*image).height,
            bounds.0,
            bounds.1,
        ),
    ensures
        is_resized(*image, bounds, resized),
{
    resize_lanczos3(image, bounds.0, bounds.1)
}

/// Whether one picture is another with its longer edge brought down to the length that
/// is given, if one is.
pub open spec fn is_fitted(
    source: DynamicImage,
    edge: Option<u32>,
    fitted: DynamicImage,
) -> bool {
    match edge {
        Some(length) => is_resized(source, (length, length), fitted),
        None => fitted == source,
    }
}

/// Brings the longer edge of a picture down to a given length, where one is given, with
/// its proportions kept. Gives the picture back as it is where resampling it could
/// panic.
pub fn fit_to_edge(image: DynamicImage, edge: Option<u32>) -> (fitted: Result<
    DynamicImage,
    DynamicImage,
>)
    ensures
        match (edge, fitted) {
            (_, Ok(made)) => is_fitted(image, edge, made),
            (Some(length), Err(same)) => same == image && !can_resample(
                image_shape(image).width,
                image_shape(image).height,
                length,
                length,
            ),
            (None, Err(_)) => false,
        },
{
    match edge {
        Some(length) => {
            let (width, height) = image_size(&image);
            if is_resampling_possible(width, height, length, length) {
                Ok(fit_image(&image, (length, length)))
            } else {
                Err(image)
            }
        },
        None => Ok(image),
    }
}

/// A picture that is brought down to a longer edge gets a longer edge of just that
/// length, and its orientation is kept: what was at least as wide as high is so still,
/// and the other way round.
pub proof fn law_longer_edge_is_met(source: DynamicImage, edge: u32, fitted: DynamicImage)
    requires
        is_fitted(source, Some(edge), fitted),
        1 <= edge < longer_edge(image_shape(source).width, image_shape(source).height),
        image_shape(source).width >= 1,
        image_shape(source).height >= 1,
    ensures
        ({
            let from = image_shape(source);
            let to = image_shape(fitted);
            &&& longer_edge(to.width, to.height) == edge
            &&& 1 <= to.width <= edge && 1 <= to.height <= edge
            &&& from.width >= from.height ==> to.width == edge && to.width >= to.height
            &&& from.height >= from.width ==> to.height == edge && to.height >= to.width
            &&& to.channels == from.channels && to.depth == from.depth
        }),
{
    let from = image_shape(source);
    let to = image_shape(fitted);
    assert(edge * from.height <= edge * from.width <==> from.height <= from.width)
        by (nonlinear_arith)
        requires
            edge >= 1,
    ;
    if from.height == from.width {
        let made = to.height as int;
        let other = from.height as int;
        let base = from.width as int;
        let length = edge as int;
        assert(made == length) by (nonlinear_arith)
            requires
                is_nearest(made, other, length, base),
                other == base,
                base >= 1,
                length >= 1,
        ;
    }
}

/// The size of a picture that is brought into bounds which have its proportions is
/// that of the bounds.
pub proof fn law_bounds_in_proportion_are_met(
    source: DynamicImage,
    bounds: (u32, u32),
    resized: DynamicImage,
)
    requires
        is_resized(source, bounds, resized),
        image_shape(source).width >= 1,
        image_shape(source).height >= 1,
        bounds.0 >= 1,
        bounds.1 >= 1,
        bounds.0 * image_shape(source).height == bounds.1 * image_shape(source).width,
    ensures
        image_shape(resized).width == bounds.0,
        image_shape(resized).height == bounds.1,
{
    let from = image_shape(source);
    let to = image_shape(resized);
    if bounds != (from.width, from.height) {
        let made = to.height as int;
        let other = from.height as int;
        let scale = bounds.0 as int;
        let base = from.width as int;
        let bound = bounds.1 as int;
        assert(made == bound) by (nonlinear_arith)
            requires
                is_nearest(made, other, scale, base),
                scale * other == bound * base,
                base >= 1,
                bound >= 1,
        ;
    }
}

/// A picture brought into bounds that are no larger than itself is no larger than it
/// was, and its longer edge is no longer than that of the bounds.
pub proof fn law_fitting_stays_within(
    source: DynamicImage,
    bounds: (u32, u32),
    resized: DynamicImage,
)
    requires
        is_resized(source, bounds, resized),
        1 <= bounds.0 <= image_shape(source).width,
        1 <= bounds.1 <= image_shape(source).height,
    ensures
        image_shape(resized).width <= image_shape(source).width,
        image_shape(resized).height <= image_shape(source).height,
        longer_edge(image_shape(resized).width, image_shape(resized).height) <= longer_edge(
            bounds.0,
            bounds.1,
        ),
{
}

/// The longer of two edges is one of them, and none is longer.
pub proof fn law_longer_edge(width: u32, height: u32)
    ensures
        longer_edge(width, height) == width || longer_edge(width, height) == height,
        longer_edge(width, height) >= width,
        longer_edge(width, height) >= height,
{
}

/// A picture is resampled wherever its edges and its bounds are positions that single
/// precision tells apart, and the memory for it can be asked for; so always where none
/// of them is longer than eleven thousand pixels.
pub proof fn law_what_can_be_resampled(width: u32, height: u32, nwidth: u32, nheight: u32)
    ensures
        ({
            let columns: int = if nwidth >= 1 {
                nwidth as int
            } else {
                1
            };
            let rows: int = if nheight >= 1 {
                nheight as int
            } else {
                1
            };
            can_resample(width, height, nwidth, nheight) <==> {
                &&& width <= 16777216 && height <= 16777216
                &&& nwidth <= 16777216 && nheight <= 16777216
                &&& width * rows * 16 <= isize::MAX
                &&& columns * rows * 16 <= isize::MAX
            }
        }),
        width <= 11000 && height <= 11000 && nwidth <= 11000 && nheight <= 11000 ==> can_resample(
            width,
            height,
            nwidth,
            nheight,
        ),
{
    if width <= 11000 && height <= 11000 && nwidth <= 11000 && nheight <= 11000 {
        let rows = at_least_one(nheight);
        let columns = at_least_one(nwidth);
        assert(width * rows * 16 <= 0x7fff_ffff) by (nonlinear_arith)
            requires
                0 <= width <= 11000,
                1 <= rows <= 11000,
        ;
        assert(columns * rows * 16 <= 0x7fff_ffff) by (nonlinear_arith)
            requires
                1 <= columns <= 11000,
                1 <= rows <= 11000,
        ;
    }
}

/// A picture that is not to be brought down stays the picture it is.
pub proof fn law_picture_without_an_edge_stays(source: DynamicImage, fitted: DynamicImage)
    requires
        is_fitted(source, None, fitted),
    ensures
        fitted == source,
{
}

/// A picture that is brought down to an edge is resampled from itself, in its own pixel
/// layout, and its shorter edge is in proportion: the nearest pixel to what the longer
/// edge has come down by, or one pixel.
pub proof fn law_shorter_edge_is_in_proportion(
    source: DynamicImage,
    edge: u32,
    fitted: DynamicImage,
)
    requires
        is_fitted(source, Some(edge), fitted),
        1 <= edge,
        edge < image_shape(source).width || edge < image_shape(source).height,
        image_shape(source).width >= 1,
        image_shape(source).height >= 1,
    ensures
        ({
            let from = image_shape(source);
            let to = image_shape(fitted);
            &&& from.width >= from.height ==> {
                &&& to.width == edge
                &&& to.height == 1 || 2 * (to.height * from.width - edge * from.height)
                    <= from.width
                &&& to.height == 1 || 2 * (edge * from.height - to.height * from.width)
                    <= from.width
                &&& to.height == 1 ==> 2 * (edge * from.height) <= 3 * from.width
            }
            &&& from.height >= from.width ==> {
                &&& to.height == edge
                &&& to.width == 1 || 2 * (to.width * from.height - edge * from.width)
                    <= from.height
                &&& to.width == 1 || 2 * (edge * from.width - to.width * from.height)
                    <= from.height
                &&& to.width == 1 ==> 2 * (edge * from.width) <= 3 * from.height
            }
            &&& to.channels == from.channels && to.depth == from.depth
            &&& image_samples(fitted).len() == to.width * to.height * to.channels
            &&& is_lanczos3_of(from, image_samples(source), to, image_samples(fitted))
        }),
{
    law_longer_edge_is_met(source, edge, fitted);
    let from = image_shape(source);
    let to = image_shape(fitted);
    assert(edge * from.height <= edge * from.width <==> from.height <= from.width)
        by (nonlinear_arith)
        requires
            edge >= 1,
    ;
    assert(edge * from.height == from.height * edge) by (nonlinear_arith);
    assert(edge * from.width == from.width * edge) by (nonlinear_arith);
    assert(to.height == 1 ==> to.height * from.width == from.width) by (nonlinear_arith);
    assert(to.width == 1 ==> to.width * from.height == from.height) by (nonlinear_arith);
    assert(edge == 1 ==> edge * from.height == from.height) by (nonlinear_arith);
    assert(edge == 1 ==> edge * from.width == from.width) by (nonlinear_arith);
    if from.width == from.height {
        assert(to.width * from.height == edge * from.width) by (nonlinear_arith)
            requires
                to.width == edge,
                from.width == from.height,
        ;
        assert(to.height * from.width == edge * from.height) by (nonlinear_arith)
            requires
                to.height == edge,
                from.width == from.height,
        ;
    }
}

/// A buffer is exact if it has one sample for every channel of every pixel.
pub proof fn law_exact_buffer(image: DynamicImage)
    ensures
        is_exact(image) <==> image_samples(image).len() == image_shape(image).width
            * image_shape(image).height * image_shape(image).channels,
{
}

/// Bringing the longer edge to a length is bringing the picture into a square of that
/// length.
pub proof fn law_edge_is_that_of_a_square(source: DynamicImage, edge: u32, fitted: DynamicImage)
    ensures
        is_fitted(source, Some(edge), fitted) <==> is_resized(source, (edge, edge), fitted),
{
}

/// The size of a picture that is brought into bounds, whatever they are. One that has the
/// size of the bounds stays as it is. Else the edge that has to change the most meets
/// its bound, and the other is the nearest to its proportion within its own; an edge
/// without pixels, or with a bound of none, becomes one pixel, and so does the other
/// where the picture has pixels.
pub proof fn law_size_of_a_resized_picture(
    source: DynamicImage,
    bounds: (u32, u32),
    resized: DynamicImage,
)
    requires
        is_resized(source, bounds, resized),
    ensures
        ({
            let from = image_shape(source);
            let to = image_shape(resized);
            let other = bounds.0 != from.width || bounds.1 != from.height;
            let whole = from.width >= 1 && from.height >= 1;
            let open = bounds.0 >= 1 && bounds.1 >= 1;
            &&& to.channels == from.channels && to.depth == from.depth
            &&& !other ==> to.width == from.width && to.height == from.height && image_samples(
                resized,
            ) == image_samples(source)
            &&& other ==> image_samples(resized).len() == to.width * to.height * to.channels
            &&& other ==> is_lanczos3_of(from, image_samples(source), to, image_samples(resized))
            &&& other && whole && !open ==> to.width == 1 && to.height == 1
            &&& other && from.width == 0 && from.height == 0 ==> to.width == 1 && to.height == 1
            &&& other && from.width == 0 && from.height >= 1 ==> to.width == 1 && to.height
                == if bounds.1 >= 1 {
                bounds.1
            } else {
                1
            }
            &&& other && from.width >= 1 && from.height == 0 ==> to.height == 1 && to.width
                == if bounds.0 >= 1 {
                bounds.0
            } else {
                1
            }
            &&& other && whole && open && bounds.0 * from.height <= bounds.1 * from.width ==> {
                &&& to.width == bounds.0
                &&& 1 <= to.height <= bounds.1
                &&& 2 * (from.height * bounds.0 - to.height * from.width) <= from.width
                &&& to.height > 1 ==> 2 * (to.height * from.width - from.height * bounds.0)
                    <= from.width
            }
            &&& other && whole && open && bounds.0 * from.height > bounds.1 * from.width ==> {
                &&& to.height == bounds.1
                &&& 1 <= to.width <= bounds.0
                &&& 2 * (from.width * bounds.1 - to.width * from.height) <= from.height
                &&& to.width > 1 ==> 2 * (to.width * from.height - from.width * bounds.1)
                    <= from.height
            }
        }),
{
    let from = image_shape(source);
    let to = image_shape(resized);
    assert(to.height == 1 ==> to.height * from.width == from.width) by (nonlinear_arith);
    assert(to.width == 1 ==> to.width * from.height == from.height) by (nonlinear_arith);
}

} // verus!
