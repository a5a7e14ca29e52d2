//! The encoded picture: which format a path asks for, and the bytes to be saved.

use image::DynamicImage;
use vstd::prelude::*;
use vstd::string::StringExecFns;

use crate::picture::{holds_exact_buffer, shape, Shape};
use crate::text::same_text;

verus! {

/// The formats that a picture can be saved in.
#[derive(Clone, Copy, PartialEq, Eq, Structural, Debug)]
pub enum OutputFormat {
    Jpeg,
    Png,
    WebP,
    Tiff,
}

/// What stands behind the last `mark` in `text`, if there is one.
pub open spec fn after_last(text: Seq<char>, mark: char) -> Option<Seq<char>>
    decreases text.len(),
{
    if text.len() == 0 {
        None
    } else if text.last() == mark {
        Some(Seq::empty())
    } else {
        match after_last(text.drop_last(), mark) {
            Some(behind) => Some(behind.push(text.last())),
            None => None,
        }
    }
}

/// The last part of a path whose parts are separated by slashes. Slashes at the end,
/// and last parts that are a single dot, do not count. Two dots are no name.
pub open spec fn file_name(path: Seq<char>) -> Option<Seq<char>>
    decreases path.len(),
{
    if path.len() == 0 {
        None
    } else {
        let last = match after_last(path, '/') {
            Some(behind) => behind,
            None => path,
        };
        if last.len() == 0 || last == seq!['.'] {
            file_name(path.drop_last())
        } else if last == seq!['.', '.'] {
            None
        } else {
            Some(last)
        }
    }
}

/// The extension of a path whose parts are separated by slashes: what stands behind the
/// last dot of its file name, unless that dot is the first character.
pub open spec fn file_extension(path: Seq<char>) -> Option<Seq<char>> {
    match file_name(path) {
        Some(name) => match after_last(name, '.') {
            Some(extension) => if extension.len() + 1 < name.len() {
                Some(extension)
            } else {
                None
            },
            None => None,
        },
        None => None,
    }
}

/// Whether a character separates the parts of a path on some system: a slash, a
/// backslash, or the colon behind a drive.
pub open spec fn is_divider(c: char) -> bool {
    c == '/' || c == '\\' || c == ':'
}

/// What stands behind the last divider of a path.
pub open spec fn last_segment(path: Seq<char>) -> Seq<char>
    decreases path.len(),
{
    if path.len() == 0 || is_divider(path.last()) {
        Seq::empty()
    } else {
        last_segment(path.drop_last()).push(path.last())
    }
}

/// Whether a path begins with two slashes or backslashes, which name a server or a
/// device on some systems.
pub open spec fn names_a_server(path: Seq<char>) -> bool {
    &&& path.len() >= 2
    &&& path[0] == '/' || path[0] == '\\'
    &&& path[1] == '/' || path[1] == '\\'
}

/// Whether a path ends in a name with an extension, whatever separates parts: behind
/// its last divider stand one character or more, a dot and the extension.
pub open spec fn has_plain_name(path: Seq<char>) -> bool {
    let name = last_segment(path);
    &&& !names_a_server(path)
    &&& name != seq!['.', '.']
    &&& after_last(name, '.') matches Some(extension) && extension.len() + 1 < name.len()
}

/// Whether a path uses slashes only to separate its parts.
pub open spec fn has_slashes_only(path: Seq<char>) -> bool {
    !path.contains('\\') && !path.contains(':') && !names_a_server(path)
}

/// Whether the extension of a path is the same on all systems: it ends in a name with an
/// extension, or there is no dot in it, or it uses slashes only.
pub open spec fn is_portable(path: Seq<char>) -> bool {
    has_plain_name(path) || !path.contains('.') || has_slashes_only(path)
}

/// The extension of a path.
pub open spec fn extension_of(path: Seq<char>) -> Option<Seq<char>> {
    if has_plain_name(path) {
        after_last(last_segment(path), '.')
    } else if path.contains('.') {
        file_extension(path)
    } else {
        None
    }
}

/// Calls `std::path::Path::extension`. Where all systems agree on it, the result is what
/// stands behind the last dot of the file name. Of other paths nothing is said here:
/// which of their characters separate parts depends on the system.
#[verifier::external_body]
fn path_extension(path: &str) -> (extension: Option<String>)
    ensures
        is_portable(path@) ==> crate::pipeline::option_text(extension) == extension_of(path@),
{
    match std::path::Path::new(path).extension() {
        Some(extension) => extension.to_str().map(String::from),
        None => None,
    }
}

/// A text in lower case.
pub uninterp spec fn unicode_lowercase(text: Seq<char>) -> Seq<char>;

/// Whether every character of a text is an ASCII character.
pub open spec fn is_ascii_text(text: Seq<char>) -> bool {
    forall|i: int| 0 <= i < text.len() ==> #[trigger] text[i] < '\u{80}'
}

/// The lower case of an ASCII letter; any other character stays as it is.
pub open spec fn ascii_lower(c: char) -> char {
    if 'A' <= c <= 'Z' {
        (c as int + 32) as char
    } else {
        c
    }
}

/// A text with its ASCII letters in lower case.
pub open spec fn ascii_lowered(text: Seq<char>) -> Seq<char> {
    text.map_values(|c: char| ascii_lower(c))
}

/// Calls `str::to_lowercase`, which follows the Unicode property. Of an ASCII text it
/// lowers the letters `A` to `Z` and keeps the rest.
#[verifier::external_body]
fn lowercase(text: &str) -> (lowered: String)
    ensures
        lowered@ == unicode_lowercase(text@),
        is_ascii_text(text@) ==> lowered@ == ascii_lowered(text@),
{
    text.to_lowercase()
}

/// A text in lower case, letter by letter where it is an ASCII text.
pub open spec fn lowered(text: Seq<char>) -> Seq<char> {
    if is_ascii_text(text) {
        ascii_lowered(text)
    } else {
        unicode_lowercase(text)
    }
}

/// The format that an extension in lower case stands for, or why it is refused.
pub open spec fn format_named(extension: Seq<char>) -> Result<OutputFormat, Seq<char>> {
    if extension == "jpg"@ || extension == "jpeg"@ {
        Ok(OutputFormat::Jpeg)
    } else if extension == "png"@ {
        Ok(OutputFormat::Png)
    } else if extension == "webp"@ {
        Ok(OutputFormat::WebP)
    } else if extension == "tif"@ || extension == "tiff"@ {
        Ok(OutputFormat::Tiff)
    } else {
        Err("Unsupported output format: ."@ + extension)
    }
}

/// The format that the extension of a path asks for: JPEG where there is none.
pub open spec fn format_for(extension: Option<Seq<char>>) -> Result<OutputFormat, Seq<char>> {
    match extension {
        Some(given) => format_named(lowered(given)),
        None => Ok(OutputFormat::Jpeg),
    }
}

/// Whether `made` is the outcome `wanted`, with the text of a refusal as characters.
pub open spec fn is_choice(
    made: Result<OutputFormat, String>,
    wanted: Result<OutputFormat, Seq<char>>,
) -> bool {
    match made {
        Ok(format) => wanted == Ok::<OutputFormat, Seq<char>>(format),
        Err(reason) => wanted == Err::<OutputFormat, Seq<char>>(reason@),
    }
}

/// The format that an extension in lower case stands for.
pub fn format_of(extension: &str) -> (format: Result<OutputFormat, String>)
    ensures
        is_choice(format, format_named(extension@)),
{
    if same_text(extension, "jpg") || same_text(extension, "jpeg") {
        Ok(OutputFormat::Jpeg)
    } else if same_text(extension, "png") {
        Ok(OutputFormat::Png)
    } else if same_text(extension, "webp") {
        Ok(OutputFormat::WebP)
    } else if same_text(extension, "tif") || same_text(extension, "tiff") {
        Ok(OutputFormat::Tiff)
    } else {
        let mut reason = "Unsupported output format: .".to_string();
        reason.append(extension);
        Err(reason)
    }
}

/// The format that the extension of a path asks for.
pub fn format_for_extension(extension: Option<String>) -> (format: Result<OutputFormat, String>)
    ensures
        is_choice(format, format_for(crate::pipeline::option_text(extension))),
{
    match extension {
        Some(given) => format_of(lowercase(given.as_str()).as_str()),
        None => Ok(OutputFormat::Jpeg),
    }
}

/// The format that a path asks for, by its extension.
pub fn output_format(path: &str) -> (format: Result<OutputFormat, String>)
    ensures
        is_portable(path@) ==> is_choice(format, format_for(extension_of(path@))),
        exists|extension: Option<Seq<char>>|
            is_choice(format, #[trigger] format_for(extension)),
{
    format_for_extension(path_extension(path))
}

/// The quality that an encoder goes by, which knows one to a hundred only.
pub open spec fn effective_quality(quality: u8) -> u8 {
    if quality < 1 {
        1
    } else if quality > 100 {
        100
    } else {
        quality
    }
}

/// The bytes of a picture as JPEG, at a quality from one to a hundred.
pub uninterp spec fn jpeg_bytes(shape: Shape, samples: Seq<u32>, quality: u8) -> Seq<u8>;

/// The bytes of a picture in one of the lossless formats. A TIFF file can be written in
/// either byte order, with the low byte of a number first or last; to the others the
/// order makes no difference.
pub uninterp spec fn lossless_bytes(
    format: OutputFormat,
    shape: Shape,
    samples: Seq<u32>,
    low_first: bool,
) -> Seq<u8>;

/// The picture that `image::ImageReader`, told the format and freed of its limits, decodes
/// from the bytes of a file.
pub uninterp spec fn decoded_picture(format: OutputFormat, bytes: Seq<u8>) -> (
    Shape,
    Seq<u32>,
);

/// Whether files of a format hold a picture sample by sample. WebP does so without loss
/// too, but in colours of one byte per sample, whatever the picture has.
pub open spec fn keeps_samples(format: OutputFormat) -> bool {
    format is Png || format is Tiff
}

/// Whether these are the bytes of a TIFF file that has the low byte of a number first.
pub open spec fn is_low_first(format: OutputFormat, bytes: Seq<u8>) -> bool {
    format is Tiff && seq![73u8, 73, 42, 0].is_prefix_of(bytes)
}

/// Whether bytes begin with the mark that tells the files of a format.
pub open spec fn has_mark(format: OutputFormat, bytes: Seq<u8>) -> bool {
    match format {
        OutputFormat::Jpeg => seq![0xffu8, 0xd8].is_prefix_of(bytes),
        OutputFormat::Png => seq![137u8, 80, 78, 71, 13, 10, 26, 10].is_prefix_of(bytes),
        OutputFormat::WebP => {
            &&& seq![82u8, 73, 70, 70].is_prefix_of(bytes)
            &&& bytes.len() >= 12
            &&& bytes.subrange(8, 12) == seq![87u8, 69, 66, 80]
        },
        OutputFormat::Tiff => {
            ||| seq![73u8, 73, 42, 0].is_prefix_of(bytes)
            ||| seq![77u8, 77, 0, 42].is_prefix_of(bytes)
        },
    }
}

/// How the `image` crate names a pixel layout.
pub open spec fn layout_name(channels: u8, depth: u8) -> Seq<char> {
    let color = if channels == 1 {
        "L"@
    } else if channels == 2 {
        "La"@
    } else if channels == 3 {
        "Rgb"@
    } else {
        "Rgba"@
    };
    color + if depth == 1 {
        "8"@
    } else if depth == 2 {
        "16"@
    } else {
        "32F"@
    }
}

/// Why a format has no place for a pixel layout.
pub open spec fn layout_refusal(format: Seq<char>, shape: Shape) -> Seq<char> {
    "The encoder or decoder for "@ + format + " does not support the color type `"@ + layout_name(
        shape.channels,
        shape.depth,
    ) + "`"@
}

/// The bytes that one row of a picture takes.
pub open spec fn row_bytes(shape: Shape) -> int {
    shape.width * shape.channels * shape.depth
}

/// How many strips the rows of a picture make in a TIFF file: a strip has the fewest rows
/// that come to a million bytes.
pub open spec fn strip_count(shape: Shape) -> int {
    let rows = (999_999 + row_bytes(shape)) / row_bytes(shape);
    (shape.height + rows - 1) / rows
}

/// Where the directory of a TIFF file begins. In front of it are the header and two
/// resolutions, in twenty-four bytes, the samples, the depth and the kind of each sample
/// of a pixel where they do not fit into the directory itself, and the place and the
/// length of each strip where there are several.
pub open spec fn directory_offset(shape: Shape) -> int {
    24 + shape.height * row_bytes(shape) + (if shape.channels >= 3 {
        4 * shape.channels
    } else {
        0
    }) + (if strip_count(shape) >= 2 {
        8 * strip_count(shape)
    } else {
        0
    })
}

/// Why a picture of this shape cannot be saved in a format, if it cannot. A TIFF file
/// has to have its directory where thirty-two bits can point to.
pub open spec fn refusal(format: OutputFormat, shape: Shape) -> Option<Seq<char>> {
    match format {
        OutputFormat::Jpeg => if 1 <= shape.width <= 65535 && 1 <= shape.height <= 65535 {
            None
        } else {
            Some(
                "Format error encoding Jpeg:\nInvalid image size ("@
                    + crate::numbers::decimal_digits(shape.width as nat) + " x "@
                    + crate::numbers::decimal_digits(shape.height as nat)
                    + ") to encode as JPEG: width and height must be >= 1 and <= 65535"@,
            )
        },
        OutputFormat::Png => if shape.depth == 4 {
            Some(layout_refusal("Png"@, shape))
        } else if shape.width == 0 {
            Some("Zero width not allowed"@)
        } else if shape.height == 0 {
            Some("Zero height not allowed"@)
        } else {
            None
        },
        OutputFormat::WebP => if 1 <= shape.width <= 16384 && 1 <= shape.height <= 16384 {
            None
        } else {
            Some("Format error encoding WebP:\nInvalid dimensions"@)
        },
        OutputFormat::Tiff => if shape.channels == 2 {
            Some(layout_refusal("Tiff"@, shape))
        } else if shape.width == 0 || shape.height == 0 {
            Some(
                "Format error encoding Tiff:\nformat error: invalid dimensions: "@
                    + crate::numbers::decimal_digits(shape.width as nat) + "x"@
                    + crate::numbers::decimal_digits(shape.height as nat),
            )
        } else if directory_offset(shape) > 0xffff_ffff {
            Some("Format error encoding Tiff:\nplatform or format size limits exceeded"@)
        } else {
            None
        },
    }
}

/// What can come of encoding a picture that its format does not refuse: success, but
/// for one thing. Samples of two bytes are put in order for PNG in a second buffer,
/// which may not be had.
pub open spec fn is_delivered(
    format: OutputFormat,
    shape: Shape,
    result: Result<Vec<u8>, String>,
) -> bool {
    ||| result is Ok
    ||| format is Png && shape.depth == 2 && is_refused(result, "Memory limit exceeded"@)
}

/// Whether a picture of this shape is first copied to another pixel layout, which the
/// encoder of the format can take.
pub open spec fn is_converted(format: OutputFormat, shape: Shape) -> bool {
    match format {
        OutputFormat::Jpeg => shape.depth != 1 || shape.channels == 2 || shape.channels == 4,
        OutputFormat::WebP => shape.depth != 1,
        _ => false,
    }
}

/// Whether a picture can be handed to the encoder of a format, which wants a buffer that
/// holds the pixels and no more. A copy in another pixel layout has such a buffer.
pub open spec fn is_encodable(format: OutputFormat, image: DynamicImage) -> bool {
    crate::picture::is_exact(image) || is_converted(format, crate::picture::image_shape(image))
}

/// Whether a result of encoding is a refusal for this reason.
pub open spec fn is_refused(result: Result<Vec<u8>, String>, reason: Seq<char>) -> bool {
    match result {
        Ok(_) => false,
        Err(text) => text@ == reason,
    }
}

/// Calls `image::DynamicImage::write_with_encoder` with a JPEG encoder made by
/// `JpegEncoder::new_with_quality`, writing to a vector. The encoder brings the
/// quality into the range from one to a hundred. It refuses a picture that is empty
/// or has an edge longer than 65535 pixels, and no other. It panics where the buffer
/// of the picture is longer than its pixels need, unless the picture is first copied
/// to another pixel layout.
#[verifier::external_body]
fn write_jpeg(image: &DynamicImage, quality: u8) -> (result: Result<Vec<u8>, String>)
    requires
        is_encodable(OutputFormat::Jpeg, *image),
    ensures
        match refusal(OutputFormat::Jpeg, crate::picture::image_shape(*image)) {
            Some(reason) => is_refused(result, reason),
            None => result is Ok,
        },
        result matches Ok(bytes) ==> has_mark(OutputFormat::Jpeg, bytes@) && bytes@ == jpeg_bytes(
            crate::picture::image_shape(*image),
            crate::picture::image_samples(*image),
            effective_quality(quality),
        ),
{
    let mut bytes = Vec::new();
    let encoder = image::codecs::jpeg::JpegEncoder::new_with_quality(&mut bytes, quality);
    match image.write_with_encoder(encoder) {
        Ok(()) => Ok(bytes),
        Err(error) => Err(error.to_string()),
    }
}

/// Calls `image::DynamicImage::write_to` with one of the lossless formats, writing to
/// a vector. What the format refuses, and why, follows from the shape of the picture
/// alone, and the bytes from the picture and the byte order. From a PNG or a TIFF file
/// the decoder of the same format reads the picture back as it was. It panics where the
/// buffer of the picture is longer than its pixels need, unless the picture is first
/// copied to another pixel layout.
#[verifier::external_body]
fn write_lossless(image: &DynamicImage, format: OutputFormat) -> (result: Result<Vec<u8>, String>)
    requires
        is_encodable(format, *image),
        !(format is Jpeg),
    ensures
        match refusal(format, crate::picture::image_shape(*image)) {
            Some(reason) => is_refused(result, reason),
            None => is_delivered(format, crate::picture::image_shape(*image), result),
        },
        result matches Ok(bytes) ==> has_mark(format, bytes@) && bytes@ == lossless_bytes(
            format,
            crate::picture::image_shape(*image),
            crate::picture::image_samples(*image),
            is_low_first(format, bytes@),
        ),
        result matches Ok(bytes) ==> keeps_samples(format) ==> decoded_picture(format, bytes@) == (
            crate::picture::image_shape(*image),
            crate::picture::image_samples(*image),
        ),
{
    let mut cursor = std::io::Cursor::new(Vec::new());
    let outside = match format {
        OutputFormat::Jpeg => image::ImageFormat::Jpeg,
        OutputFormat::Png => image::ImageFormat::Png,
        OutputFormat::WebP => image::ImageFormat::WebP,
        OutputFormat::Tiff => image::ImageFormat::Tiff,
    };
    match image.write_to(&mut cursor, outside) {
        Ok(()) => Ok(cursor.into_inner()),
        Err(error) => Err(error.to_string()),
    }
}

/// Whether this is the result of encoding a picture in the format that was chosen for
/// it, or of refusing to.
pub open spec fn is_encoded(
    shape: Shape,
    samples: Seq<u32>,
    chosen: Result<OutputFormat, Seq<char>>,
    quality: u8,
    result: Result<Vec<u8>, String>,
) -> bool {
    match chosen {
        Err(reason) => is_refused(result, reason),
        Ok(format) => match refusal(format, shape) {
            Some(reason) => is_refused(result, reason),
            None => {
                &&& is_delivered(format, shape, result)
                &&& result matches Ok(bytes) ==> has_mark(format, bytes@) && if format is Jpeg {
                    bytes@ == jpeg_bytes(shape, samples, effective_quality(quality))
                } else {
                    &&& bytes@ == lossless_bytes(
                        format,
                        shape,
                        samples,
                        is_low_first(format, bytes@),
                    )
                    &&& keeps_samples(format) ==> decoded_picture(format, bytes@) == (
                        shape,
                        samples,
                    )
                }
            },
        },
    }
}

/// The choice of a format, with the text of a refusal as characters.
pub open spec fn choice_text(chosen: Result<OutputFormat, String>) -> Result<
    OutputFormat,
    Seq<char>,
> {
    match chosen {
        Ok(format) => Ok(format),
        Err(reason) => Err(reason@),
    }
}

/// Encodes a picture in the format that was chosen for it, or hands on why none was.
pub fn encode_chosen(
    image: &DynamicImage,
    chosen: Result<OutputFormat, String>,
    quality: u8,
) -> (result: Result<Vec<u8>, String>)
    requires
        chosen matches Ok(format) ==> is_encodable(format, *image),
    ensures
        is_encoded(
            crate::picture::image_shape(*image),
            crate::picture::image_samples(*image),
            choice_text(chosen),
            quality,
            result,
        ),
{
    match chosen {
        Ok(OutputFormat::Jpeg) => write_jpeg(image, quality),
        Ok(format) => write_lossless(image, format),
        Err(reason) => Err(reason),
    }
}

/// Whether a picture can be handed to the encoder of a format.
pub fn can_encode(format: OutputFormat, image: &DynamicImage) -> (can: bool)
    ensures
        can == is_encodable(format, *image),
{
    if holds_exact_buffer(image) {
        return true;
    }
    let found = shape(image);
    match format {
        OutputFormat::Jpeg => found.depth != 1 || found.channels == 2 || found.channels == 4,
        OutputFormat::WebP => found.depth != 1,
        _ => false,
    }
}

/// Encodes a picture in the format that the path it is to be saved under asks for.
/// Gives nothing where there is such a format, but the picture cannot be handed to its
/// encoder, since its buffer holds more than its pixels.
pub fn encode_for_path(image: &DynamicImage, path: &str, quality: u8) -> (result: Option<
    Result<Vec<u8>, String>,
>)
    ensures
        match result {
            Some(encoded) => {
                &&& is_portable(path@) ==> is_encoded(
                    crate::picture::image_shape(*image),
                    crate::picture::image_samples(*image),
                    format_for(extension_of(path@)),
                    quality,
                    encoded,
                )
                &&& exists|extension: Option<Seq<char>>|
                    is_encoded(
                        crate::picture::image_shape(*image),
                        crate::picture::image_samples(*image),
                        #[trigger] format_for(extension),
                        quality,
                        encoded,
                    )
            },
            None => {
                &&& !crate::picture::is_exact(*image)
                &&& is_portable(path@) ==> (format_for(extension_of(path@)) matches Ok(format)
                    && !is_encodable(format, *image))
            },
        },
{
    let chosen = output_format(path);
    match &chosen {
        Ok(format) => if !can_encode(*format, image) {
            return None;
        },
        Err(_) => {},
    }
    Some(encode_chosen(image, chosen, quality))
}

/// Whatever is saved bears the mark of the format that was chosen for it.
pub proof fn law_saved_bytes_bear_the_mark(
    shape: Shape,
    samples: Seq<u32>,
    format: OutputFormat,
    quality: u8,
    result: Result<Vec<u8>, String>,
)
    requires
        is_encoded(shape, samples, Ok(format), quality, result),
    ensures
        result matches Ok(bytes) ==> has_mark(format, bytes@),
{
}

/// Nothing is lost in a PNG or a TIFF file: decoding it gives back a picture of the same
/// size, pixel layout and samples, whatever the quality.
pub proof fn law_lossless_files_hold_the_picture(
    shape: Shape,
    samples: Seq<u32>,
    format: OutputFormat,
    quality: u8,
    result: Result<Vec<u8>, String>,
)
    requires
        is_encoded(shape, samples, Ok(format), quality, result),
        keeps_samples(format),
    ensures
        result matches Ok(bytes) ==> decoded_picture(format, bytes@) == (shape, samples),
{
}

/// Two pictures that make the same PNG or the same TIFF file are one picture.
pub proof fn law_lossless_files_tell_pictures_apart(
    shape: Shape,
    samples: Seq<u32>,
    other_shape: Shape,
    other_samples: Seq<u32>,
    format: OutputFormat,
    quality: u8,
    bytes: Vec<u8>,
)
    requires
        is_encoded(shape, samples, Ok(format), quality, Ok(bytes)),
        is_encoded(other_shape, other_samples, Ok(format), quality, Ok(bytes)),
        keeps_samples(format),
    ensures
        shape == other_shape,
        samples == other_samples,
{
}

/// A quality below one counts as one, and one above a hundred as a hundred: what is
/// saved is always of a quality from one to a hundred.
pub proof fn law_quality_is_one_to_a_hundred(
    shape: Shape,
    samples: Seq<u32>,
    chosen: Result<OutputFormat, Seq<char>>,
    quality: u8,
    result: Result<Vec<u8>, String>,
)
    ensures
        1 <= effective_quality(quality) <= 100,
        1 <= quality <= 100 ==> effective_quality(quality) == quality,
        is_encoded(shape, samples, chosen, quality, result) <==> is_encoded(
            shape,
            samples,
            chosen,
            effective_quality(quality),
            result,
        ),
{
}

/// The quality matters to JPEG alone. WebP too is written without loss, since its encoder
/// knows no other way; it is not told the quality, and nor are those of PNG and TIFF.
pub proof fn law_quality_matters_to_jpeg_only(
    shape: Shape,
    samples: Seq<u32>,
    chosen: Result<OutputFormat, Seq<char>>,
    quality: u8,
    other: u8,
    result: Result<Vec<u8>, String>,
)
    requires
        chosen != Ok::<OutputFormat, Seq<char>>(OutputFormat::Jpeg),
    ensures
        is_encoded(shape, samples, chosen, quality, result) <==> is_encoded(
            shape,
            samples,
            chosen,
            other,
            result,
        ),
{
}

/// Whether two extensions in lower case are two spellings of one.
pub open spec fn are_spellings(a: Seq<char>, b: Seq<char>) -> bool {
    ||| a == b
    ||| (a == "jpg"@ || a == "jpeg"@) && (b == "jpg"@ || b == "jpeg"@)
    ||| (a == "tif"@ || a == "tiff"@) && (b == "tif"@ || b == "tiff"@)
}

/// Extensions that differ only in capital and small letters, or as `jpg` and `jpeg` or
/// as `tif` and `tiff`, ask for the same format. One that is refused is refused alike.
pub proof fn law_spelling_of_extension_does_not_matter(a: Seq<char>, b: Seq<char>)
    requires
        are_spellings(lowered(a), lowered(b)),
    ensures
        format_for(Some(a)) == format_for(Some(b)),
{
    reveal_strlit("jpg");
    reveal_strlit("jpeg");
    reveal_strlit("png");
    reveal_strlit("webp");
    reveal_strlit("tif");
    reveal_strlit("tiff");
    assert("tif"@[0] == 't' && "tiff"@[0] == 't');
    assert("jpg"@[0] == 'j' && "jpeg"@[0] == 'j');
    assert("png"@[0] == 'p' && "webp"@[0] == 'w');
}

/// Extensions of ASCII characters that differ only in capital and small letters are
/// spellings of one.
pub proof fn law_case_of_extension_does_not_matter(a: Seq<char>, b: Seq<char>)
    requires
        is_ascii_text(a),
        is_ascii_text(b),
        ascii_lowered(a) == ascii_lowered(b),
    ensures
        are_spellings(lowered(a), lowered(b)),
        format_for(Some(a)) == format_for(Some(b)),
{
}

/// Whether two results of encoding are in the same byte order, as any two of one machine
/// are.
pub open spec fn in_one_order(
    format: OutputFormat,
    a: Result<Vec<u8>, String>,
    b: Result<Vec<u8>, String>,
) -> bool {
    match (a, b) {
        (Ok(one), Ok(other)) => is_low_first(format, one@) == is_low_first(format, other@),
        _ => true,
    }
}

/// The same picture, encoded twice in the same format, comes to the same bytes wherever
/// both succeed, or is refused with the same words. For a lossless format that holds
/// whatever the qualities are; for JPEG they have to be the same in effect.
pub proof fn law_same_picture_same_bytes(
    shape: Shape,
    samples: Seq<u32>,
    chosen: Result<OutputFormat, Seq<char>>,
    quality: u8,
    other_quality: u8,
    a: Result<Vec<u8>, String>,
    b: Result<Vec<u8>, String>,
)
    requires
        is_encoded(shape, samples, chosen, quality, a),
        is_encoded(shape, samples, chosen, other_quality, b),
        chosen matches Ok(format) ==> in_one_order(format, a, b),
        chosen == Ok::<OutputFormat, Seq<char>>(OutputFormat::Jpeg) ==> effective_quality(quality)
            == effective_quality(other_quality),
    ensures
        match (a, b) {
            (Ok(one), Ok(other)) => one@ == other@,
            (Err(one), Err(other)) => (chosen matches Ok(format) ==> refusal(format, shape) is Some)
                ==> one@ == other@,
            _ => chosen matches Ok(format) && refusal(format, shape) is None,
        },
{
}

/// Two paths whose extensions are spellings of one save a picture alike.
pub proof fn law_paths_of_one_extension_save_alike(
    shape: Shape,
    samples: Seq<u32>,
    path: Seq<char>,
    other_path: Seq<char>,
    quality: u8,
    result: Result<Vec<u8>, String>,
)
    requires
        match (extension_of(path), extension_of(other_path)) {
            (Some(a), Some(b)) => are_spellings(lowered(a), lowered(b)),
            (None, None) => true,
            _ => false,
        },
    ensures
        is_encoded(shape, samples, format_for(extension_of(path)), quality, result)
            <==> is_encoded(
            shape,
            samples,
            format_for(extension_of(other_path)),
            quality,
            result,
        ),
{
    match (extension_of(path), extension_of(other_path)) {
        (Some(a), Some(b)) => {
            law_spelling_of_extension_does_not_matter(a, b);
        },
        _ => {},
    }
}

/// A path without an extension asks for JPEG, as the extension `jpg` does.
pub proof fn law_jpeg_by_default(path: Seq<char>)
    requires
        extension_of(path) is None,
    ensures
        format_for(extension_of(path)) == Ok::<OutputFormat, Seq<char>>(OutputFormat::Jpeg),
        format_for(Some("jpg"@)) == Ok::<OutputFormat, Seq<char>>(OutputFormat::Jpeg),
{
    reveal_strlit("jpg");
    assert(ascii_lowered("jpg"@) =~= "jpg"@);
}

/// What stands behind the last mark is what was put behind it.
proof fn lemma_behind_mark(before: Seq<char>, mark: char, behind: Seq<char>)
    requires
        !behind.contains(mark),
    ensures
        after_last(before.push(mark) + behind, mark) == Some(behind),
    decreases behind.len(),
{
    let text = before.push(mark) + behind;
    if behind.len() == 0 {
        assert(text =~= before.push(mark));
        assert(text.last() == mark);
        assert(behind =~= Seq::empty());
    } else {
        let shorter = behind.drop_last();
        assert forall|i: int| 0 <= i < shorter.len() implies shorter[i] != mark by {
            assert(behind[i] == shorter[i]);
        }
        assert(behind[behind.len() - 1] == behind.last());
        lemma_behind_mark(before, mark, shorter);
        assert(text.drop_last() =~= before.push(mark) + shorter);
        assert(shorter.push(behind.last()) =~= behind);
    }
}

/// Whether no character of a text is a divider.
pub open spec fn is_undivided(text: Seq<char>) -> bool {
    forall|i: int| 0 <= i < text.len() ==> !is_divider(#[trigger] text[i])
}

/// The last segment of a path is what was put behind a divider, or at the front.
proof fn lemma_last_segment(before: Seq<char>, name: Seq<char>)
    requires
        is_undivided(name),
        before.len() > 0 ==> is_divider(before.last()),
    ensures
        last_segment(before + name) == name,
    decreases name.len(),
{
    let path = before + name;
    if name.len() == 0 {
        assert(path =~= before);
        assert(name =~= Seq::empty());
    } else {
        assert(is_undivided(name.drop_last())) by {
            assert forall|i: int| 0 <= i < name.len() - 1 implies !is_divider(
                #[trigger] name.drop_last()[i],
            ) by {
                assert(name.drop_last()[i] == name[i]);
            }
        }
        assert(path.last() == name[name.len() - 1]);
        assert(path.drop_last() =~= before + name.drop_last());
        lemma_last_segment(before, name.drop_last());
        assert(name.drop_last().push(name.last()) =~= name);
    }
}

/// The extension of a file is what stands behind the last dot of its name, whatever
/// folder or drive it is in, as long as the name does not begin with that dot. All
/// systems agree on it.
pub proof fn law_extension_of_a_file(folder: Seq<char>, stem: Seq<char>, extension: Seq<char>)
    requires
        folder.len() > 0 ==> is_divider(folder.last()),
        !names_a_server(folder + (stem.push('.') + extension)),
        stem.len() > 0,
        is_undivided(stem),
        is_undivided(extension),
        !extension.contains('.'),
        stem.push('.') + extension != seq!['.', '.'],
    ensures
        is_portable(folder + (stem.push('.') + extension)),
        extension_of(folder + (stem.push('.') + extension)) == Some(extension),
{
    let name = stem.push('.') + extension;
    assert(is_undivided(name)) by {
        assert forall|i: int| 0 <= i < name.len() implies !is_divider(#[trigger] name[i]) by {
            if i < stem.len() {
                assert(name[i] == stem[i]);
            } else if i > stem.len() {
                assert(name[i] == extension[i - stem.len() - 1]);
            }
        }
    }
    lemma_last_segment(folder, name);
    lemma_behind_mark(stem, '.', extension);
}

/// Without dividers other than slashes, the last segment is what stands behind the last
/// slash.
proof fn lemma_segment_behind_slash(path: Seq<char>)
    requires
        !path.contains('\\'),
        !path.contains(':'),
    ensures
        last_segment(path) == (match after_last(path, '/') {
            Some(behind) => behind,
            None => path,
        }),
    decreases path.len(),
{
    if path.len() > 0 {
        let rest = path.drop_last();
        assert(path[path.len() - 1] == path.last());
        assert forall|i: int| 0 <= i < rest.len() implies rest[i] != '\\' && rest[i] != ':' by {
            assert(rest[i] == path[i]);
        }
        lemma_segment_behind_slash(rest);
        assert(rest.push(path.last()) =~= path);
    }
}

/// Where a path uses slashes only and ends in a name with an extension, it does not
/// matter whether its parts are told by all dividers or by slashes.
pub proof fn law_plain_names_are_file_names(path: Seq<char>)
    requires
        has_slashes_only(path),
        has_plain_name(path),
    ensures
        extension_of(path) == file_extension(path),
{
    lemma_segment_behind_slash(path);
}

/// What is saved as JPEG is the JPEG of just the quality that was asked for, from one to a
/// hundred; less than one is one, and more than a hundred is a hundred.
pub proof fn law_jpeg_is_of_the_quality_asked_for(
    shape: Shape,
    samples: Seq<u32>,
    quality: u8,
    bytes: Vec<u8>,
)
    requires
        is_encoded(shape, samples, Ok(OutputFormat::Jpeg), quality, Ok(bytes)),
    ensures
        1 <= quality <= 100 ==> bytes@ == jpeg_bytes(shape, samples, quality),
        quality == 0 ==> bytes@ == jpeg_bytes(shape, samples, 1),
        quality > 100 ==> bytes@ == jpeg_bytes(shape, samples, 100),
{
}

/// A picture is saved as JPEG if, and only if, neither edge is empty or longer than 65535
/// pixels, and is refused with its size otherwise.
pub proof fn law_what_jpeg_takes(
    shape: Shape,
    samples: Seq<u32>,
    quality: u8,
    result: Result<Vec<u8>, String>,
)
    requires
        is_encoded(shape, samples, Ok(OutputFormat::Jpeg), quality, result),
    ensures
        1 <= shape.width <= 65535 && 1 <= shape.height <= 65535 ==> result is Ok,
        shape.width == 0 || shape.height == 0 || shape.width > 65535 || shape.height > 65535 ==> (
        result matches Err(reason) && reason@ == "Format error encoding Jpeg:\nInvalid image size ("@
            + crate::numbers::decimal_digits(shape.width as nat) + " x "@
            + crate::numbers::decimal_digits(shape.height as nat)
            + ") to encode as JPEG: width and height must be >= 1 and <= 65535"@),
{
}

/// A picture is saved as PNG unless its samples are in floating point or an edge is
/// empty; only where samples of two bytes are to be put in order can memory run short.
pub proof fn law_what_png_takes(
    shape: Shape,
    samples: Seq<u32>,
    quality: u8,
    result: Result<Vec<u8>, String>,
)
    requires
        is_encoded(shape, samples, Ok(OutputFormat::Png), quality, result),
    ensures
        shape.depth != 4 && shape.width > 0 && shape.height > 0 ==> {
            ||| result is Ok
            ||| shape.depth == 2 && (result matches Err(reason) && reason@
                == "Memory limit exceeded"@)
        },
        shape.depth == 4 ==> (result matches Err(reason) && reason@
            == "The encoder or decoder for Png does not support the color type `"@ + layout_name(
            shape.channels,
            shape.depth,
        ) + "`"@),
        shape.depth != 4 && shape.width == 0 ==> (result matches Err(reason) && reason@
            == "Zero width not allowed"@),
        shape.depth != 4 && shape.width > 0 && shape.height == 0 ==> (result matches Err(reason)
            && reason@ == "Zero height not allowed"@),
{
    reveal_strlit("The encoder or decoder for ");
    reveal_strlit("Png");
    reveal_strlit(" does not support the color type `");
    reveal_strlit("The encoder or decoder for Png does not support the color type `");
    assert("The encoder or decoder for Png does not support the color type `"@
        =~= "The encoder or decoder for "@ + "Png"@ + " does not support the color type `"@);
}

/// A picture is saved as WebP if, and only if, neither edge is empty or longer than 16384
/// pixels.
pub proof fn law_what_webp_takes(
    shape: Shape,
    samples: Seq<u32>,
    quality: u8,
    result: Result<Vec<u8>, String>,
)
    requires
        is_encoded(shape, samples, Ok(OutputFormat::WebP), quality, result),
    ensures
        1 <= shape.width <= 16384 && 1 <= shape.height <= 16384 ==> result is Ok,
        shape.width == 0 || shape.height == 0 || shape.width > 16384 || shape.height > 16384 ==> (
        result matches Err(reason) && reason@
            == "Format error encoding WebP:\nInvalid dimensions"@),
{
}

/// A picture is saved as TIFF unless it is grey with alpha, an edge is empty or the file
/// is too large for its pointers; with up to two gigabytes of samples it never is.
pub proof fn law_what_tiff_takes(
    shape: Shape,
    samples: Seq<u32>,
    quality: u8,
    result: Result<Vec<u8>, String>,
)
    requires
        is_encoded(shape, samples, Ok(OutputFormat::Tiff), quality, result),
        1 <= shape.channels <= 4,
        shape.depth >= 1,
    ensures
        shape.channels != 2 && shape.width > 0 && shape.height > 0 && shape.height * (shape.width
            * shape.channels * shape.depth) <= 0x7fff_ffff ==> result is Ok,
        shape.channels == 2 ==> (result matches Err(reason) && reason@
            == "The encoder or decoder for Tiff does not support the color type `"@ + layout_name(
            shape.channels,
            shape.depth,
        ) + "`"@),
        shape.channels != 2 && (shape.width == 0 || shape.height == 0) ==> (result matches Err(
            reason,
        ) && reason@ == "Format error encoding Tiff:\nformat error: invalid dimensions: "@
            + crate::numbers::decimal_digits(shape.width as nat) + "x"@
            + crate::numbers::decimal_digits(shape.height as nat)),
        shape.channels != 2 && shape.height * (shape.width * shape.channels * shape.depth)
            > 0xffff_ffff ==> (result matches Err(reason) && reason@
            == "Format error encoding Tiff:\nplatform or format size limits exceeded"@),
{
    reveal_strlit("The encoder or decoder for ");
    reveal_strlit("Tiff");
    reveal_strlit(" does not support the color type `");
    reveal_strlit("The encoder or decoder for Tiff does not support the color type `");
    assert("The encoder or decoder for Tiff does not support the color type `"@
        =~= "The encoder or decoder for "@ + "Tiff"@ + " does not support the color type `"@);
    if shape.width > 0 && shape.height > 0 {
        lemma_strips(shape);
    } else {
        let row = row_bytes(shape);
        assert(shape.width == 0 ==> row == 0) by (nonlinear_arith)
            requires
                row == shape.width * shape.channels * shape.depth,
        ;
        assert(shape.height * row == 0) by (nonlinear_arith)
            requires
                shape.height == 0 || row == 0,
        ;
    }
}

/// Just how large a TIFF file can be: its directory, which stands behind all else, has to
/// begin within what thirty-two bits can point to. Rows are put together until they come
/// to a million bytes, and each such strip takes eight bytes more, if there are several.
pub proof fn law_how_large_a_tiff_file_can_be(
    shape: Shape,
    samples: Seq<u32>,
    quality: u8,
    result: Result<Vec<u8>, String>,
    rows: int,
    strips: int,
)
    requires
        is_encoded(shape, samples, Ok(OutputFormat::Tiff), quality, result),
        shape.width >= 1,
        shape.height >= 1,
        shape.channels == 1 || shape.channels == 3 || shape.channels == 4,
        shape.depth >= 1,
        (rows - 1) * (shape.width * shape.channels * shape.depth) < 1_000_000,
        rows * (shape.width * shape.channels * shape.depth) >= 1_000_000,
        (strips - 1) * rows < shape.height <= strips * rows,
    ensures
        ({
            let data = shape.height * (shape.width * shape.channels * shape.depth);
            let kinds: int = if shape.channels == 1 {
                0
            } else {
                4 * shape.channels
            };
            let places: int = if strips == 1 {
                0
            } else {
                8 * strips
            };
            result is Ok <==> 24 + data + kinds + places <= 0xffff_ffff
        }),
{
    lemma_strips(shape);
    let row = row_bytes(shape);
    let height = shape.height as int;
    assert(rows == (999_999 + row) / row) by (nonlinear_arith)
        requires
            row >= 1,
            (rows - 1) * row < 1_000_000,
            rows * row >= 1_000_000,
    ;
    assert(rows >= 1) by (nonlinear_arith)
        requires
            row >= 1,
            rows * row >= 1_000_000,
    ;
    assert(strips == (height + rows - 1) / rows) by (nonlinear_arith)
        requires
            rows >= 1,
            (strips - 1) * rows < height <= strips * rows,
    ;
}

/// There are no more strips than it takes a million bytes each, but for one.
proof fn lemma_strips(shape: Shape)
    requires
        shape.width > 0,
        shape.height > 0,
        1 <= shape.channels,
        1 <= shape.depth,
    ensures
        row_bytes(shape) >= 1,
        strip_count(shape) >= 1,
        (strip_count(shape) - 1) * 1_000_000 <= shape.height * row_bytes(shape),
{
    let row = row_bytes(shape);
    assert(row >= 1) by (nonlinear_arith)
        requires
            row == shape.width * shape.channels * shape.depth,
            shape.width >= 1,
            shape.channels >= 1,
            shape.depth >= 1,
    ;
    let rows = (999_999 + row) / row;
    let height = shape.height as int;
    assert(rows >= 1 && rows * row >= 1_000_000) by (nonlinear_arith)
        requires
            row >= 1,
            rows == (999_999 + row) / row,
    ;
    let strips = (height + rows - 1) / rows;
    assert(strips >= 1 && (strips - 1) * rows <= height) by (nonlinear_arith)
        requires
            rows >= 1,
            height >= 1,
            strips == (height + rows - 1) / rows,
    ;
    assert((strips - 1) * 1_000_000 <= height * row) by (nonlinear_arith)
        requires
            strips >= 1,
            (strips - 1) * rows <= height,
            rows * row >= 1_000_000,
            row >= 1,
            rows >= 1,
    ;
}

/// What is saved in a lossless format is in just that format, and of just that picture.
pub proof fn law_lossless_files_are_of_the_format_chosen(
    shape: Shape,
    samples: Seq<u32>,
    format: OutputFormat,
    quality: u8,
    bytes: Vec<u8>,
)
    requires
        is_encoded(shape, samples, Ok(format), quality, Ok(bytes)),
        !(format is Jpeg),
    ensures
        bytes@ == lossless_bytes(format, shape, samples, true) || bytes@ == lossless_bytes(
            format,
            shape,
            samples,
            false,
        ),
        !(format is Tiff) ==> bytes@ == lossless_bytes(format, shape, samples, false),
{
}

/// Where no format was chosen, nothing is encoded, and the reason is handed on.
pub proof fn law_no_format_no_file(
    shape: Shape,
    samples: Seq<u32>,
    reason: Seq<char>,
    quality: u8,
    result: Result<Vec<u8>, String>,
)
    requires
        is_encoded(shape, samples, Err(reason), quality, result),
    ensures
        result matches Err(told) && told@ == reason,
{
}

/// A choice of a format is taken as it is.
pub proof fn law_choices_are_taken_as_they_are(
    format: OutputFormat,
    reason: String,
    made: Result<OutputFormat, String>,
    wanted: Result<OutputFormat, Seq<char>>,
)
    ensures
        choice_text(Ok(format)) == Ok::<OutputFormat, Seq<char>>(format),
        choice_text(Err(reason)) == Err::<OutputFormat, Seq<char>>(reason@),
        is_choice(made, wanted) <==> match (made, wanted) {
            (Ok(a), Ok(b)) => a == b,
            (Err(a), Err(b)) => a@ == b,
            _ => false,
        },
{
}

/// How pixel layouts are named.
pub proof fn law_names_of_layouts()
    ensures
        layout_name(1, 1) == "L8"@,
        layout_name(2, 1) == "La8"@,
        layout_name(3, 1) == "Rgb8"@,
        layout_name(4, 1) == "Rgba8"@,
        layout_name(1, 2) == "L16"@,
        layout_name(2, 2) == "La16"@,
        layout_name(3, 2) == "Rgb16"@,
        layout_name(4, 2) == "Rgba16"@,
        layout_name(3, 4) == "Rgb32F"@,
        layout_name(4, 4) == "Rgba32F"@,
{
    reveal_strlit("L");
    reveal_strlit("La");
    reveal_strlit("Rgb");
    reveal_strlit("Rgba");
    reveal_strlit("8");
    reveal_strlit("16");
    reveal_strlit("32F");
    reveal_strlit("L8");
    reveal_strlit("La8");
    reveal_strlit("Rgb8");
    reveal_strlit("Rgba8");
    reveal_strlit("L16");
    reveal_strlit("La16");
    reveal_strlit("Rgb16");
    reveal_strlit("Rgba16");
    reveal_strlit("Rgb32F");
    reveal_strlit("Rgba32F");
    assert(layout_name(1, 1) =~= "L8"@);
    assert(layout_name(2, 1) =~= "La8"@);
    assert(layout_name(3, 1) =~= "Rgb8"@);
    assert(layout_name(4, 1) =~= "Rgba8"@);
    assert(layout_name(1, 2) =~= "L16"@);
    assert(layout_name(2, 2) =~= "La16"@);
    assert(layout_name(3, 2) =~= "Rgb16"@);
    assert(layout_name(4, 2) =~= "Rgba16"@);
    assert(layout_name(3, 4) =~= "Rgb32F"@);
    assert(layout_name(4, 4) =~= "Rgba32F"@);
}

/// A picture can be handed to any encoder if its buffer is exact; if it is not, only to
/// those that copy it to another pixel layout first: JPEG all but grey and colours of one
/// byte, WebP all with more than one byte to a sample.
pub proof fn law_what_can_be_encoded(format: OutputFormat, image: DynamicImage)
    ensures
        ({
            let shape = crate::picture::image_shape(image);
            &&& crate::picture::is_exact(image) ==> is_encodable(format, image)
            &&& !crate::picture::is_exact(image) ==> {
                &&& format is Png || format is Tiff ==> !is_encodable(format, image)
                &&& format is WebP ==> (is_encodable(format, image) <==> shape.depth != 1)
                &&& format is Jpeg ==> (is_encodable(format, image) <==> !(shape.depth == 1
                    && shape.channels != 2 && shape.channels != 4))
            }
        }),
{
}

/// Which extension asks for which format, in small letters, and that any other is refused
/// by name.
pub proof fn law_extensions_of_formats(extension: Seq<char>)
    ensures
        ({
            let format = format_named(extension);
            &&& format == Ok::<OutputFormat, Seq<char>>(OutputFormat::Jpeg) <==> extension
                == "jpg"@ || extension == "jpeg"@
            &&& format == Ok::<OutputFormat, Seq<char>>(OutputFormat::Png) <==> extension
                == "png"@
            &&& format == Ok::<OutputFormat, Seq<char>>(OutputFormat::WebP) <==> extension
                == "webp"@
            &&& format == Ok::<OutputFormat, Seq<char>>(OutputFormat::Tiff) <==> extension
                == "tif"@ || extension == "tiff"@
            &&& format matches Err(reason) ==> reason == "Unsupported output format: ."@
                + extension
        }),
{
    reveal_strlit("jpg");
    reveal_strlit("jpeg");
    reveal_strlit("png");
    reveal_strlit("webp");
    reveal_strlit("tif");
    reveal_strlit("tiff");
    assert("tif"@[0] == 't' && "tiff"@[0] == 't');
    assert("jpg"@[0] == 'j' && "jpeg"@[0] == 'j');
    assert("png"@[0] == 'p' && "webp"@[0] == 'w');
}

/// An extension asks for the format that it stands for in small letters: those that ASCII
/// has, where it is an ASCII text, and else those of Unicode. Without one it is JPEG.
pub proof fn law_extension_decides_on_the_format(extension: Seq<char>, i: int)
    requires
        0 <= i < extension.len(),
    ensures
        format_for(None) == Ok::<OutputFormat, Seq<char>>(OutputFormat::Jpeg),
        format_for(Some(extension)) == format_named(lowered(extension)),
        (forall|j: int| 0 <= j < extension.len() ==> #[trigger] (extension[j] as int) < 128) ==> {
            &&& lowered(extension).len() == extension.len()
            &&& 'A' <= extension[i] <= 'Z' ==> lowered(extension)[i] as int == extension[i] as int
                + 32
            &&& !('A' <= extension[i] <= 'Z') ==> lowered(extension)[i] == extension[i]
        },
        extension[i] as int >= 128 ==> lowered(extension) == unicode_lowercase(extension),
{
    if forall|j: int| 0 <= j < extension.len() ==> #[trigger] (extension[j] as int) < 128 {
        assert forall|j: int| 0 <= j < extension.len() implies #[trigger] extension[j]
            < '\u{80}' by {
            assert((extension[j] as int) < 128);
        }
    }
}

/// Which paths have an extension that all systems agree on: those that end in a name with
/// one, those without a dot, and those that have no backslash, no colon and not two
/// slashes to begin with.
pub proof fn law_what_all_systems_agree_on(path: Seq<char>)
    ensures
        !path.contains('.') ==> is_portable(path) && extension_of(path) is None,
        !path.contains('\\') && !path.contains(':') && !(path.len() >= 2 && path[0] == '/'
            && path[1] == '/') ==> is_portable(path),
{
    if !path.contains('.') {
        if has_plain_name(path) {
            lemma_segment_is_in_path(path);
            lemma_mark_occurs(last_segment(path), '.');
            let name = last_segment(path);
            let i = choose|i: int| 0 <= i < name.len() && name[i] == '.';
            let from = path.len() - last_segment(path).len();
            assert(path[from + i] == '.');
        }
    }
    if !path.contains('\\') && path.len() >= 2 {
        assert(path.contains(path[0]));
        assert(path.contains(path[1]));
    }
}

/// The last segment of a path is its end.
proof fn lemma_segment_is_in_path(path: Seq<char>)
    ensures
        last_segment(path).len() <= path.len(),
        last_segment(path) == path.skip(path.len() - last_segment(path).len()),
    decreases path.len(),
{
    if path.len() == 0 || is_divider(path.last()) {
        assert(path.skip(path.len() as int) =~= Seq::<char>::empty());
    } else {
        lemma_segment_is_in_path(path.drop_last());
        let rest = last_segment(path.drop_last());
        assert(last_segment(path) =~= path.skip(path.len() - last_segment(path).len()));
    }
}

/// Something is behind a mark only where the mark occurs.
proof fn lemma_mark_occurs(text: Seq<char>, mark: char)
    requires
        after_last(text, mark) is Some,
    ensures
        text.contains(mark),
    decreases text.len(),
{
    if text.last() == mark {
        assert(text[text.len() - 1] == mark);
    } else {
        lemma_mark_occurs(text.drop_last(), mark);
        let i = choose|i: int| 0 <= i < text.drop_last().len() && text.drop_last()[i] == mark;
        assert(text[i] == mark);
    }
}

/// A name that begins with its only dot has no extension, whatever folder it is in, where
/// slashes separate the folders.
pub proof fn law_hidden_files_have_no_extension(folder: Seq<char>, name: Seq<char>)
    requires
        folder.len() > 0 ==> folder.last() == '/',
        name.len() > 0,
        forall|i: int|
            0 <= i < name.len() ==> !is_divider(#[trigger] name[i]) && name[i] != '.',
        !names_a_server(folder + (seq!['.'] + name)),
    ensures
        extension_of(folder + (seq!['.'] + name)) is None,
{
    let hidden = seq!['.'] + name;
    let path = folder + hidden;
    assert(is_undivided(hidden)) by {
        assert forall|i: int| 0 <= i < hidden.len() implies !is_divider(#[trigger] hidden[i]) by {
            if i > 0 {
                assert(hidden[i] == name[i - 1]);
            }
        }
    }
    assert(!name.contains('.'));
    lemma_last_segment(folder, hidden);
    assert(hidden =~= Seq::<char>::empty().push('.') + name);
    lemma_behind_mark(Seq::<char>::empty(), '.', name);
    assert(!has_plain_name(path));
    assert(!hidden.contains('/')) by {
        assert forall|i: int| 0 <= i < hidden.len() implies hidden[i] != '/' by {
            assert(!is_divider(hidden[i]));
        }
    }
    assert(hidden[1] == name[0]);
    assert(hidden != seq!['.', '.']) by {
        assert(seq!['.', '.'][1] == '.');
    }
    if folder.len() > 0 {
        assert(folder =~= folder.drop_last().push('/'));
        lemma_behind_mark(folder.drop_last(), '/', hidden);
    } else {
        assert(path =~= hidden);
        lemma_no_mark(hidden, '/');
    }
}

/// Nothing is behind a mark that does not occur.
proof fn lemma_no_mark(text: Seq<char>, mark: char)
    requires
        !text.contains(mark),
    ensures
        after_last(text, mark) is None,
{
    if after_last(text, mark) is Some {
        lemma_mark_occurs(text, mark);
    }
}

/// Slashes behind a path whose parts are separated by slashes make no difference to its
/// extension.
pub proof fn law_slashes_behind_make_no_difference(path: Seq<char>)
    requires
        has_slashes_only(path),
    ensures
        extension_of(path.push('/')) == extension_of(path),
{
    let longer = path.push('/');
    assert(longer.last() == '/');
    assert(longer.drop_last() =~= path);
    assert(file_name(longer) == file_name(path));
    assert(last_segment(longer).len() == 0);
    assert(!has_plain_name(longer));
    if has_plain_name(path) {
        law_plain_names_are_file_names(path);
    }
    if path.contains('.') {
        let i = choose|i: int| 0 <= i < path.len() && path[i] == '.';
        assert(longer[i] == '.');
    } else {
        assert forall|i: int| 0 <= i < longer.len() implies longer[i] != '.' by {
            if i < path.len() {
                assert(path[i] == longer[i]);
            }
        }
        law_what_all_systems_agree_on(path);
    }
}

/// A name without a dot, and the two dots that stand for the folder above, have no
/// extension, whatever the folder is called, where slashes separate the folders.
pub proof fn law_names_without_an_extension(folder: Seq<char>, name: Seq<char>)
    requires
        folder.len() > 0 ==> folder.last() == '/',
        name.len() > 0,
        is_undivided(name),
        !name.contains('.') || name == seq!['.', '.'],
    ensures
        extension_of(folder + name) is None,
{
    let path = folder + name;
    lemma_last_segment(folder, name);
    if !name.contains('.') {
        lemma_no_mark(name, '.');
        assert(name[0] != '.') by {
            assert(name.contains(name[0]));
        }
    }
    assert(!has_plain_name(path));
    assert(!name.contains('/')) by {
        assert forall|i: int| 0 <= i < name.len() implies name[i] != '/' by {
            assert(!is_divider(name[i]));
        }
    }
    if folder.len() > 0 {
        assert(folder =~= folder.drop_last().push('/'));
        lemma_behind_mark(folder.drop_last(), '/', name);
    } else {
        assert(path =~= name);
        lemma_no_mark(name, '/');
    }
}

/// A last part that is a single dot makes no difference to the extension either.
pub proof fn law_dot_behind_makes_no_difference(path: Seq<char>)
    requires
        has_slashes_only(path.push('/').push('.')),
    ensures
        extension_of(path.push('/').push('.')) == file_extension(path),
{
    let longer = path.push('/').push('.');
    assert(longer.drop_last() =~= path.push('/'));
    assert(path.push('/').drop_last() =~= path);
    assert(longer[longer.len() - 1] == '.');
    lemma_last_segment(path.push('/'), seq!['.']);
    assert(longer =~= path.push('/') + seq!['.']);
    assert(!has_plain_name(longer)) by {
        assert(seq!['.'].len() == 1);
        reveal_with_fuel(after_last, 2);
    }
    assert(!seq!['.'].contains('/'));
    lemma_behind_mark(path, '/', seq!['.']);
    assert(path.push('/').last() == '/');
    assert(after_last(path.push('/'), '/') == Some(Seq::<char>::empty()));
    assert(file_name(longer) == file_name(path.push('/')));
    assert(file_name(path.push('/')) == file_name(path));
}

} // verus!
