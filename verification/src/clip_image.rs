//! Pictures on the clipboard: size limits, decoding to pixels and encoding as
//! PNG.

use image::{ImageBuffer, ImageFormat, ImageReader, RgbaImage};
use vstd::prelude::*;
use vstd::string::*;

use crate::bytes::copy_bytes;
use crate::clip_files;
use crate::clip_files::is_png_name;
use crate::text;
use crate::text::same_text;

verus! {

/// The widest and the tallest picture that is handled.
pub const MAX_IMAGE_DIMENSION: usize = 8192;

/// The largest number of pixel bytes that is handled.
pub const MAX_IMAGE_DECODED_BYTES: usize = 67_108_864;

/// The largest clipboard item that is read from a file or a helper program.
pub const MAX_PAYLOAD_BYTES: usize = 8_388_608;

/// Why a picture was not taken.
#[derive(Debug, Clone, Copy, PartialEq, Eq, Structural)]
pub enum ImageProblem {
    /// The number of pixel bytes does not fit in a machine word.
    Overflow,
    /// The dimensions exceed the safe clipboard limit.
    TooLarge,
    /// The pixel buffer is shorter than the dimensions ask for.
    ShortBuffer,
    /// The picture could not be decoded or encoded.
    Codec,
}

/// A picture as pixels, four bytes each.
#[derive(Debug)]
pub struct DecodedImage {
    pub width: usize,
    pub height: usize,
    pub rgba: Vec<u8>,
}

impl DecodedImage {
    pub open spec fn view(&self) -> (nat, nat, Seq<u8>) {
        (self.width as nat, self.height as nat, self.rgba@)
    }
}

// ---- size limits ----

/// What is wrong with the dimensions of a picture, if anything.
pub open spec fn size_problem(width: nat, height: nat) -> Option<ImageProblem> {
    if width * height * 4 > usize::MAX {
        Some(ImageProblem::Overflow)
    } else if width > MAX_IMAGE_DIMENSION || height > MAX_IMAGE_DIMENSION || width * height * 4
        > MAX_IMAGE_DECODED_BYTES {
        Some(ImageProblem::TooLarge)
    } else {
        None
    }
}

/// Checks the dimensions of a picture against the limits.
pub fn validate_image_size(width: usize, height: usize) -> (r: Result<(), ImageProblem>)
    ensures
        r is Ok <==> size_problem(width as nat, height as nat) is None,
        r matches Err(e) ==> size_problem(width as nat, height as nat) == Some(e),
{
    let pixels: usize = match width.checked_mul(height) {
        Some(n) => n,
        None => {
            return Err(ImageProblem::Overflow);
        },
    };
    let decoded_bytes: usize = match pixels.checked_mul(4) {
        Some(n) => n,
        None => {
            return Err(ImageProblem::Overflow);
        },
    };
    if width > MAX_IMAGE_DIMENSION || height > MAX_IMAGE_DIMENSION || decoded_bytes
        > MAX_IMAGE_DECODED_BYTES {
        return Err(ImageProblem::TooLarge);
    }
    Ok(())
}

// ---- the codecs ----

/// The error of the picture codecs.
#[verifier::external_type_specification]
#[verifier::external_body]
pub struct ExImageError(image::ImageError);

/// The width, the height and the pixels of an encoded picture of any supported
/// format, where it can be decoded.
pub uninterp spec fn decoded_image(bytes: Seq<u8>) -> Option<(nat, nat, Seq<u8>)>;

/// The width and the height that the header of a PNG picture gives.
pub uninterp spec fn png_dimensions(png: Seq<u8>) -> Option<(nat, nat)>;

/// The PNG picture with these dimensions and pixels, where it can be encoded.
pub uninterp spec fn encoded_png(width: nat, height: nat, pixels: Seq<u8>) -> Option<Seq<u8>>;

/// `image::load_from_memory` guesses the format and decodes; the result is
/// handed over as eight-bit pixels with an alpha channel, by `into_rgba8`. It
/// depends on the bytes alone, as no decoding hook is registered. How each
/// format is decoded stays unsaid.
#[verifier::external_body]
pub(crate) fn load_image(bytes: &[u8]) -> (r: Result<DecodedImage, image::ImageError>)
    ensures
        r matches Ok(image) ==> decoded_image(bytes@) == Some(image.view()),
        r is Err ==> decoded_image(bytes@) is None,
{
    let img = image::load_from_memory(bytes)?;
    let (width, height) = (img.width() as usize, img.height() as usize);
    Ok(DecodedImage { width, height, rgba: img.into_rgba8().into_raw() })
}

/// `ImageReader::into_dimensions` reads the dimensions from the header of a
/// PNG picture, a function of the bytes alone.
#[verifier::external_body]
pub(crate) fn read_png_dimensions(png: &[u8]) -> (r: Result<(usize, usize), image::ImageError>)
    ensures
        r matches Ok(d) ==> png_dimensions(png@) == Some((d.0 as nat, d.1 as nat)),
        r is Err ==> png_dimensions(png@) is None,
{
    let reader = ImageReader::with_format(std::io::Cursor::new(png), ImageFormat::Png);
    reader.into_dimensions().map(|d| (d.0 as usize, d.1 as usize))
}

/// `ImageBuffer::write_to` encodes pixels as PNG, a function of the
/// dimensions and of as many buffer bytes as they ask for. PNG is lossless: a
/// picture that was encoded decodes to the same dimensions and pixels. It is
/// not empty, as it starts with the PNG signature.
#[verifier::external_body]
pub(crate) fn write_png(width: usize, height: usize, rgba: &[u8]) -> (r: Result<
    Vec<u8>,
    image::ImageError,
>)
    requires
        size_problem(width as nat, height as nat) is None,
        width * height * 4 <= rgba@.len(),
    ensures
        r matches Ok(png) ==> {
            let pixels = rgba@.take(width * height * 4);
            &&& encoded_png(width as nat, height as nat, pixels) == Some(png@)
            &&& png_dimensions(png@) == Some((width as nat, height as nat))
            &&& decoded_image(png@) == Some((width as nat, height as nat, pixels))
            &&& png@.len() > 0
        },
        r is Err ==> encoded_png(width as nat, height as nat, rgba@.take(width * height * 4))
            is None,
{
    let mut out = std::io::Cursor::new(Vec::new());
    let buffer: Option<RgbaImage> = ImageBuffer::from_raw(width as u32, height as u32, rgba.to_vec());
    buffer.unwrap().write_to(&mut out, ImageFormat::Png)?;
    Ok(out.into_inner())
}

// ---- pixels to PNG and back ----

/// What encoding pixels gives.
pub open spec fn png_of_pixels(width: nat, height: nat, bytes: Seq<u8>) -> Result<
    Seq<u8>,
    ImageProblem,
> {
    match size_problem(width, height) {
        Some(e) => Err(e),
        None => if bytes.len() < width * height * 4 {
            Err(ImageProblem::ShortBuffer)
        } else {
            match encoded_png(width, height, bytes.take((width * height * 4) as int)) {
                Some(png) => Ok(png),
                None => Err(ImageProblem::Codec),
            }
        },
    }
}

/// Encodes pixels as PNG. What comes out decodes to the same pixels.
pub fn rgba_to_png(width: usize, height: usize, bytes: &[u8]) -> (r: Result<Vec<u8>, ImageProblem>)
    ensures
        r matches Ok(png) ==> png_of_pixels(width as nat, height as nat, bytes@) == Ok::<
            Seq<u8>,
            ImageProblem,
        >(png@),
        r matches Err(e) ==> png_of_pixels(width as nat, height as nat, bytes@) == Err::<
            Seq<u8>,
            ImageProblem,
        >(e),
        r matches Ok(png) ==> pixels_of_png(png@) == Ok::<(nat, nat, Seq<u8>), ImageProblem>(
            (width as nat, height as nat, bytes@.take(width * height * 4)),
        ),
        r matches Ok(png) ==> png@.len() > 0,
{
    validate_image_size(width, height)?;
    if bytes.len() < width * height * 4 {
        return Err(ImageProblem::ShortBuffer);
    }
    match write_png(width, height, bytes) {
        Ok(png) => Ok(png),
        Err(_) => Err(ImageProblem::Codec),
    }
}

/// A decoded picture whose dimensions are within the limits.
pub open spec fn limited(image: Option<(nat, nat, Seq<u8>)>) -> Result<
    (nat, nat, Seq<u8>),
    ImageProblem,
> {
    match image {
        None => Err(ImageProblem::Codec),
        Some((width, height, pixels)) => match size_problem(width, height) {
            Some(e) => Err(e),
            None => Ok((width, height, pixels)),
        },
    }
}

/// The dimensions and pixels of a PNG picture, where the dimensions in its
/// header and the decoded ones are within the limits.
pub open spec fn pixels_of_png(png: Seq<u8>) -> Result<(nat, nat, Seq<u8>), ImageProblem> {
    match png_dimensions(png) {
        None => Err(ImageProblem::Codec),
        Some((width, height)) => match size_problem(width, height) {
            Some(e) => Err(e),
            None => limited(decoded_image(png)),
        },
    }
}

/// Lets a decoded picture pass where its dimensions are within the limits.
pub fn within_limits(image: Option<DecodedImage>) -> (r: Result<DecodedImage, ImageProblem>)
    ensures
        r matches Ok(i) ==> image == Some(i) && limited(Some(i.view())) is Ok,
        r matches Err(e) ==> limited(
            match image {
                Some(i) => Some(i.view()),
                None => None,
            },
        ) == Err::<(nat, nat, Seq<u8>), ImageProblem>(e),
{
    match image {
        None => Err(ImageProblem::Codec),
        Some(i) => {
            validate_image_size(i.width, i.height)?;
            Ok(i)
        },
    }
}

/// Decodes a PNG picture, after its header has been checked.
pub fn png_to_rgba(png: &[u8]) -> (r: Result<DecodedImage, ImageProblem>)
    ensures
        r matches Ok(i) ==> pixels_of_png(png@) == Ok::<(nat, nat, Seq<u8>), ImageProblem>(i.view()),
        r matches Err(e) ==> pixels_of_png(png@) == Err::<(nat, nat, Seq<u8>), ImageProblem>(e),
{
    match read_png_dimensions(png) {
        Ok(d) => validate_image_size(d.0, d.1)?,
        Err(_) => {
            return Err(ImageProblem::Codec);
        },
    }
    match load_image(png) {
        Ok(image) => within_limits(Some(image)),
        Err(_) => within_limits(None),
    }
}

/// The PNG form of an encoded picture.
pub open spec fn png_of_bytes(bytes: Seq<u8>) -> Option<Seq<u8>> {
    match limited(decoded_image(bytes)) {
        Ok((width, height, pixels)) => match png_of_pixels(width, height, pixels) {
            Ok(png) => Some(png),
            Err(_) => None,
        },
        Err(_) => None,
    }
}

/// Turns an encoded picture of any supported format into PNG.
pub fn bytes_to_png(bytes: &[u8]) -> (r: Option<Vec<u8>>)
    ensures
        r is Some <==> png_of_bytes(bytes@) is Some,
        r matches Some(png) ==> png_of_bytes(bytes@) == Some(png@),
        r matches Some(png) ==> png@.len() > 0,
        r matches Some(png) ==> (decoded_image(bytes@) matches Some((width, height, pixels))
            && pixels_of_png(png@) == Ok::<(nat, nat, Seq<u8>), ImageProblem>(
            (width, height, pixels.take((width * height * 4) as int)),
        )),
{
    let decoded = match load_image(bytes) {
        Ok(image) => within_limits(Some(image)),
        Err(_) => within_limits(None),
    };
    match decoded {
        Ok(image) => match rgba_to_png(image.width, image.height, image.rgba.as_slice()) {
            Ok(png) => Some(png),
            Err(_) => None,
        },
        Err(_) => None,
    }
}

/// The PNG form of a picture file.
pub open spec fn png_of_file(name: Seq<char>, data: Seq<u8>) -> Option<Seq<u8>> {
    if data.len() == 0 || data.len() > MAX_PAYLOAD_BYTES {
        None
    } else if png_of_bytes(data) is Some {
        png_of_bytes(data)
    } else if clip_files::png_name(name) && pixels_of_png(data) is Ok {
        Some(data)
    } else {
        None
    }
}

/// Turns the content of a picture file into PNG.
pub fn image_file_to_png(name: &str, data: &[u8]) -> (r: Option<Vec<u8>>)
    ensures
        r is Some <==> png_of_file(name@, data@) is Some,
        r matches Some(png) ==> png_of_file(name@, data@) == Some(png@),
        r matches Some(png) ==> png@.len() > 0,
{
    if data.len() == 0 || data.len() > MAX_PAYLOAD_BYTES {
        return None;
    }
    let converted = bytes_to_png(data);
    let readable = converted.is_none() && is_png_name(name) && png_to_rgba(data).is_ok();
    take_file_png(data, converted, readable)
}

/// Takes the converted form of a picture file, or the file as it is where that
/// is a PNG picture which can be read.
pub fn take_file_png(data: &[u8], converted: Option<Vec<u8>>, readable: bool) -> (r: Option<
    Vec<u8>,
>)
    ensures
        converted is Some ==> r == converted,
        converted is None ==> (r is Some <==> readable),
        converted is None ==> (r matches Some(png) ==> png@ == data@),
{
    match converted {
        Some(png) => Some(png),
        None => if readable {
            Some(copy_bytes(data))
        } else {
            None
        },
    }
}

/// What a picture that a helper program printed for a type is taken as: PNG
/// as it is where it can be shown, anything else by way of its pixels.
pub open spec fn pasted_png(mime: Seq<char>, output: Seq<u8>) -> Option<Seq<u8>> {
    if output.len() == 0 {
        None
    } else if mime == "image/png"@ && pixels_of_png(output) is Ok {
        Some(output)
    } else {
        png_of_bytes(output)
    }
}

/// Takes what a helper program printed for a picture type.
pub fn accept_pasted_image(mime: &str, output: Option<Vec<u8>>) -> (r: Option<Vec<u8>>)
    ensures
        output is None ==> r is None,
        output matches Some(o) ==> (r is Some <==> pasted_png(mime@, o@) is Some),
        output matches Some(o) ==> (r matches Some(png) ==> pasted_png(mime@, o@) == Some(png@)),
        r matches Some(png) ==> png@.len() > 0,
{
    match output {
        None => None,
        Some(bytes) => {
            if bytes.len() == 0 {
                return None;
            }
            if same_text(mime, "image/png") {
                if let Ok(_) = png_to_rgba(bytes.as_slice()) {
                    return Some(bytes);
                }
            }
            bytes_to_png(bytes.as_slice())
        },
    }
}

/// The picture types that are asked for, in this order.
pub open spec fn image_mimes() -> Seq<Seq<char>> {
    seq![
        "image/png"@,
        "image/jpeg"@,
        "image/jpg"@,
        "image/gif"@,
        "image/webp"@,
        "image/bmp"@,
        "image/tiff"@,
    ]
}

/// The picture type to ask for as the `index`th.
pub fn image_paste_mime(index: usize) -> (r: Option<&'static str>)
    ensures
        r is Some <==> index < image_mimes().len(),
        r matches Some(mime) ==> mime@ == image_mimes()[index as int],
{
    if index == 0 {
        Some("image/png")
    } else if index == 1 {
        Some("image/jpeg")
    } else if index == 2 {
        Some("image/jpg")
    } else if index == 3 {
        Some("image/gif")
    } else if index == 4 {
        Some("image/webp")
    } else if index == 5 {
        Some("image/bmp")
    } else if index == 6 {
        Some("image/tiff")
    } else {
        None
    }
}

// ---- laws ----

/// A picture is taken exactly where it is at most 8192 pixels wide and tall and
/// has at most 64 MiB of pixels. So a smaller one is taken where a larger one is,
/// and it does not matter which way it is turned.
pub proof fn pictures_within_limits_are_taken(width: nat, height: nat, less: nat)
    ensures
        size_problem(width, height) is None <==> width <= 8192 && height <= 8192 && 4 * (width
            * height) <= 67_108_864,
        size_problem(width, height) is None == size_problem(height, width) is None,
        less <= width && size_problem(width, height) is None ==> size_problem(less, height) is None,
        4 * (width * height) > usize::MAX ==> size_problem(width, height) == Some(
            ImageProblem::Overflow,
        ),
{
    assert(width * height == height * width) by (nonlinear_arith);
    assert(width * height * 4 == 4 * (width * height)) by (nonlinear_arith);
    assert(height * width * 4 == 4 * (height * width)) by (nonlinear_arith);
    assert(less * height * 4 == 4 * (less * height)) by (nonlinear_arith);
    if less <= width {
        assert(less * height <= width * height) by (nonlinear_arith)
            requires
                less <= width,
        ;
    }
    assert(usize::MAX >= 67_108_864);
}

/// Bytes behind the pixels do not matter; too few are refused.
pub proof fn only_the_pixels_are_encoded(width: nat, height: nat, bytes: Seq<u8>, more: Seq<u8>)
    requires
        size_problem(width, height) is None,
    ensures
        bytes.len() == width * height * 4 ==> png_of_pixels(width, height, bytes + more)
            == png_of_pixels(width, height, bytes),
        bytes.len() < width * height * 4 ==> png_of_pixels(width, height, bytes) == Err::<
            Seq<u8>,
            ImageProblem,
        >(ImageProblem::ShortBuffer),
        bytes.len() >= width * height * 4 ==> png_of_pixels(width, height, bytes) != Err::<
            Seq<u8>,
            ImageProblem,
        >(ImageProblem::ShortBuffer),
{
    if bytes.len() == width * height * 4 {
        assert((bytes + more).take(bytes.len() as int) =~= bytes.take(bytes.len() as int));
    }
}

/// A PNG picture is shown only where both the dimensions in its header and the
/// decoded ones are within the limits, and then with its decoded pixels.
pub proof fn shown_pictures_are_checked_twice(png: Seq<u8>)
    ensures
        pixels_of_png(png) matches Ok((width, height, pixels)) ==> {
            &&& decoded_image(png) == Some((width, height, pixels))
            &&& size_problem(width, height) is None
            &&& png_dimensions(png) matches Some(d) && size_problem(d.0, d.1) is None
        },
        (decoded_image(png) matches Some((w, h, p)) && size_problem(w, h) is None) && (
        png_dimensions(png) matches Some(d) && size_problem(d.0, d.1) is None) ==> pixels_of_png(
            png,
        ) == Ok::<(nat, nat, Seq<u8>), ImageProblem>(decoded_image(png)->0),
{
}

/// A picture that a program printed as PNG and that can be shown is kept byte
/// for byte. For any other type the type does not matter, only what the bytes
/// decode to. Nothing printed is no picture.
pub proof fn pasted_pictures_are_kept(output: Seq<u8>, mime: Seq<char>, other: Seq<char>)
    ensures
        output.len() > 0 && pixels_of_png(output) is Ok ==> pasted_png("image/png"@, output) == Some(
            output,
        ),
        mime != "image/png"@ && other != "image/png"@ ==> pasted_png(mime, output) == pasted_png(
            other,
            output,
        ),
        pixels_of_png(output) is Err ==> pasted_png(mime, output) == pasted_png(other, output),
        output.len() == 0 ==> pasted_png(mime, output) is None,
        output.len() > 0 && mime != "image/png"@ ==> pasted_png(mime, output) == png_of_bytes(
            output,
        ),
{
}

/// A picture file that is empty or larger than 8 MiB is not taken. Any other
/// is where its bytes decode to a picture within the limits that can be encoded.
pub proof fn picture_files_are_converted(name: Seq<char>, data: Seq<u8>)
    ensures
        data.len() == 0 || data.len() > 8_388_608 ==> png_of_file(name, data) is None,
        0 < data.len() <= 8_388_608 && png_of_bytes(data) is Some ==> png_of_file(name, data)
            == png_of_bytes(data),
        png_of_bytes(data) is None && !clip_files::png_name(name) ==> png_of_file(name, data)
            is None,
        decoded_image(data) is None ==> png_of_file(name, data) is None,
        png_of_bytes(data) is Some ==> (decoded_image(data) matches Some((width, height, pixels))
            && encoded_png(width, height, pixels.take((width * height * 4) as int))
            == png_of_bytes(data)),
{
}

/// Only types of pictures are asked for, PNG first, and none twice.
pub proof fn picture_types_are_asked_once(i: int, j: int)
    requires
        0 <= i < j < image_mimes().len(),
    ensures
        image_mimes()[0] == "image/png"@,
        image_mimes()[i] != image_mimes()[j],
        text::starts_with(image_mimes()[i], "image/"@),
        text::starts_with(image_mimes()[j], "image/"@),
{
    reveal_strlit("image/");
    reveal_strlit("image/png");
    reveal_strlit("image/jpeg");
    reveal_strlit("image/jpg");
    reveal_strlit("image/gif");
    reveal_strlit("image/webp");
    reveal_strlit("image/bmp");
    reveal_strlit("image/tiff");
    assert("image/png"@[6] == 'p');
    assert("image/jpeg"@[7] == 'p' && "image/jpeg"@[8] == 'e');
    assert("image/jpg"@[7] == 'p' && "image/jpg"@[8] == 'g');
    assert("image/gif"@[6] == 'g' && "image/webp"@[6] == 'w' && "image/bmp"@[6] == 'b'
        && "image/tiff"@[6] == 't');
    assert("image/jpeg"@[6] == 'j' && "image/jpg"@[6] == 'j');
    assert(image_mimes()[i].take(6) =~= "image/"@);
    assert(image_mimes()[j].take(6) =~= "image/"@);
}

/// Pixels within the limits, as many as the dimensions ask for, are encoded
/// wherever they can be. An encoded picture is converted wherever its pixels can
/// be decoded, are within the limits and enough, and can be encoded again.
pub proof fn pictures_are_encoded_where_they_can_be(
    width: nat,
    height: nat,
    pixels: Seq<u8>,
    bytes: Seq<u8>,
)
    requires
        size_problem(width, height) is None,
        pixels.len() == width * height * 4,
    ensures
        encoded_png(width, height, pixels) matches Some(png) ==> png_of_pixels(
            width,
            height,
            pixels,
        ) == Ok::<Seq<u8>, ImageProblem>(png),
        encoded_png(width, height, pixels) is None ==> png_of_pixels(width, height, pixels) == Err::<
            Seq<u8>,
            ImageProblem,
        >(ImageProblem::Codec),
        decoded_image(bytes) == Some((width, height, pixels)) ==> png_of_bytes(bytes)
            == encoded_png(width, height, pixels),
{
    assert(pixels.take((width * height * 4) as int) =~= pixels);
}

/// Pictures beyond the limits are refused, before and after decoding.
pub proof fn large_pictures_are_refused(png: Seq<u8>, bytes: Seq<u8>, problem: ImageProblem)
    ensures
        png_dimensions(png) matches Some(d) ==> size_problem(d.0, d.1) == Some(problem)
            ==> pixels_of_png(png) == Err::<(nat, nat, Seq<u8>), ImageProblem>(problem),
        png_dimensions(png) is None ==> pixels_of_png(png) == Err::<
            (nat, nat, Seq<u8>),
            ImageProblem,
        >(ImageProblem::Codec),
        decoded_image(bytes) matches Some((w, h, p)) ==> size_problem(w, h) is Some
            ==> png_of_bytes(bytes) is None,
{
}

/// A PNG file that can be shown is taken as it is where it cannot be encoded
/// again.
pub proof fn shown_png_files_are_kept(name: Seq<char>, data: Seq<u8>)
    requires
        0 < data.len() <= 8_388_608,
        png_of_bytes(data) is None,
        clip_files::png_name(name),
    ensures
        pixels_of_png(data) is Ok ==> png_of_file(name, data) == Some(data),
        pixels_of_png(data) is Err ==> png_of_file(name, data) is None,
{
}

/// Every picture format that is handled is asked for.
pub proof fn every_picture_format_is_asked_for()
    ensures
        image_mimes().contains("image/png"@),
        image_mimes().contains("image/jpeg"@),
        image_mimes().contains("image/jpg"@),
        image_mimes().contains("image/gif"@),
        image_mimes().contains("image/webp"@),
        image_mimes().contains("image/bmp"@),
        image_mimes().contains("image/tiff"@),
        image_mimes().len() == 7,
{
    let all = image_mimes();
    assert(all[0] == "image/png"@ && all[1] == "image/jpeg"@ && all[2] == "image/jpg"@ && all[3]
        == "image/gif"@ && all[4] == "image/webp"@ && all[5] == "image/bmp"@ && all[6]
        == "image/tiff"@);
}

} // verus!
