//! Fetching an image for the model: which answers of a server are taken,
//! how large an image may be, how a larger one is scaled down, and how the
//! result is encoded and cached.

use vstd::prelude::*;
use crate::image_cache::{found, stored, touched, CachedImage, ImageCache};
use crate::text::{
    decimal, digit_char, find_char, index_of, lowercase, parse_unsigned, push_decimal,
    read_unsigned, same, to_chars, to_lowercase, trim_range, trimmed,
};

verus! {

/// Largest number of bytes of an image that is taken.
pub const MAX_IMAGE_SIZE_BYTES: usize = 20971520;

/// Largest number of pixels of an image that is handed on unscaled.
pub const MAX_IMAGE_PIXELS: u32 = 1000000;

/// Number of images that the cache holds.
pub const IMAGE_CACHE_SIZE: usize = 20;

/// Seconds after which the download of an image is given up.
pub const IMAGE_FETCH_TIMEOUT_SECS: u64 = 15;

/// The part of a `Content-Type` header before the first `;`, without the
/// white space around it.
pub open spec fn media_type_part(header: Seq<char>) -> Seq<char> {
    trimmed(header.subrange(0, index_of(header, ';')))
}

/// The media type that a `Content-Type` header names, in lower case; the
/// empty text where the header is absent.
pub open spec fn primary_media_type(header: Option<Seq<char>>) -> Seq<char> {
    match header {
        Some(h) => lowercase(media_type_part(h)),
        None => Seq::empty(),
    }
}

/// Takes the media type out of a `Content-Type` header.
pub fn primary_content_type(header: Option<&str>) -> (r: String)
    ensures
        r@ == primary_media_type(
            match header {
                Some(h) => Some(h@),
                None => None,
            },
        ),
{
    match header {
        Some(h) => {
            let chars = to_chars(h);
            let end: usize = find_char(&chars, 0, chars.len(), ';');
            assert(chars@.subrange(0, chars.len() as int) =~= chars@);
            let part = trim_range(&chars, 0, end);
            to_lowercase(part.as_str())
        },
        None => String::new(),
    }
}

/// Whether images of a media type are taken.
pub open spec fn supported_image_type(mime_type: Seq<char>) -> bool {
    ||| mime_type == "image/jpeg"@
    ||| mime_type == "image/png"@
    ||| mime_type == "image/webp"@
    ||| mime_type == "image/gif"@
}

/// Tests whether images of a media type are taken.
pub fn is_supported_image_type(mime_type: &str) -> (r: bool)
    ensures
        r == supported_image_type(mime_type@),
{
    same(mime_type, "image/jpeg") || same(mime_type, "image/png") || same(mime_type, "image/webp")
        || same(mime_type, "image/gif")
}

/// The number of bytes that a `Content-Length` header declares; zero where
/// the header is absent or is no number that fits.
pub open spec fn declared_length(header: Option<Seq<char>>) -> nat {
    match header {
        Some(h) => match parse_unsigned(h, usize::MAX as nat) {
            Some(n) => n,
            None => 0,
        },
        None => 0,
    }
}

/// Reads a `Content-Length` header.
pub fn read_content_length(header: Option<&str>) -> (r: usize)
    ensures
        r == declared_length(
            match header {
                Some(h) => Some(h@),
                None => None,
            },
        ),
{
    match header {
        Some(h) => {
            let chars = to_chars(h);
            assert(chars@.subrange(0, chars.len() as int) =~= chars@);
            match read_unsigned(&chars, 0, chars.len(), usize::MAX as u64) {
                Some(n) => n as usize,
                None => 0,
            }
        },
        None => 0,
    }
}

/// Why an image was not taken.
#[derive(Debug, PartialEq, Eq)]
pub enum ImageError {
    /// The server named a media type that is not taken.
    UnsupportedContentType(String),
    /// The server declared more bytes than are taken.
    DeclaredTooLarge(usize),
    /// More bytes came than are taken.
    DownloadedTooLarge(usize),
    /// The scaled image could not be encoded.
    EncodeFailed { jpeg: bool },
}

/// Mathematical value of an `ImageError`.
pub enum ImageErrorView {
    UnsupportedContentType(Seq<char>),
    DeclaredTooLarge(nat),
    DownloadedTooLarge(nat),
    EncodeFailed { jpeg: bool },
}

impl View for ImageError {
    type V = ImageErrorView;

    open spec fn view(&self) -> ImageErrorView {
        match self {
            ImageError::UnsupportedContentType(s) => ImageErrorView::UnsupportedContentType(s@),
            ImageError::DeclaredTooLarge(n) => ImageErrorView::DeclaredTooLarge(*n as nat),
            ImageError::DownloadedTooLarge(n) => ImageErrorView::DownloadedTooLarge(*n as nat),
            ImageError::EncodeFailed { jpeg } => ImageErrorView::EncodeFailed { jpeg: *jpeg },
        }
    }
}

/// A number of bytes in hundredths of a mebibyte, rounded to the nearest
/// hundredth and to the even one where two are equally near.
pub open spec fn hundredths_of_mebibyte(bytes: nat) -> nat {
    let scaled = bytes * 100;
    let whole = scaled / 1048576;
    let rest = scaled % 1048576;
    if rest > 524288 || (rest == 524288 && whole % 2 == 1) {
        whole + 1
    } else {
        whole
    }
}

/// A number of bytes in mebibytes, with two decimal places.
pub open spec fn mebibytes_text(bytes: nat) -> Seq<char> {
    let h = hundredths_of_mebibyte(bytes);
    decimal(h / 100) + seq!['.', digit_char(((h / 10) % 10) as int), digit_char((h % 10) as int)]
}

/// Appends a number of bytes in mebibytes, with two decimal places.
pub fn push_mebibytes(out: &mut String, bytes: usize)
    ensures
        final(out)@ == old(out)@ + mebibytes_text(bytes as nat),
{
    let scaled: u128 = bytes as u128 * 100;
    let whole: u128 = scaled / 1048576;
    let rest: u128 = scaled % 1048576;
    let h: u128 = if rest > 524288 || (rest == 524288 && whole % 2 == 1) {
        whole + 1
    } else {
        whole
    };
    assert(h == hundredths_of_mebibyte(bytes as nat));
    push_decimal(out, (h / 100) as u64);
    out.push('.');
    let tens: u8 = ((h / 10) % 10) as u8;
    let ones: u8 = (h % 10) as u8;
    out.push((48 + tens) as char);
    out.push((48 + ones) as char);
    assert(out@ =~= old(out)@ + mebibytes_text(bytes as nat));
}

/// The text of an error.
pub open spec fn image_error_text(e: ImageErrorView) -> Seq<char> {
    match e {
        ImageErrorView::UnsupportedContentType(t) => "Unsupported image Content-Type: "@ + t
            + ". Supported types are: [\"image/jpeg\", \"image/png\", \"image/webp\", \"image/gif\"]"@,
        ImageErrorView::DeclaredTooLarge(n) => "Image size ("@ + mebibytes_text(n)
            + " MB) exceeds the limit of "@ + mebibytes_text(MAX_IMAGE_SIZE_BYTES as nat)
            + " MB"@,
        ImageErrorView::DownloadedTooLarge(n) => "Image size ("@ + mebibytes_text(n)
            + " MB) exceeds the limit of "@ + mebibytes_text(MAX_IMAGE_SIZE_BYTES as nat)
            + " MB (checked after download)"@,
        ImageErrorView::EncodeFailed { jpeg } => if jpeg {
            "Failed to encode resized image as JPEG"@
        } else {
            "Failed to encode resized image"@
        },
    }
}

impl ImageError {
    /// The text of the error.
    pub fn message(&self) -> (r: String)
        ensures
            r@ == image_error_text(self@),
    {
        match self {
            ImageError::UnsupportedContentType(t) => {
                let mut r = "Unsupported image Content-Type: ".to_owned();
                r.push_str(t.as_str());
                r.push_str(
                    ". Supported types are: [\"image/jpeg\", \"image/png\", \"image/webp\", \"image/gif\"]",
                );
                r
            },
            ImageError::DeclaredTooLarge(n) => {
                let mut r = "Image size (".to_owned();
                push_mebibytes(&mut r, *n);
                r.push_str(" MB) exceeds the limit of ");
                push_mebibytes(&mut r, MAX_IMAGE_SIZE_BYTES);
                r.push_str(" MB");
                r
            },
            ImageError::DownloadedTooLarge(n) => {
                let mut r = "Image size (".to_owned();
                push_mebibytes(&mut r, *n);
                r.push_str(" MB) exceeds the limit of ");
                push_mebibytes(&mut r, MAX_IMAGE_SIZE_BYTES);
                r.push_str(" MB (checked after download)");
                r
            },
            ImageError::EncodeFailed { jpeg } => if *jpeg {
                "Failed to encode resized image as JPEG".to_owned()
            } else {
                "Failed to encode resized image".to_owned()
            },
        }
    }
}

/// The verdict on the headers of an answer: the media type has to be one
/// that is taken, and the declared length within the limit.
pub open spec fn judged_headers(mime_type: Seq<char>, declared: nat) -> Result<
    Seq<char>,
    ImageErrorView,
> {
    if !supported_image_type(mime_type) {
        Err(ImageErrorView::UnsupportedContentType(mime_type))
    } else if declared > MAX_IMAGE_SIZE_BYTES {
        Err(ImageErrorView::DeclaredTooLarge(declared))
    } else {
        Ok(mime_type)
    }
}

/// Judges the media type and the declared length of an answer.
pub fn judge_image_headers(mime_type: String, declared: usize) -> (r: Result<String, ImageError>)
    ensures
        match judged_headers(mime_type@, declared as nat) {
            Ok(m) => r.is_ok() && r.unwrap()@ == m,
            Err(e) => r.is_err() && r.unwrap_err()@ == e,
        },
{
    if !is_supported_image_type(mime_type.as_str()) {
        Err(ImageError::UnsupportedContentType(mime_type))
    } else if declared > MAX_IMAGE_SIZE_BYTES {
        Err(ImageError::DeclaredTooLarge(declared))
    } else {
        Ok(mime_type)
    }
}

/// Checks the headers of an answer before its body is read. Hands back the
/// media type under which the image goes on.
pub fn check_image_headers(content_type: Option<&str>, content_length: Option<&str>) -> (r:
    Result<String, ImageError>)
    ensures
        match judged_headers(
            primary_media_type(
                match content_type {
                    Some(h) => Some(h@),
                    None => None,
                },
            ),
            declared_length(
                match content_length {
                    Some(h) => Some(h@),
                    None => None,
                },
            ),
        ) {
            Ok(m) => r.is_ok() && r.unwrap()@ == m,
            Err(e) => r.is_err() && r.unwrap_err()@ == e,
        },
{
    let mime_type = primary_content_type(content_type);
    let declared = read_content_length(content_length);
    judge_image_headers(mime_type, declared)
}

/// Whether `n` is the quotient `num / den` under the square root, rounded
/// to the nearest whole number and upwards from the middle: `n - 1/2` is at
/// most the root, and `n + 1/2` is more.
pub open spec fn is_rounded_root(n: nat, num: nat, den: nat) -> bool {
    &&& 4 * num < (2 * n + 1) * (2 * n + 1) * den
    &&& n == 0 || (2 * n - 1) * (2 * n - 1) * den <= 4 * num
}

/// There is one rounded root at most.
pub proof fn lemma_rounded_root_unique(a: nat, b: nat, num: nat, den: nat)
    requires
        is_rounded_root(a, num, den),
        is_rounded_root(b, num, den),
    ensures
        a == b,
{
    if a < b {
        assert((2 * a + 1) * (2 * a + 1) * den <= (2 * b - 1) * (2 * b - 1) * den)
            by (nonlinear_arith)
            requires
                a + 1 <= b,
        ;
    } else if b < a {
        assert((2 * b + 1) * (2 * b + 1) * den <= (2 * a - 1) * (2 * a - 1) * den)
            by (nonlinear_arith)
            requires
                b + 1 <= a,
        ;
    }
}

/// The width and the height to which an image of too many pixels is scaled:
/// each side times the square root of the share of pixels that may stay,
/// rounded, and one at least. The sides keep their ratio up to rounding.
pub open spec fn is_scaled_size(size: (u32, u32), width: u32, height: u32) -> bool {
    &&& 1 <= size.0
    &&& 1 <= size.1
    &&& exists|n: nat| #[trigger]
        is_rounded_root(n, MAX_IMAGE_PIXELS as nat * width as nat, height as nat) && size.0 == (
        if n == 0 {
            1
        } else {
            n
        })
    &&& exists|n: nat| #[trigger]
        is_rounded_root(n, MAX_IMAGE_PIXELS as nat * height as nat, width as nat) && size.1 == (
        if n == 0 {
            1
        } else {
            n
        })
}

/// The size to which an image of `width` by `height` pixels is scaled.
pub open spec fn scaled_size(width: u32, height: u32) -> (u32, u32) {
    choose|size: (u32, u32)| is_scaled_size(size, width, height)
}

/// The square of an odd number times a factor, as the search computes it.
spec fn odd_square_times(n: nat, den: nat) -> nat {
    (2 * n + 1) * (2 * n + 1) * den
}

/// Finds the rounded root of `num / den`, which is at most `top`.
fn rounded_root(num: u64, den: u32, top: u32) -> (r: u32)
    requires
        den >= 1,
        num <= 0x4000_0000_0000_0000,
        4 * num < (2 * top + 1) * (2 * top + 1) * den,
    ensures
        is_rounded_root(r as nat, num as nat, den as nat),
        r <= top,
{
    let target: u128 = 4 * (num as u128);
    let mut low: u32 = 0;
    let mut high: u32 = top;
    while low < high
        invariant
            low <= high <= top,
            den >= 1,
            target == 4 * num,
            target < odd_square_times(high as nat, den as nat),
            low == 0 || odd_square_times((low - 1) as nat, den as nat) <= target,
        decreases high - low,
    {
        let middle: u32 = low + (high - low) / 2;
        let odd: u128 = 2 * (middle as u128) + 1;
        assert(odd * odd <= 0x2_0000_0000 * 0x2_0000_0000) by (nonlinear_arith)
            requires
                odd <= 0x2_0000_0000,
        ;
        let square: u128 = odd * odd;
        assert(square * den <= 0x4_0000_0000_0000_0000 * 0x1_0000_0000) by (nonlinear_arith)
            requires
                square <= 0x4_0000_0000_0000_0000,
                den <= 0x1_0000_0000,
        ;
        let bound: u128 = square * (den as u128);
        assert(bound == odd_square_times(middle as nat, den as nat));
        if target < bound {
            high = middle;
        } else {
            low = middle + 1;
        }
    }
    proof {
        let n = low as nat;
        if n > 0 {
            let m = (n - 1) as nat;
            let d = den as nat;
            assert((2 * m + 1) * (2 * m + 1) * d == (2 * n - 1) * (2 * n - 1) * d)
                by (nonlinear_arith)
                requires
                    2 * m + 1 == 2 * n - 1,
            ;
        }
    }
    low
}

/// Computes the size to which an image of too many pixels is scaled. Both
/// sides shrink or stay.
pub fn scale_down(width: u32, height: u32) -> (r: (u32, u32))
    requires
        width * height > MAX_IMAGE_PIXELS,
    ensures
        r == scaled_size(width, height),
        is_scaled_size(r, width, height),
        1 <= r.0 <= width,
        1 <= r.1 <= height,
{
    assert(width >= 1 && height >= 1) by (nonlinear_arith)
        requires
            width * height > 0,
    ;
    assert(4 * (MAX_IMAGE_PIXELS * width) < (2 * width + 1) * (2 * width + 1) * height)
        by (nonlinear_arith)
        requires
            width * height > MAX_IMAGE_PIXELS,
            width >= 1,
            height >= 1,
    ;
    assert(4 * (MAX_IMAGE_PIXELS * height) < (2 * height + 1) * (2 * height + 1) * width)
        by (nonlinear_arith)
        requires
            width * height > MAX_IMAGE_PIXELS,
            width >= 1,
            height >= 1,
    ;
    let across: u32 = rounded_root(MAX_IMAGE_PIXELS as u64 * width as u64, height, width);
    let down: u32 = rounded_root(MAX_IMAGE_PIXELS as u64 * height as u64, width, height);
    let r: (u32, u32) = (
        if across == 0 {
            1
        } else {
            across
        },
        if down == 0 {
            1
        } else {
            down
        },
    );
    proof {
        assert(is_rounded_root(
            across as nat,
            MAX_IMAGE_PIXELS as nat * width as nat,
            height as nat,
        ));
        assert(is_rounded_root(down as nat, MAX_IMAGE_PIXELS as nat * height as nat, width as nat));
        assert(is_scaled_size(r, width, height));
        let other = scaled_size(width, height);
        assert(is_scaled_size(other, width, height));
        let n0 = choose|n: nat| #[trigger]
            is_rounded_root(n, MAX_IMAGE_PIXELS as nat * width as nat, height as nat) && other.0
                == (if n == 0 {
                1
            } else {
                n
            });
        lemma_rounded_root_unique(
            n0,
            across as nat,
            MAX_IMAGE_PIXELS as nat * width as nat,
            height as nat,
        );
        let n1 = choose|n: nat| #[trigger]
            is_rounded_root(n, MAX_IMAGE_PIXELS as nat * height as nat, width as nat) && other.1
                == (if n == 0 {
                1
            } else {
                n
            });
        lemma_rounded_root_unique(
            n1,
            down as nat,
            MAX_IMAGE_PIXELS as nat * height as nat,
            width as nat,
        );
    }
    r
}

/// The size to which a decoded image has to be scaled, if it has to be:
/// only an image of more pixels than are handed on is scaled.
pub open spec fn scaling_target(size: Option<(u32, u32)>) -> Option<(u32, u32)> {
    match size {
        Some((width, height)) => if width * height > MAX_IMAGE_PIXELS {
            Some(scaled_size(width, height))
        } else {
            None
        },
        None => None,
    }
}

/// Decides from the size of a decoded image whether and to what size it is
/// scaled. Bytes that are no image go on as they are.
pub fn choose_scaling(size: Option<(u32, u32)>) -> (r: Option<(u32, u32)>)
    ensures
        r == scaling_target(size),
        r matches Some(target) ==> size matches Some(from) && 1 <= target.0 <= from.0 && 1
            <= target.1 <= from.1,
{
    match size {
        Some((width, height)) => {
            assert(width * height <= 0xFFFF_FFFF * 0xFFFF_FFFF) by (nonlinear_arith)
                requires
                    width <= 0xFFFF_FFFF,
                    height <= 0xFFFF_FFFF,
            ;
            if width as u64 * height as u64 > MAX_IMAGE_PIXELS as u64 {
                Some(scale_down(width, height))
            } else {
                None
            }
        },
        None => None,
    }
}

/// The character that stands for six bits in the standard alphabet of
/// base64: the capital letters, the small letters, the digits, `+` and `/`.
pub open spec fn base64_digit(value: int) -> char {
    if value < 26 {
        ((65 + value) as u8) as char
    } else if value < 52 {
        ((71 + value) as u8) as char
    } else if value < 62 {
        ((value - 4) as u8) as char
    } else if value == 62 {
        '+'
    } else {
        '/'
    }
}

/// The standard base64 encoding of bytes, with padding: four characters
/// for each three bytes, and `=` in place of what the last group lacks.
pub open spec fn base64_standard(bytes: Seq<u8>) -> Seq<char>
    decreases bytes.len(),
{
    if bytes.len() == 0 {
        Seq::empty()
    } else if bytes.len() == 1 {
        let a = bytes[0] as int;
        seq![base64_digit(a / 4), base64_digit((a % 4) * 16), '=', '=']
    } else if bytes.len() == 2 {
        let a = bytes[0] as int;
        let b = bytes[1] as int;
        seq![
            base64_digit(a / 4),
            base64_digit((a % 4) * 16 + b / 16),
            base64_digit((b % 16) * 4),
            '=',
        ]
    } else {
        let a = bytes[0] as int;
        let b = bytes[1] as int;
        let c = bytes[2] as int;
        seq![
            base64_digit(a / 4),
            base64_digit((a % 4) * 16 + b / 16),
            base64_digit((b % 16) * 4 + c / 64),
            base64_digit(c % 64),
        ] + base64_standard(bytes.skip(3))
    }
}

/// `Engine::encode` of `base64`, with the engine `STANDARD`: the standard
/// alphabet with padding. The call fails only where the length of the
/// encoding does not fit `usize`, which no slice in memory reaches.
#[verifier::external_body]
fn base64_encode(bytes: &Vec<u8>) -> (r: String)
    ensures
        r@ == base64_standard(bytes@),
{
    base64::Engine::encode(&base64::engine::general_purpose::STANDARD, bytes)
}

/// Width and height of the image that bytes hold, as the `image` crate
/// decodes them; nothing where it cannot decode them.
pub uninterp spec fn decoded_size(bytes: Seq<u8>) -> Option<(u32, u32)>;

/// `load_from_memory` of `image`, and `dimensions` of the image it gives:
/// the size is a function of the bytes alone and is named `decoded_size`
/// here. An error of the decoder becomes `None`.
#[verifier::external_body]
fn image_size(bytes: &Vec<u8>) -> (r: Option<(u32, u32)>)
    ensures
        r == decoded_size(bytes@),
{
    match image::load_from_memory(bytes) {
        Ok(img) => Some(image::GenericImageView::dimensions(&img)),
        Err(_) => None,
    }
}

/// The JPEG encoding of the image that bytes hold, scaled to a size with
/// the filter Lanczos3 and stripped of transparency; nothing where the
/// `image` crate cannot decode or encode it.
pub uninterp spec fn scaled_jpeg(bytes: Seq<u8>, width: u32, height: u32) -> Option<Seq<u8>>;

/// An image format, as far as the library tells formats apart.
#[derive(Clone, Copy, Debug, PartialEq, Eq, Structural)]
pub enum ImageKind {
    Jpeg,
    Png,
    Gif,
    WebP,
    /// A format for which the library asks for no encoder.
    Other,
}

/// The format that the `image` crate has for a media type, if it has one.
pub open spec fn named_format(mime_type: Seq<char>) -> Option<ImageKind> {
    if mime_type == "image/jpeg"@ {
        Some(ImageKind::Jpeg)
    } else if mime_type == "image/png"@ {
        Some(ImageKind::Png)
    } else if mime_type == "image/gif"@ {
        Some(ImageKind::Gif)
    } else if mime_type == "image/webp"@ {
        Some(ImageKind::WebP)
    } else if mime_type == "image/avif"@ || mime_type == "image/tiff"@ || mime_type
        == "image/x-targa"@ || mime_type == "image/x-tga"@ || mime_type == "image/vnd-ms.dds"@
        || mime_type == "image/bmp"@ || mime_type == "image/x-icon"@ || mime_type
        == "image/vnd.microsoft.icon"@ || mime_type == "image/vnd.radiance"@ || mime_type
        == "image/x-exr"@ || mime_type == "image/x-portable-bitmap"@ || mime_type
        == "image/x-portable-graymap"@ || mime_type == "image/x-portable-pixmap"@ || mime_type
        == "image/x-portable-anymap"@ || mime_type == "image/x-qoi"@ {
        Some(ImageKind::Other)
    } else {
        None
    }
}

/// `ImageFormat::from_mime_type` of `image`: the format that the crate has
/// for a media type, by its kind. The crate knows the media types that
/// `named_format` lists and no others.
#[verifier::external_body]
fn format_of_media_type(mime_type: &str) -> (r: Option<ImageKind>)
    ensures
        r == named_format(mime_type@),
{
    match image::ImageFormat::from_mime_type(mime_type) {
        Some(image::ImageFormat::Jpeg) => Some(ImageKind::Jpeg),
        Some(image::ImageFormat::Png) => Some(ImageKind::Png),
        Some(image::ImageFormat::Gif) => Some(ImageKind::Gif),
        Some(image::ImageFormat::WebP) => Some(ImageKind::WebP),
        Some(_) => Some(ImageKind::Other),
        None => None,
    }
}

/// The format in which a scaled image of a media type is encoded: the
/// format of the media type, and PNG where the media type has none.
pub open spec fn encoding_kind(mime_type: Seq<char>) -> ImageKind {
    match named_format(mime_type) {
        Some(kind) => kind,
        None => ImageKind::Png,
    }
}

/// Chooses the format in which a scaled image of a media type is encoded.
pub fn encoding_format(mime_type: &str) -> (r: ImageKind)
    ensures
        r == encoding_kind(mime_type@),
{
    match format_of_media_type(mime_type) {
        Some(kind) => kind,
        None => ImageKind::Png,
    }
}

/// An image of a media type that is taken stays in its format when it is
/// scaled.
pub proof fn lemma_supported_types_keep_their_format(mime_type: Seq<char>)
    requires
        supported_image_type(mime_type),
    ensures
        mime_type == "image/jpeg"@ <==> encoding_kind(mime_type) == ImageKind::Jpeg,
        mime_type == "image/png"@ <==> encoding_kind(mime_type) == ImageKind::Png,
        mime_type == "image/gif"@ <==> encoding_kind(mime_type) == ImageKind::Gif,
        mime_type == "image/webp"@ <==> encoding_kind(mime_type) == ImageKind::WebP,
{
    reveal_strlit("image/jpeg");
    reveal_strlit("image/png");
    reveal_strlit("image/gif");
    reveal_strlit("image/webp");
    assert("image/jpeg"@[6] == 'j' && "image/png"@[6] == 'p' && "image/gif"@[6] == 'g'
        && "image/webp"@[6] == 'w');
}

/// The encoding of the image that bytes hold, scaled to a size with the
/// filter Lanczos3, in a format; nothing where the `image` crate cannot
/// decode or encode it.
pub uninterp spec fn scaled_image(
    bytes: Seq<u8>,
    width: u32,
    height: u32,
    kind: ImageKind,
) -> Option<Seq<u8>>;

/// `load_from_memory`, `imageops::resize`, `DynamicImage::to_rgb8` and
/// `ImageBuffer::write_to` of `image`, one after the other: the bytes that
/// come out are a function of the arguments alone and are named
/// `scaled_jpeg` here. An error of the decoder or encoder becomes `None`.
/// The new size is not empty and no larger than the image, and its buffer
/// of four bytes a pixel fits `usize`: `resize` allocates buffers of the new
/// size and of the old width by the new height.
#[verifier::external_body]
fn encode_scaled_jpeg(bytes: &Vec<u8>, width: u32, height: u32) -> (r: Option<Vec<u8>>)
    requires
        width >= 1,
        height >= 1,
        width * height * 4 <= usize::MAX,
        decoded_size(bytes@) matches Some(from) ==> width <= from.0 && height <= from.1,
    ensures
        r.is_some() == scaled_jpeg(bytes@, width, height).is_some(),
        r matches Some(out) ==> scaled_jpeg(bytes@, width, height) == Some(out@),
{
    let img = image::load_from_memory(bytes).ok()?;
    let resized = image::imageops::resize(&img, width, height, image::imageops::FilterType::Lanczos3);
    let rgb = image::DynamicImage::from(resized).to_rgb8();
    let mut out: Vec<u8> = Vec::new();
    rgb.write_to(&mut std::io::Cursor::new(&mut out), image::ImageFormat::Jpeg).ok()?;
    Some(out)
}

/// `load_from_memory`, `imageops::resize` and `ImageBuffer::write_to` of
/// `image`, one after the other: the bytes that come out are a function of
/// the arguments alone and are named `scaled_image` here. An error of the
/// decoder or encoder becomes `None`. The kind is one that names a format
/// of the crate. The new size is not empty and no larger than the image,
/// and its buffer of four bytes a pixel fits `usize`: `resize` allocates
/// buffers of the new size and of the old width by the new height.
#[verifier::external_body]
fn encode_scaled(bytes: &Vec<u8>, width: u32, height: u32, kind: ImageKind) -> (r: Option<
    Vec<u8>,
>)
    requires
        kind != ImageKind::Other,
        width >= 1,
        height >= 1,
        width * height * 4 <= usize::MAX,
        decoded_size(bytes@) matches Some(from) ==> width <= from.0 && height <= from.1,
    ensures
        r.is_some() == scaled_image(bytes@, width, height, kind).is_some(),
        r matches Some(out) ==> scaled_image(bytes@, width, height, kind) == Some(out@),
{
    let format = match kind {
        ImageKind::Jpeg => image::ImageFormat::Jpeg,
        ImageKind::Png => image::ImageFormat::Png,
        ImageKind::Gif => image::ImageFormat::Gif,
        ImageKind::WebP => image::ImageFormat::WebP,
        ImageKind::Other => return None,
    };
    let img = image::load_from_memory(bytes).ok()?;
    let resized = image::imageops::resize(&img, width, height, image::imageops::FilterType::Lanczos3);
    let mut out: Vec<u8> = Vec::new();
    resized.write_to(&mut std::io::Cursor::new(&mut out), format).ok()?;
    Some(out)
}

/// The bytes that go on for an image, given the format in which it is
/// encoded where it is scaled, the size to which it is to be scaled, and
/// what scaling gives. An image that is not scaled goes on as it came. A
/// scaled one is encoded anew: as JPEG without transparency where its format
/// is JPEG, in its format otherwise. Nothing is encoded in a format for
/// which the library asks for no encoder.
pub open spec fn prepared_bytes(
    bytes: Seq<u8>,
    kind: ImageKind,
    target: Option<(u32, u32)>,
) -> Result<Seq<u8>, ImageErrorView> {
    let jpeg = kind == ImageKind::Jpeg;
    match target {
        None => Ok(bytes),
        Some((width, height)) => if width * height * 4 > usize::MAX || kind == ImageKind::Other {
            Err(ImageErrorView::EncodeFailed { jpeg })
        } else {
            let encoded = if jpeg {
                scaled_jpeg(bytes, width, height)
            } else {
                scaled_image(bytes, width, height, kind)
            };
            match encoded {
                Some(out) => Ok(out),
                None => Err(ImageErrorView::EncodeFailed { jpeg }),
            }
        },
    }
}

/// Scales and encodes an image in a format where a target size is given,
/// and hands it on as it came where none is. An image is only ever scaled
/// down.
pub fn encode_prepared(bytes: Vec<u8>, kind: ImageKind, target: Option<(u32, u32)>) -> (r:
    Result<Vec<u8>, ImageError>)
    requires
        target matches Some(size) ==> {
            &&& size.0 >= 1
            &&& size.1 >= 1
            &&& decoded_size(bytes@) matches Some(from) ==> size.0 <= from.0 && size.1 <= from.1
        },
    ensures
        match prepared_bytes(bytes@, kind, target) {
            Ok(out) => r.is_ok() && r.unwrap()@ == out,
            Err(e) => r.is_err() && r.unwrap_err()@ == e,
        },
{
    let jpeg: bool = kind == ImageKind::Jpeg;
    match target {
        None => Ok(bytes),
        Some((width, height)) => {
            assert(width * height * 4 <= 0xFFFF_FFFF * 0xFFFF_FFFF * 4) by (nonlinear_arith)
                requires
                    width <= 0xFFFF_FFFF,
                    height <= 0xFFFF_FFFF,
            ;
            let needed: u128 = width as u128 * height as u128 * 4;
            if needed > usize::MAX as u128 || kind == ImageKind::Other {
                return Err(ImageError::EncodeFailed { jpeg });
            }
            let encoded = if jpeg {
                encode_scaled_jpeg(&bytes, width, height)
            } else {
                encode_scaled(&bytes, width, height, kind)
            };
            match encoded {
                Some(out) => Ok(out),
                None => Err(ImageError::EncodeFailed { jpeg }),
            }
        },
    }
}

/// What becomes of the body of an answer: the media type and the base64
/// payload that are handed to the model, or the reason why the image is
/// not taken.
pub open spec fn prepared_image(bytes: Seq<u8>, mime_type: Seq<char>) -> Result<
    (Seq<char>, Seq<char>),
    ImageErrorView,
> {
    if !supported_image_type(mime_type) {
        Err(ImageErrorView::UnsupportedContentType(mime_type))
    } else if bytes.len() > MAX_IMAGE_SIZE_BYTES {
        Err(ImageErrorView::DownloadedTooLarge(bytes.len()))
    } else {
        match prepared_bytes(
            bytes,
            encoding_kind(mime_type),
            scaling_target(decoded_size(bytes)),
        ) {
            Ok(out) => Ok((mime_type, base64_standard(out))),
            Err(e) => Err(e),
        }
    }
}

/// Looks for an image in the cache before it is fetched.
pub fn cached_image(cache: &mut ImageCache, url: &str) -> (r: Option<(String, String)>)
    requires
        old(cache).wf(),
    ensures
        final(cache).wf(),
        final(cache).limit() == old(cache).limit(),
        final(cache)@ == touched(old(cache)@, url@),
        match found(old(cache)@, url@) {
            Some(entry) => r.is_some() && r.unwrap().0@ == entry.mime_type && r.unwrap().1@
                == entry.data,
            None => r.is_none(),
        },
{
    cache.lookup(url)
}

/// Turns the body of an answer into what the model gets: checks the size,
/// scales the image down if it has too many pixels, and encodes the result
/// in base64.
pub fn process_image(mime_type: &str, bytes: Vec<u8>) -> (r: Result<(String, String), ImageError>)
    ensures
        match prepared_image(bytes@, mime_type@) {
            Ok((mime, data)) => r.is_ok() && r.unwrap().0@ == mime && r.unwrap().1@ == data,
            Err(e) => r.is_err() && r.unwrap_err()@ == e,
        },
{
    if !is_supported_image_type(mime_type) {
        return Err(ImageError::UnsupportedContentType(mime_type.to_owned()));
    }
    if bytes.len() > MAX_IMAGE_SIZE_BYTES {
        return Err(ImageError::DownloadedTooLarge(bytes.len()));
    }
    let target = choose_scaling(image_size(&bytes));
    match encode_prepared(bytes, encoding_format(mime_type), target) {
        Ok(out) => Ok((mime_type.to_owned(), base64_encode(&out))),
        Err(e) => Err(e),
    }
}

/// Turns the body of an answer into what the model gets, and stores it in
/// the cache under the address before it hands it back. A failure leaves
/// the cache as it was.
pub fn prepare_image(cache: &mut ImageCache, url: &str, mime_type: &str, bytes: Vec<u8>) -> (r:
    Result<(String, String), ImageError>)
    requires
        old(cache).wf(),
    ensures
        final(cache).wf(),
        final(cache).limit() == old(cache).limit(),
        match prepared_image(bytes@, mime_type@) {
            Ok((mime, data)) => r.is_ok() && r.unwrap().0@ == mime && r.unwrap().1@ == data
                && final(cache)@ == stored(
                old(cache)@,
                old(cache).limit(),
                CachedImage { url: url@, mime_type: mime, data },
            ),
            Err(e) => r.is_err() && r.unwrap_err()@ == e && final(cache)@ == old(cache)@,
        },
{
    match process_image(mime_type, bytes) {
        Ok((mime, data)) => {
            cache.store(url, mime.as_str(), data.as_str());
            Ok((mime, data))
        },
        Err(e) => Err(e),
    }
}

} // verus!
