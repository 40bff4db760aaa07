use base64::Engine;
use emulbot::dispatch::finish_image_tool;
use emulbot::image_cache::ImageCache;
use emulbot::image_fetch::{
    cached_image, check_image_headers, choose_scaling, encode_prepared, encoding_format,
    is_supported_image_type, judge_image_headers, prepare_image, primary_content_type,
    process_image, read_content_length, scale_down, ImageError, ImageKind, IMAGE_CACHE_SIZE,
    MAX_IMAGE_SIZE_BYTES,
};
use emulbot::tools::ToolResult;
use image::GenericImageView;
use std::io::Cursor;

fn png(width: u32, height: u32) -> Vec<u8> {
    let img = image::RgbaImage::from_fn(width, height, |x, y| {
        image::Rgba([(x % 256) as u8, (y % 256) as u8, ((x + y) % 256) as u8, 255])
    });
    let mut bytes = Vec::new();
    img.write_to(&mut Cursor::new(&mut bytes), image::ImageFormat::Png).unwrap();
    bytes
}

fn jpeg(width: u32, height: u32) -> Vec<u8> {
    let img = image::RgbImage::from_fn(width, height, |x, y| {
        image::Rgb([(x % 256) as u8, (y % 256) as u8, 128])
    });
    let mut bytes = Vec::new();
    img.write_to(&mut Cursor::new(&mut bytes), image::ImageFormat::Jpeg).unwrap();
    bytes
}

fn decode(data: &str) -> Vec<u8> {
    base64::engine::general_purpose::STANDARD.decode(data).unwrap()
}

#[test]
fn media_type_is_taken_out_of_the_header() {
    assert_eq!(primary_content_type(Some("image/jpeg")), "image/jpeg");
    assert_eq!(primary_content_type(Some(" Image/PNG ; charset=binary")), "image/png");
    assert_eq!(primary_content_type(Some("text/html;charset=utf-8;x=y")), "text/html");
    assert_eq!(primary_content_type(Some(";image/png")), "");
    assert_eq!(primary_content_type(Some("")), "");
    assert_eq!(primary_content_type(None), "");
}

#[test]
fn only_four_media_types_are_taken() {
    assert!(is_supported_image_type("image/jpeg"));
    assert!(is_supported_image_type("image/png"));
    assert!(is_supported_image_type("image/webp"));
    assert!(is_supported_image_type("image/gif"));
    assert!(!is_supported_image_type("image/bmp"));
    assert!(!is_supported_image_type("image/jpg"));
    assert!(!is_supported_image_type("IMAGE/PNG"));
    assert!(!is_supported_image_type(""));
}

#[test]
fn declared_length_is_read_or_zero() {
    assert_eq!(read_content_length(Some("1234")), 1234);
    assert_eq!(read_content_length(Some("+12")), 12);
    assert_eq!(read_content_length(Some("12 ")), 0);
    assert_eq!(read_content_length(Some("-1")), 0);
    assert_eq!(read_content_length(Some("99999999999999999999999")), 0);
    assert_eq!(read_content_length(None), 0);
}

#[test]
fn headers_are_judged() {
    assert_eq!(
        check_image_headers(Some("image/PNG; q=1"), Some("100")),
        Ok("image/png".to_string())
    );
    assert_eq!(check_image_headers(Some("image/gif"), None), Ok("image/gif".to_string()));
    assert_eq!(
        check_image_headers(Some("image/gif"), Some("20971520")),
        Ok("image/gif".to_string())
    );
    assert_eq!(
        check_image_headers(Some("image/gif"), Some("20971521")),
        Err(ImageError::DeclaredTooLarge(20971521))
    );
    assert_eq!(
        check_image_headers(Some("text/html"), Some("99999999")),
        Err(ImageError::UnsupportedContentType("text/html".to_string()))
    );
    assert_eq!(
        check_image_headers(None, None),
        Err(ImageError::UnsupportedContentType("".to_string()))
    );
    assert_eq!(
        judge_image_headers("image/webp".to_string(), MAX_IMAGE_SIZE_BYTES),
        Ok("image/webp".to_string())
    );
}

#[test]
fn image_errors_have_their_texts() {
    assert_eq!(
        ImageError::UnsupportedContentType("text/html".to_string()).message(),
        "Unsupported image Content-Type: text/html. Supported types are: [\"image/jpeg\", \"image/png\", \"image/webp\", \"image/gif\"]"
    );
    assert_eq!(
        ImageError::DeclaredTooLarge(31457280).message(),
        "Image size (30.00 MB) exceeds the limit of 20.00 MB"
    );
    assert_eq!(
        ImageError::DownloadedTooLarge(20971521).message(),
        "Image size (20.00 MB) exceeds the limit of 20.00 MB (checked after download)"
    );
    assert_eq!(
        ImageError::EncodeFailed { jpeg: true }.message(),
        "Failed to encode resized image as JPEG"
    );
    assert_eq!(ImageError::EncodeFailed { jpeg: false }.message(), "Failed to encode resized image");
}

#[test]
fn mebibytes_are_rounded_as_the_formatter_rounds() {
    for bytes in [
        0usize, 1, 5242, 5243, 10485, 10486, 15728, 15729, 524288, 1048576, 1572864, 20971520,
        20971521, 21030000, 26214400, 123456789, 4294967295,
    ] {
        let text = ImageError::DeclaredTooLarge(bytes).message();
        let expected = format!(
            "Image size ({:.2} MB) exceeds the limit of {:.2} MB",
            bytes as f64 / (1024.0 * 1024.0),
            MAX_IMAGE_SIZE_BYTES as f64 / (1024.0 * 1024.0)
        );
        assert_eq!(text, expected);
    }
}

#[test]
fn scaled_size_keeps_the_ratio_and_fits() {
    assert_eq!(scale_down(2000, 1000), (1414, 707));
    assert_eq!(scale_down(1200, 1000), (1095, 913));
    assert_eq!(scale_down(1001, 1000), (1000, 1000));
    assert_eq!(scale_down(4000, 4000), (1000, 1000));
    assert_eq!(scale_down(1000001, 1), (1000000, 1));
    assert_eq!(scale_down(4294967295, 4294967295), (1000, 1000));
    // A side never drops to nothing.
    assert_eq!(scale_down(4294967295, 1), (65536000, 1));
}

#[test]
fn scaled_size_is_the_rounded_product_with_the_root() {
    for (width, height) in [(2000u32, 1000u32), (1200, 1000), (3000, 2000), (1920, 1080), (5000, 300)] {
        let ratio = (1_000_000f64 / (width as f64 * height as f64)).sqrt();
        let expected = ((width as f64 * ratio).round() as u32, (height as f64 * ratio).round() as u32);
        assert_eq!(scale_down(width, height), expected);
    }
}

#[test]
fn only_large_images_are_scaled() {
    assert_eq!(choose_scaling(None), None);
    assert_eq!(choose_scaling(Some((1000, 1000))), None);
    assert_eq!(choose_scaling(Some((0, 5))), None);
    assert_eq!(choose_scaling(Some((1001, 1000))), Some((1000, 1000)));
    assert_eq!(choose_scaling(Some((65536, 65536))), Some((1000, 1000)));
}

#[test]
fn small_image_goes_on_as_it_came() {
    let bytes = png(40, 30);
    let mut cache = ImageCache::new(IMAGE_CACHE_SIZE);
    let (mime, data) =
        prepare_image(&mut cache, "http://x/small.png", "image/png", bytes.clone()).unwrap();
    assert_eq!(mime, "image/png");
    assert_eq!(decode(&data), bytes);
    assert_eq!(data, base64::engine::general_purpose::STANDARD.encode(&bytes));
    assert_ne!(data.as_bytes(), &bytes[..]);
}

#[test]
fn bytes_that_are_no_image_go_on_as_they_came() {
    let bytes = b"not an image at all".to_vec();
    let mut cache = ImageCache::new(2);
    let (mime, data) = prepare_image(&mut cache, "u", "image/gif", bytes.clone()).unwrap();
    assert_eq!(mime, "image/gif");
    assert_eq!(data, "bm90IGFuIGltYWdlIGF0IGFsbA==");
    assert_eq!(decode(&data), bytes);
}

#[test]
fn large_png_is_scaled_down() {
    let bytes = png(1200, 1000);
    let mut cache = ImageCache::new(IMAGE_CACHE_SIZE);
    let (mime, data) = prepare_image(&mut cache, "http://x/big.png", "image/png", bytes).unwrap();
    assert_eq!(mime, "image/png");
    let scaled = decode(&data);
    assert_eq!(image::guess_format(&scaled).unwrap(), image::ImageFormat::Png);
    let img = image::load_from_memory(&scaled).unwrap();
    assert_eq!(img.dimensions(), (1095, 913));
    assert!(img.width() * img.height() <= 1_000_000);
}

#[test]
fn large_jpeg_stays_jpeg() {
    let bytes = jpeg(1500, 1000);
    let mut cache = ImageCache::new(IMAGE_CACHE_SIZE);
    let (mime, data) = prepare_image(&mut cache, "http://x/big.jpg", "image/jpeg", bytes).unwrap();
    assert_eq!(mime, "image/jpeg");
    let scaled = decode(&data);
    assert_eq!(image::guess_format(&scaled).unwrap(), image::ImageFormat::Jpeg);
    let img = image::load_from_memory(&scaled).unwrap();
    assert_eq!(img.dimensions(), (1225, 816));
}

#[test]
fn media_types_name_their_formats() {
    assert_eq!(encoding_format("image/jpeg"), ImageKind::Jpeg);
    assert_eq!(encoding_format("image/png"), ImageKind::Png);
    assert_eq!(encoding_format("image/gif"), ImageKind::Gif);
    assert_eq!(encoding_format("image/webp"), ImageKind::WebP);
    // Formats that the decoder knows and the library does not encode.
    for other in [
        "image/avif",
        "image/tiff",
        "image/x-targa",
        "image/x-tga",
        "image/vnd-ms.dds",
        "image/bmp",
        "image/x-icon",
        "image/vnd.microsoft.icon",
        "image/vnd.radiance",
        "image/x-exr",
        "image/x-portable-bitmap",
        "image/x-portable-graymap",
        "image/x-portable-pixmap",
        "image/x-portable-anymap",
        "image/x-qoi",
    ] {
        assert_eq!(encoding_format(other), ImageKind::Other, "{}", other);
    }
    // A media type without a format falls back to PNG.
    for unmapped in ["", "image/jpg", "IMAGE/JPEG", "text/html", "image/svg+xml", "image/png "] {
        assert_eq!(encoding_format(unmapped), ImageKind::Png, "{:?}", unmapped);
    }
}

#[test]
fn large_image_is_encoded_in_the_format_of_its_media_type() {
    let bytes = png(1100, 1000);
    let out = encode_prepared(bytes.clone(), encoding_format("image/gif"), Some((110, 100))).unwrap();
    assert_eq!(image::guess_format(&out).unwrap(), image::ImageFormat::Gif);
    assert_eq!(image::load_from_memory(&out).unwrap().dimensions(), (110, 100));
    let out = encode_prepared(bytes.clone(), encoding_format("image/webp"), Some((110, 100))).unwrap();
    assert_eq!(image::guess_format(&out).unwrap(), image::ImageFormat::WebP);
    let out = encode_prepared(bytes.clone(), encoding_format("image/jpeg"), Some((110, 100))).unwrap();
    assert_eq!(image::guess_format(&out).unwrap(), image::ImageFormat::Jpeg);
    let out = encode_prepared(bytes.clone(), ImageKind::Png, Some((110, 100))).unwrap();
    assert_eq!(image::guess_format(&out).unwrap(), image::ImageFormat::Png);
    // A media type without a format of its own is encoded as PNG.
    let out = encode_prepared(bytes.clone(), encoding_format("image/unheard-of"), Some((110, 100)))
        .unwrap();
    assert_eq!(image::guess_format(&out).unwrap(), image::ImageFormat::Png);
    let out = encode_prepared(bytes.clone(), ImageKind::Png, None).unwrap();
    assert_eq!(out, bytes);
    // Nothing is encoded in a format without an encoder.
    assert_eq!(
        encode_prepared(bytes.clone(), ImageKind::Other, Some((110, 100))),
        Err(ImageError::EncodeFailed { jpeg: false })
    );
    assert_eq!(encode_prepared(bytes.clone(), ImageKind::Other, None), Ok(bytes));
    // Bytes that cannot be decoded cannot be scaled.
    assert_eq!(
        encode_prepared(b"junk".to_vec(), ImageKind::Png, Some((10, 10))),
        Err(ImageError::EncodeFailed { jpeg: false })
    );
    assert_eq!(
        encode_prepared(b"junk".to_vec(), ImageKind::Jpeg, Some((10, 10))),
        Err(ImageError::EncodeFailed { jpeg: true })
    );
}

#[test]
fn processing_alone_leaves_the_cache_out() {
    let bytes = png(1200, 1000);
    let (mime, data) = process_image("image/png", bytes).unwrap();
    assert_eq!(mime, "image/png");
    let img = image::load_from_memory(&decode(&data)).unwrap();
    assert_eq!(img.dimensions(), (1095, 913));
    assert_eq!(
        process_image("text/html", vec![1]),
        Err(ImageError::UnsupportedContentType("text/html".to_string()))
    );
}

#[test]
fn oversized_body_and_wrong_type_are_refused() {
    let mut cache = ImageCache::new(2);
    let bytes = vec![0u8; MAX_IMAGE_SIZE_BYTES + 1];
    assert_eq!(
        prepare_image(&mut cache, "u", "image/png", bytes),
        Err(ImageError::DownloadedTooLarge(MAX_IMAGE_SIZE_BYTES + 1))
    );
    assert_eq!(
        prepare_image(&mut cache, "u", "image/bmp", vec![1, 2, 3]),
        Err(ImageError::UnsupportedContentType("image/bmp".to_string()))
    );
    // A failure leaves the cache as it was.
    assert_eq!(cached_image(&mut cache, "u"), None);
}

#[test]
fn second_request_is_answered_from_the_cache() {
    let image_url = "https://example.org/picture.jpeg";
    let mut cache = ImageCache::new(10);
    // 1. First call (cache miss)
    assert_eq!(cached_image(&mut cache, image_url), None);
    let result1 = prepare_image(&mut cache, image_url, "image/jpeg", jpeg(64, 48));
    assert!(result1.is_ok());
    let (mime1, data1) = result1.unwrap();
    assert_eq!(mime1, "image/jpeg");
    assert!(!data1.is_empty());
    // 2. Second call (cache hit): nothing is fetched
    let result2 = cached_image(&mut cache, image_url);
    assert!(result2.is_some());
    let (mime2, data2) = result2.unwrap();
    assert_eq!(mime2, "image/jpeg");
    assert_eq!(data1, data2);
    // The address is matched exactly.
    assert_eq!(cached_image(&mut cache, "https://example.org/picture.jpeg?"), None);
    assert_eq!(cached_image(&mut cache, "https://EXAMPLE.org/picture.jpeg"), None);
}

#[test]
fn cache_drops_the_entry_used_least_recently() {
    let mut cache = ImageCache::new(2);
    cache.store("a", "image/png", "AAAA");
    cache.store("b", "image/png", "BBBB");
    // A look at `a` makes `b` the one used least recently.
    assert_eq!(cache.lookup("a"), Some(("image/png".to_string(), "AAAA".to_string())));
    cache.store("c", "image/gif", "CCCC");
    assert_eq!(cache.lookup("b"), None);
    assert_eq!(cache.lookup("a"), Some(("image/png".to_string(), "AAAA".to_string())));
    assert_eq!(cache.lookup("c"), Some(("image/gif".to_string(), "CCCC".to_string())));
    // Storing under an address that is there replaces its entry.
    cache.store("a", "image/webp", "aaaa");
    assert_eq!(cache.lookup("a"), Some(("image/webp".to_string(), "aaaa".to_string())));
    assert_eq!(cache.lookup("c"), Some(("image/gif".to_string(), "CCCC".to_string())));
}

#[test]
fn image_tool_hands_on_image_or_error() {
    assert_eq!(
        finish_image_tool(Ok(("image/png".to_string(), "AAAA".to_string()))),
        ToolResult::Image { mime_type: "image/png".to_string(), data: "AAAA".to_string() }
    );
    assert_eq!(
        finish_image_tool(Err(ImageError::EncodeFailed { jpeg: false })),
        ToolResult::Error("Failed to encode resized image".to_string())
    );
}
