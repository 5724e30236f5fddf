use input_validation::{
    classify_content, classify_sniffed, extension_matches, is_sniffable,
    normalized_extension_matches, validate_file, ContentGroup, ContentSubtype, ValidationError,
};

const PNG: [u8; 16] = [
    0x89, 0x50, 0x4E, 0x47, 0x0D, 0x0A, 0x1A, 0x0A, 0x00, 0x00, 0x00, 0x0D, 0x49, 0x48, 0x44, 0x52,
];
const JPEG: [u8; 8] = [0xFF, 0xD8, 0xFF, 0xE0, 0x00, 0x10, 0x4A, 0x46];
const GIF: &[u8] = b"GIF89a\x01\x00\x01\x00";
const TIFF: [u8; 12] = [0x49, 0x49, 0x2A, 0x00, 0x08, 0x00, 0x00, 0x00, 0x00, 0x00, 0x00, 0x00];
const MP4: [u8; 12] = [0x00, 0x00, 0x00, 0x18, b'f', b't', b'y', b'p', b'i', b's', b'o', b'm'];
const WEBM: [u8; 8] = [0x1A, 0x45, 0xDF, 0xA3, 0x9F, 0x42, 0x86, 0x81];
const AVI: [u8; 12] = [b'R', b'I', b'F', b'F', 0, 0, 0, 0, b'A', b'V', b'I', b' '];

fn subtype(extension: &str, mime_type: &str) -> ContentSubtype {
    ContentSubtype { extension: extension.to_string(), mime_type: mime_type.to_string() }
}

#[test]
fn classify_images() {
    assert_eq!(classify_content(&PNG), Ok((ContentGroup::Image, subtype("png", "image/png"))));
    assert_eq!(classify_content(&JPEG), Ok((ContentGroup::Image, subtype("jpg", "image/jpeg"))));
    assert_eq!(classify_content(GIF), Ok((ContentGroup::Image, subtype("gif", "image/gif"))));
    assert_eq!(classify_content(&TIFF), Ok((ContentGroup::Image, subtype("tif", "image/tiff"))));
}

#[test]
fn classify_videos() {
    assert_eq!(classify_content(&MP4), Ok((ContentGroup::Video, subtype("mp4", "video/mp4"))));
    assert_eq!(classify_content(&WEBM), Ok((ContentGroup::Video, subtype("webm", "video/webm"))));
    assert_eq!(
        classify_content(&AVI),
        Ok((ContentGroup::Video, subtype("avi", "video/x-msvideo")))
    );
}

#[test]
fn classify_neither_group() {
    assert_eq!(classify_content(&[]), Err(ValidationError::InvalidContentGroup));
    assert_eq!(classify_content(b"plain text"), Err(ValidationError::InvalidContentGroup));
    assert_eq!(classify_content(b"%PDF-1.4\n"), Err(ValidationError::InvalidContentGroup));
    // An archive is sniffed, but is neither an image nor a video.
    assert_eq!(
        classify_content(&[0x50, 0x4B, 0x03, 0x04, 0, 0, 0, 0]),
        Err(ValidationError::InvalidContentGroup)
    );
}

#[test]
fn classify_from_sniffed_answers() {
    let png = subtype("png", "image/png");
    assert_eq!(
        classify_sniffed(false, false, Some(png.clone())),
        Err(ValidationError::InvalidContentGroup)
    );
    assert_eq!(classify_sniffed(false, true, None), Err(ValidationError::InvalidContentType));
    assert_eq!(classify_sniffed(true, false, None), Err(ValidationError::InvalidContentType));
    assert_eq!(
        classify_sniffed(false, true, Some(png.clone())),
        Ok((ContentGroup::Image, png.clone()))
    );
    // A content that is both is stored as a video.
    assert_eq!(classify_sniffed(true, true, Some(png.clone())), Ok((ContentGroup::Video, png)));
}

#[test]
fn sniffable_buffers() {
    assert!(is_sniffable(&PNG));
    assert!(is_sniffable(&[]));
    let cr2_head = [0x49, 0x49, 0x2A, 0x00, 0x10, 0x00, 0x00, 0x00, 0x43, 0x52];
    assert!(!is_sniffable(&cr2_head));
    let mut longer = cr2_head.to_vec();
    longer.push(0x02);
    assert!(is_sniffable(&longer));
}

#[test]
fn extension_aliases() {
    let jpg = subtype("jpg", "image/jpeg");
    let tif = subtype("tif", "image/tiff");
    assert!(extension_matches("photos/cat.jpeg", &jpg));
    assert!(extension_matches("photos/cat.jpg", &jpg));
    assert!(extension_matches("scan.tiff", &tif));
    assert!(extension_matches("scan.tif", &tif));
    assert!(!extension_matches("photos/cat.png", &jpg));
    assert!(!extension_matches("scan.jpeg", &tif));
    // No other alias exists.
    let png = subtype("png", "image/png");
    assert!(!extension_matches("a.pngg", &png));
    let mp4 = subtype("mp4", "video/mp4");
    assert!(!extension_matches("a.mpeg4", &mp4));
}

#[test]
fn extension_case_and_white_space() {
    let jpg = subtype("jpg", "image/jpeg");
    assert!(extension_matches("CAT.JPEG", &jpg));
    assert!(extension_matches("Cat.JpG", &jpg));
    assert!(extension_matches("  cat.jpg \n", &jpg));
    // The normalized form is compared as it stands.
    assert!(!normalized_extension_matches("CAT.JPG", &jpg));
    assert!(normalized_extension_matches("cat.jpg", &jpg));
}

#[test]
fn extension_is_what_follows_the_last_dot() {
    let png = subtype("png", "image/png");
    assert!(!extension_matches("imagepng", &png));
    assert!(!extension_matches("image.xpng", &png));
    assert!(!extension_matches("dir.png/image", &png));
    assert!(!extension_matches("dir.png\\image", &png));
    assert!(!extension_matches("image.png.", &png));
    assert!(!extension_matches("", &png));
    assert!(extension_matches("a.b.png", &png));
    assert!(extension_matches(".png", &png));
}

#[test]
fn validate_file_checks_content_then_extension() {
    assert_eq!(validate_file("a/png.png", &PNG, true), Ok(true));
    assert_eq!(validate_file("a/png.jpg", &PNG, true), Ok(false));
    assert_eq!(validate_file("a/png.jpg", &PNG, false), Ok(true));
    assert_eq!(validate_file("a/jpg.jpeg", &JPEG, true), Ok(true));
    assert_eq!(validate_file("a/tiff.tiff", &TIFF, true), Ok(true));
    assert_eq!(validate_file("a/tiff.tif", &TIFF, true), Ok(true));
    assert_eq!(validate_file("a/mp4.avi", &MP4, true), Ok(false));
    assert_eq!(validate_file("a/mp4.avi", &MP4, false), Ok(true));
    assert_eq!(validate_file("a/csv.png", b"a,b\n1,2\n", true), Err(ValidationError::InvalidContentGroup));
    assert_eq!(validate_file("a/csv.png", b"a,b\n1,2\n", false), Err(ValidationError::InvalidContentGroup));
}
