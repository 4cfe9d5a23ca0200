use image::{DynamicImage, GenericImageView, ImageBuffer, ImageFormat, Rgba};
use std::io::Cursor;
use subsonic::media::resize_cover_art_bytes;
use subsonic::error::ApiError;
use subsonic::media::{
    attachment_disposition, avatar_candidates, content_range, cover_art_request, needs_resize,
    unsatisfiable_content_range, zip_download_name, AvatarParams, ByteRange, CoverArtParams,
};
use subsonic::media::{
    avatar_content_type, cover_art_image_format, download_filename, is_safe_avatar_name,
    is_safe_cover_art_id, parse_byte_range, range_reply, sanitize_zip_component,
    sanitized_filename, CoverImageFormat, RangeReply,
};
use subsonic::media::{cover_art_access, cover_art_body, is_within_folder, validate_song_path};

#[test]
fn safe_cover_art_id_allows_content_hash_like_values() {
    assert!(is_safe_cover_art_id("abc123"));
    assert!(is_safe_cover_art_id("cover-art_2024"));
}

#[test]
fn safe_cover_art_id_rejects_paths_traversal_dots_and_extensions() {
    assert!(!is_safe_cover_art_id("../secret"));
    assert!(!is_safe_cover_art_id("nested/cover"));
    assert!(!is_safe_cover_art_id("cover.jpg"));
    assert!(!is_safe_cover_art_id(""));
}

#[test]
fn sanitized_filename_removes_content_disposition_breakout_characters() {
    assert_eq!(
        sanitized_filename("/music/evil\"\r\nname.flac"),
        "evilname.flac"
    );
    assert_eq!(sanitized_filename("/music"), "music");
}

#[test]
fn cover_art_image_format_matches_supported_extensions() {
    assert_eq!(cover_art_image_format("jpg"), Some(CoverImageFormat::Jpeg));
    assert_eq!(cover_art_image_format("jpeg"), Some(CoverImageFormat::Jpeg));
    assert_eq!(cover_art_image_format("png"), Some(CoverImageFormat::Png));
    assert_eq!(cover_art_image_format("gif"), Some(CoverImageFormat::Gif));
    assert_eq!(cover_art_image_format("bmp"), Some(CoverImageFormat::Bmp));
    assert_eq!(cover_art_image_format("tiff"), Some(CoverImageFormat::Tiff));
    assert_eq!(cover_art_image_format("webp"), Some(CoverImageFormat::WebP));
}

#[test]
fn byte_range_parser_accepts_open_and_closed_ranges() {
    let closed = parse_byte_range("bytes=2-5", 10).expect("closed range should parse");
    assert_eq!((closed.start, closed.end, closed.len()), (2, 5, 4));

    let open = parse_byte_range("bytes=4-", 10).expect("open range should parse");
    assert_eq!((open.start, open.end, open.len()), (4, 9, 6));
}

#[test]
fn byte_range_parser_rejects_invalid_or_unsatisfiable_ranges() {
    assert!(parse_byte_range("items=1-2", 10).is_none());
    assert!(parse_byte_range("bytes=bogus-2", 10).is_none());
    assert!(parse_byte_range("bytes=5-2", 10).is_none());
    assert!(parse_byte_range("bytes=10-12", 10).is_none());
}

#[test]
fn sanitize_zip_component_replaces_illegal_characters() {
    assert_eq!(
        sanitize_zip_component("a/b\\c:d*e?f\"g<h>i|j"),
        "a_b_c_d_e_f_g_h_i_j"
    );
    assert_eq!(sanitize_zip_component("plain name"), "plain name");
}

#[test]
fn byte_range_end_is_clamped_to_the_file() {
    let r = parse_byte_range("bytes=3-100", 10).expect("range past the end is clamped");
    assert_eq!((r.start, r.end), (3, 9));
    assert!(parse_byte_range("bytes=1-2", 0).is_none());
}

#[test]
fn range_replies() {
    assert!(matches!(range_reply(None, 10), RangeReply::Whole));
    match range_reply(Some("bytes=2-5"), 10) {
        RangeReply::Partial(r) => assert_eq!((r.start, r.end), (2, 5)),
        _ => panic!("partial content expected"),
    }
    assert!(matches!(range_reply(Some("bytes=10-"), 10), RangeReply::Unsatisfiable));
    assert!(matches!(range_reply(Some("bytes=x-1"), 10), RangeReply::Invalid));
}

#[test]
fn download_filename_strips_breakout_and_defaults() {
    assert_eq!(download_filename(Some("a\"b\rc\nd")), "abcd");
    assert_eq!(download_filename(None), "download");
}

#[test]
fn avatar_names_and_types() {
    assert!(is_safe_avatar_name("alice_01-x"));
    assert!(!is_safe_avatar_name("../alice"));
    assert_eq!(avatar_content_type("png"), "image/png");
    assert_eq!(avatar_content_type("webp"), "image/webp");
    assert_eq!(avatar_content_type("jpg"), "image/jpeg");
}

#[test]
fn response_headers() {
    assert_eq!(content_range(&ByteRange { start: 2, end: 5 }, 10), "bytes 2-5/10");
    assert_eq!(unsatisfiable_content_range(10), "bytes */10");
    assert_eq!(attachment_disposition("a.flac"), "attachment; filename=\"a.flac\"");
    assert_eq!(zip_download_name("Me, Myself: I"), "Me_ Myself_ I.zip");
}

#[test]
fn cover_art_and_avatar_requests() {
    match cover_art_request(&CoverArtParams { id: Some(String::new()), size: None }) {
        Err(ApiError::MissingParameter(m)) => assert_eq!(m, "id"),
        _ => panic!("empty id is missing"),
    }
    match cover_art_request(&CoverArtParams { id: Some("../x".into()), size: None }) {
        Err(ApiError::NotFound(m)) => assert_eq!(m, "Cover art"),
        _ => panic!("unsafe id is not found"),
    }
    let q = cover_art_request(&CoverArtParams { id: Some("abc".into()), size: Some(0) }).unwrap();
    assert_eq!((q.id.as_str(), q.size), ("abc", None));
    let q = cover_art_request(&CoverArtParams { id: Some("abc".into()), size: Some(64) }).unwrap();
    assert_eq!(q.size, Some(64));
    assert!(!needs_resize(2, 2, 8));
    assert!(needs_resize(8, 4, 4));
    match avatar_candidates(&AvatarParams { username: None }) {
        Err(ApiError::MissingParameter(m)) => assert_eq!(m, "username"),
        _ => panic!("username is required"),
    }
    assert!(matches!(
        avatar_candidates(&AvatarParams { username: Some("a/b".into()) }),
        Err(ApiError::NotFound(_))
    ));
    let c = avatar_candidates(&AvatarParams { username: Some("bob".into()) }).unwrap();
    let names: Vec<(&str, &str)> = c.iter().map(|(f, e)| (f.as_str(), *e)).collect();
    assert_eq!(
        names,
        vec![("bob.png", "png"), ("bob.jpg", "jpg"), ("bob.jpeg", "jpeg"), ("bob.webp", "webp")]
    );
}

fn test_cover_art_bytes(width: u32, height: u32) -> Vec<u8> {
    let image = DynamicImage::ImageRgba8(ImageBuffer::from_fn(width, height, |x, y| {
        Rgba([(x % 255) as u8, (y % 255) as u8, 128, 255])
    }));

    let mut bytes = Cursor::new(Vec::new());
    image
        .write_to(&mut bytes, ImageFormat::Png)
        .expect("test image should encode");
    bytes.into_inner()
}

#[test]
fn cover_art_resize_keeps_original_bytes_when_image_is_small() {
    let original = test_cover_art_bytes(2, 2);
    let resized = resize_cover_art_bytes(original.clone(), CoverImageFormat::Png, 8)
        .expect("small image should be returned unchanged");
    assert_eq!(resized, original);
}

#[test]
fn cover_art_resize_downscales_large_images_without_upscaling() {
    let original = test_cover_art_bytes(8, 4);
    let resized = resize_cover_art_bytes(original.clone(), CoverImageFormat::Png, 4)
        .expect("large image should resize");

    assert_ne!(resized, original);

    let decoded = image::load_from_memory(&resized).expect("resized image should decode");
    let (width, height) = decoded.dimensions();
    assert!(width <= 4);
    assert!(height <= 4);
}

#[test]
fn cover_art_resize_rejects_bytes_that_hold_no_image() {
    assert_eq!(resize_cover_art_bytes(vec![1, 2, 3], CoverImageFormat::Png, 4), None);
}

#[test]
fn sanitizing_zip_components_twice_changes_nothing() {
    let once = sanitize_zip_component("a/b\\c:d*e?f\"g<h>i|j");
    assert_eq!(sanitize_zip_component(&once), once);
    assert!(!once.contains(['/', '\\', ':', '*', '?', '"', '<', '>', '|']));
}

#[test]
fn folder_prefix_counts_whole_components_only() {
    assert!(is_within_folder("/music/a/song.mp3", "/music"));
    assert!(is_within_folder("/music", "/music"));
    assert!(is_within_folder("/anything/at/all", "/"));
    assert!(!is_within_folder("/musical/song.mp3", "/music"));
    assert!(!is_within_folder("/other/song.mp3", "/music"));
    assert!(!is_within_folder("/mu", "/music"));
}

#[test]
fn song_path_inside_a_music_folder_is_accepted() {
    let folders = vec![None, Some("/srv/other".to_string()), Some("/srv/music".to_string())];
    let r = validate_song_path(Some("/srv/music/artist/track.flac".to_string()), Some(folders));
    assert_eq!(r, Ok("/srv/music/artist/track.flac".to_string()));
}

#[test]
fn song_path_outside_the_library_is_refused() {
    let folders = vec![Some("/srv/music".to_string())];
    assert_eq!(
        validate_song_path(Some("/etc/passwd".to_string()), Some(folders.clone())),
        Err("Audio file not found in music library")
    );
    assert_eq!(
        validate_song_path(Some("/srv/musicbox/x.mp3".to_string()), Some(folders)),
        Err("Audio file not found in music library")
    );
}

#[test]
fn missing_song_file_and_failed_folder_lookup_are_reported() {
    assert_eq!(
        validate_song_path(None, Some(vec![Some("/srv/music".to_string())])),
        Err("Audio file not found on disk")
    );
    assert_eq!(
        validate_song_path(Some("/srv/music/a.mp3".to_string()), None),
        Err("Music folder lookup failed")
    );
}

#[test]
fn download_name_is_the_final_path_component() {
    assert_eq!(sanitized_filename("/music/a/b/song.flac"), "song.flac");
    assert_eq!(sanitized_filename("relative/dir/x y.mp3"), "x y.mp3");
    assert_eq!(sanitized_filename("/music"), "music");
    assert_eq!(sanitized_filename("/music/"), "music");
    assert_eq!(sanitized_filename("/"), "download");
}

#[test]
fn cover_art_body_scales_large_art_into_the_square() {
    let original = test_cover_art_bytes(10, 6);
    let body = cover_art_body(original.clone(), "png", 5);
    assert_ne!(body, original);
    let (w, h) = image::load_from_memory(&body).expect("decodes").dimensions();
    assert!(w <= 5 && h <= 5);
}

#[test]
fn cover_art_body_serves_the_original_when_it_fits_or_cannot_be_scaled() {
    let small = test_cover_art_bytes(3, 3);
    assert_eq!(cover_art_body(small.clone(), "png", 8), small);
    let large = test_cover_art_bytes(10, 10);
    assert_eq!(cover_art_body(large.clone(), "svg", 4), large);
    let junk = vec![9u8, 9, 9];
    assert_eq!(cover_art_body(junk.clone(), "jpg", 4), junk);
}

#[test]
fn cover_art_needs_the_cover_art_role() {
    let params = CoverArtParams { id: Some("abc123".to_string()), size: Some(0) };
    let q = cover_art_access(&params, true).expect("allowed");
    assert_eq!(q.id, "abc123");
    assert_eq!(q.size, None);
    assert!(matches!(cover_art_access(&params, false), Err(ApiError::NotAuthorized)));
    let bad = CoverArtParams { id: Some("../x".to_string()), size: None };
    assert!(matches!(cover_art_access(&bad, false), Err(ApiError::NotFound(_))));
    let none = CoverArtParams { id: None, size: None };
    assert!(matches!(cover_art_access(&none, false), Err(ApiError::MissingParameter(_))));
}
