use anyhow::Context;
use matui::mime::{is_animated_image, is_video, mime_from_extension, mime_from_path};

#[test]
fn it_finds_mime_types() -> anyhow::Result<()> {
    let mut path = dirs::home_dir().context("")?;
    path.push("funny_photo.jpg");

    assert_eq!(mime_from_path(path.to_str().unwrap()).to_string(), "image/jpeg");

    Ok(())
}

#[test]
fn it_does_not_find_mime_types() -> anyhow::Result<()> {
    let mut path = dirs::home_dir().context("")?;
    path.push("silly_file.woofy");

    assert_eq!(
        mime_from_path(path.to_str().unwrap()).to_string(),
        "application/octet-stream"
    );

    Ok(())
}

#[test]
fn the_extension_counts_whatever_its_case() {
    assert_eq!(mime_from_path("/tmp/Movie.MP4"), "video/mp4");
    assert_eq!(mime_from_path("archive.tar.gz"), "application/octet-stream");
    assert_eq!(mime_from_path("archive.tar"), "application/x-tar");
    assert_eq!(mime_from_path("noextension"), "application/octet-stream");
    assert_eq!(mime_from_path(".png"), "application/octet-stream");
    assert_eq!(mime_from_path("dir.png/file"), "application/octet-stream");
}

#[test]
fn every_known_extension_has_its_type() {
    let table = [
        ("avif", "image/avif"),
        ("jpeg", "image/jpeg"),
        ("jpg", "image/jpeg"),
        ("jxl", "image/jxl"),
        ("heic", "image/heic"),
        ("heics", "image/heic-sequence"),
        ("heif", "image/heif"),
        ("heifs", "image/heif-sequence"),
        ("m4a", "audio/m4a"),
        ("mkv", "video/x-matroska"),
        ("mov", "video/quicktime"),
        ("mp3", "audio/mpeg"),
        ("mp4", "video/mp4"),
        ("mp4a", "audio/mp4"),
        ("pdf", "application/pdf"),
        ("png", "image/png"),
        ("tar", "application/x-tar"),
        ("tar.gz", "application/gzip"),
        ("wav", "audio/wav"),
        ("zip", "application/zip"),
    ];
    for (extension, mime) in table {
        assert_eq!(mime_from_extension(extension), mime);
    }
    assert_eq!(mime_from_extension("JPG"), "application/octet-stream");
    assert_eq!(mime_from_extension(""), "application/octet-stream");
}

#[test]
fn videos_and_moving_pictures_are_told() {
    assert!(is_video("video/mp4"));
    assert!(!is_video("image/png"));
    assert!(!is_video("video"));
    assert!(is_animated_image("gif"));
    assert!(is_animated_image("webp"));
    assert!(!is_animated_image("png"));
}
