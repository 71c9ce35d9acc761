//! The media types of the files that are sent.

use crate::text::{lowercase, same_text, to_lowercase};
use crate::username::opt_text;
use vstd::prelude::*;

verus! {

/// The extension of the file that a path names, if it has one: what
/// `Path::extension` of the standard library returns.
pub uninterp spec fn path_extension(path: Seq<char>) -> Option<Seq<char>>;

/// `Path::extension` of the standard library, for a path that is a text.
#[verifier::external_body]
fn extension_of(path: &str) -> (extension: Option<String>)
    ensures
        opt_text(extension) == path_extension(path@),
{
    std::path::Path::new(path).extension().and_then(|e| e.to_str()).map(String::from)
}

/// The media type for an extension in lower case: a few kinds that matter
/// in a chat are known, every other file is a stream of bytes.
pub open spec fn media_type(extension: Seq<char>) -> Seq<char> {
    if extension == "avif"@ {
        "image/avif"@
    } else if extension == "jpeg"@ {
        "image/jpeg"@
    } else if extension == "jpg"@ {
        "image/jpeg"@
    } else if extension == "jxl"@ {
        "image/jxl"@
    } else if extension == "heic"@ {
        "image/heic"@
    } else if extension == "heics"@ {
        "image/heic-sequence"@
    } else if extension == "heif"@ {
        "image/heif"@
    } else if extension == "heifs"@ {
        "image/heif-sequence"@
    } else if extension == "m4a"@ {
        "audio/m4a"@
    } else if extension == "mkv"@ {
        "video/x-matroska"@
    } else if extension == "mov"@ {
        "video/quicktime"@
    } else if extension == "mp3"@ {
        "audio/mpeg"@
    } else if extension == "mp4"@ {
        "video/mp4"@
    } else if extension == "mp4a"@ {
        "audio/mp4"@
    } else if extension == "pdf"@ {
        "application/pdf"@
    } else if extension == "png"@ {
        "image/png"@
    } else if extension == "tar"@ {
        "application/x-tar"@
    } else if extension == "tar.gz"@ {
        "application/gzip"@
    } else if extension == "wav"@ {
        "audio/wav"@
    } else if extension == "zip"@ {
        "application/zip"@
    } else {
        "application/octet-stream"@
    }
}

/// The media type of the file that a path names: that of its extension,
/// taken in lower case; a stream of bytes where it has none.
pub open spec fn media_type_of(path: Seq<char>) -> Seq<char> {
    match path_extension(path) {
        Some(extension) => media_type(lowercase(extension)),
        None => media_type(lowercase(Seq::empty())),
    }
}

/// The media type for an extension in lower case: see `media_type`.
pub fn mime_from_extension(extension: &str) -> (mime: &'static str)
    ensures
        mime@ == media_type(extension@),
{
    if same_text(extension, "avif") {
        "image/avif"
    } else if same_text(extension, "jpeg") {
        "image/jpeg"
    } else if same_text(extension, "jpg") {
        "image/jpeg"
    } else if same_text(extension, "jxl") {
        "image/jxl"
    } else if same_text(extension, "heic") {
        "image/heic"
    } else if same_text(extension, "heics") {
        "image/heic-sequence"
    } else if same_text(extension, "heif") {
        "image/heif"
    } else if same_text(extension, "heifs") {
        "image/heif-sequence"
    } else if same_text(extension, "m4a") {
        "audio/m4a"
    } else if same_text(extension, "mkv") {
        "video/x-matroska"
    } else if same_text(extension, "mov") {
        "video/quicktime"
    } else if same_text(extension, "mp3") {
        "audio/mpeg"
    } else if same_text(extension, "mp4") {
        "video/mp4"
    } else if same_text(extension, "mp4a") {
        "audio/mp4"
    } else if same_text(extension, "pdf") {
        "application/pdf"
    } else if same_text(extension, "png") {
        "image/png"
    } else if same_text(extension, "tar") {
        "application/x-tar"
    } else if same_text(extension, "tar.gz") {
        "application/gzip"
    } else if same_text(extension, "wav") {
        "audio/wav"
    } else if same_text(extension, "zip") {
        "application/zip"
    } else {
        "application/octet-stream"
    }
}

/// The media type of the file that a path names: see `media_type_of`.
pub fn mime_from_path(path: &str) -> (mime: String)
    ensures
        mime@ == media_type_of(path@),
{
    let extension = match extension_of(path) {
        Some(e) => e,
        None => String::new(),
    };
    let lower = to_lowercase(extension.as_str());
    String::from_str(mime_from_extension(lower.as_str()))
}

/// Whether a media type is a video.
pub fn is_video(mime: &str) -> (video: bool)
    ensures
        video == (mime@.len() >= 6 && mime@.subrange(0, 6) == "video/"@),
{
    let chars = crate::text::chars_of(mime);
    proof {
        reveal_strlit("video/");
    }
    if chars.len() < 6 {
        return false;
    }
    let matches = chars[0] == 'v' && chars[1] == 'i' && chars[2] == 'd' && chars[3] == 'e' && chars[4]
        == 'o' && chars[5] == '/';
    assert(matches == (mime@.subrange(0, 6) =~= "video/"@)) by {
        if matches {
            assert(mime@.subrange(0, 6) =~= "video/"@);
        } else {
            let s = mime@.subrange(0, 6);
            assert(s[0] == chars@[0] && s[1] == chars@[1] && s[2] == chars@[2] && s[3] == chars@[3]
                && s[4] == chars@[4] && s[5] == chars@[5]);
        }
    }
    matches
}

/// Whether the kind of picture is one that moves: a gif or a webp.
pub fn is_animated_image(subtype: &str) -> (animated: bool)
    ensures
        animated == (subtype@ == "gif"@ || subtype@ == "webp"@),
{
    same_text(subtype, "gif") || same_text(subtype, "webp")
}

/// What is made for a file before it is sent.
#[derive(Clone, Copy, Debug, PartialEq, Eq, Structural)]
pub enum ThumbnailKind {
    /// A frame from the middle of the video.
    Video,
    /// The first frame of a picture that moves.
    AnimatedImage,
    /// A picture that stands still needs no thumbnail; its size is read.
    StillImage,
}

/// The part of a media type before the slash.
pub open spec fn main_type(mime: Seq<char>, n: nat) -> Seq<char>
    decreases n,
{
    if n == 0 || n > mime.len() {
        mime
    } else if mime[mime.len() - n] == '/' {
        mime.take(mime.len() - n)
    } else {
        main_type(mime, (n - 1) as nat)
    }
}

/// The part of a media type behind the first slash; nothing where it has
/// none.
pub open spec fn sub_type(mime: Seq<char>, n: nat) -> Seq<char>
    decreases n,
{
    if n == 0 || n > mime.len() {
        Seq::empty()
    } else if mime[mime.len() - n] == '/' {
        mime.skip(mime.len() - n + 1)
    } else {
        sub_type(mime, (n - 1) as nat)
    }
}

/// What is made for a file of a media type, if the type is one that can be
/// sent with a thumbnail.
pub open spec fn thumbnail_for(mime: Seq<char>) -> Option<ThumbnailKind> {
    let main = main_type(mime, mime.len());
    let sub = sub_type(mime, mime.len());
    if main == "video"@ {
        Some(ThumbnailKind::Video)
    } else if main == "image"@ {
        if sub == "gif"@ || sub == "webp"@ {
            Some(ThumbnailKind::AnimatedImage)
        } else {
            Some(ThumbnailKind::StillImage)
        }
    } else {
        None
    }
}

/// What is made for a file of a media type: see `thumbnail_for`. The error
/// says that the type is not supported.
pub fn get_thumbnail(mime: &str) -> (kind: Result<ThumbnailKind, String>)
    ensures
        match kind {
            Ok(k) => thumbnail_for(mime@) == Some(k),
            Err(reason) => thumbnail_for(mime@) is None && reason@ == "unsupported media type: "@
                + mime@,
        },
{
    let v = crate::text::chars_of(mime);
    let mut i: usize = 0;
    while i < v.len() && v[i] != '/'
        invariant
            i <= v.len(),
            v@ == mime@,
            main_type(v@, (v.len() - i) as nat) == main_type(v@, v@.len()),
            sub_type(v@, (v.len() - i) as nat) == sub_type(v@, v@.len()),
        decreases v.len() - i,
    {
        i += 1;
    }
    let main = crate::text::string_of(&v, 0, i);
    let sub = if i < v.len() {
        crate::text::string_of(&v, i + 1, v.len())
    } else {
        String::new()
    };
    proof {
        assert(v@.subrange(0, i as int) == v@.take(i as int));
        if i < v.len() {
            assert(v@.subrange(i + 1, v.len() as int) == v@.skip(i + 1));
        } else {
            assert(v@.take(i as int) == v@);
        }
    }
    if same_text(main.as_str(), "video") {
        Ok(ThumbnailKind::Video)
    } else if same_text(main.as_str(), "image") {
        if is_animated_image(sub.as_str()) {
            Ok(ThumbnailKind::AnimatedImage)
        } else {
            Ok(ThumbnailKind::StillImage)
        }
    } else {
        let mut reason = String::from_str("unsupported media type: ");
        reason.append(mime);
        Err(reason)
    }
}

} // verus!
