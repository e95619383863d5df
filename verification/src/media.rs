//! What a file is, judged from its name: the MIME type the server labels it
//! with, and whether an import is footage, sound or a still.
//!
//! Both go by the extension, folded to lower case. Finding the extension is
//! `std::path::Path`'s job; everything after that is decided here.

use vstd::prelude::*;

use crate::scan::{ascii_lower, lower_ascii, same_chars};
use crate::text::chars_of;

verus! {

/// What `Path::extension` finds in a path: the text after the file name's
/// last `.`, if the name has one that is not its first character. Which
/// characters separate components and how a name is found are the
/// platform's rules, so nothing more is stated of it.
pub uninterp spec fn path_extension_of(path: Seq<char>) -> Option<Seq<char>>;

/// Calls `Path::extension` (and `OsStr::to_str`, which cannot fail on text
/// that came from a `&str`) on `path`: the result is `path_extension_of`
/// the path.
#[verifier::external_body]
pub fn path_extension(path: &str) -> (extension: Option<String>)
    ensures
        match extension {
            Some(text) => path_extension_of(path@) == Some(text@),
            None => path_extension_of(path@) is None,
        },
{
    std::path::Path::new(path).extension().and_then(|value| value.to_str()).map(str::to_owned)
}

/// `text` with its ASCII capitals made small, as `to_ascii_lowercase` does.
pub open spec fn ascii_lowercase(text: Seq<char>) -> Seq<char> {
    Seq::new(text.len(), |i: int| ascii_lower(text[i]))
}

/// The extension as the tables read it: lower case, empty when missing.
pub open spec fn folded_extension(extension: Option<Seq<char>>) -> Seq<char> {
    match extension {
        Some(text) => ascii_lowercase(text),
        None => Seq::empty(),
    }
}

/// The MIME type for a lower-case extension. Deliberately not a guess: an
/// unknown type the element cannot play should fail as itself, not as a
/// mislabelled mp4.
pub open spec fn mime_type(extension: Seq<char>) -> Seq<char> {
    if extension == "mp4"@ || extension == "m4v"@ {
        "video/mp4"@
    } else if extension == "mov"@ {
        "video/quicktime"@
    } else if extension == "webm"@ {
        "video/webm"@
    } else if extension == "mkv"@ {
        "video/x-matroska"@
    } else if extension == "avi"@ {
        "video/x-msvideo"@
    } else if extension == "mp3"@ {
        "audio/mpeg"@
    } else if extension == "m4a"@ || extension == "aac"@ {
        "audio/mp4"@
    } else if extension == "wav"@ {
        "audio/wav"@
    } else if extension == "flac"@ {
        "audio/flac"@
    } else if extension == "ogg"@ || extension == "opus"@ {
        "audio/ogg"@
    } else if extension == "png"@ {
        "image/png"@
    } else if extension == "jpg"@ || extension == "jpeg"@ {
        "image/jpeg"@
    } else if extension == "webp"@ {
        "image/webp"@
    } else if extension == "gif"@ {
        "image/gif"@
    } else if extension == "avif"@ {
        "image/avif"@
    } else {
        "application/octet-stream"@
    }
}

/// The extensions WolfCut is willing to treat as stills.
pub open spec fn is_image_extension(extension: Seq<char>) -> bool {
    ||| extension == "png"@
    ||| extension == "jpg"@
    ||| extension == "jpeg"@
    ||| extension == "webp"@
    ||| extension == "bmp"@
    ||| extension == "tif"@
    ||| extension == "tiff"@
    ||| extension == "avif"@
    ||| extension == "heic"@
    ||| extension == "heif"@
    ||| extension == "gif"@
}

/// What an import is: `audio` without a picture; `image` for a picture
/// with a still's extension and no duration; `video` otherwise.
pub open spec fn media_class(extension: Seq<char>, has_video: bool, has_duration: bool) -> Seq<
    char,
> {
    if !has_video {
        "audio"@
    } else if is_image_extension(extension) && !has_duration {
        "image"@
    } else {
        "video"@
    }
}

/// The characters of `extension`, folded to lower case; none when missing.
pub fn fold_extension(extension: Option<&str>) -> (folded: Vec<char>)
    ensures
        folded@ == folded_extension(
            match extension {
                Some(text) => Some(text@),
                None => None,
            },
        ),
{
    let mut folded: Vec<char> = Vec::new();
    if let Some(text) = extension {
        let chars = chars_of(text);
        let mut i: usize = 0;
        while i < chars.len()
            invariant
                i <= chars@.len(),
                chars@ == text@,
                folded@ == ascii_lowercase(chars@).take(i as int),
            decreases chars@.len() - i,
        {
            folded.push(lower_ascii(chars[i]));
            assert(folded@ =~= ascii_lowercase(chars@).take(i + 1));
            i += 1;
        }
        assert(folded@ =~= ascii_lowercase(chars@));
    } else {
        assert(folded@ =~= Seq::<char>::empty());
    }
    folded
}

fn is(extension: &Vec<char>, word: &str) -> (same: bool)
    ensures
        same == (extension@ == word@),
{
    same_chars(extension, &chars_of(word))
}

/// The MIME type for an already folded extension.
pub fn mime_of_folded(extension: &Vec<char>) -> (mime: &'static str)
    ensures
        mime@ == mime_type(extension@),
{
    if is(extension, "mp4") || is(extension, "m4v") {
        "video/mp4"
    } else if is(extension, "mov") {
        "video/quicktime"
    } else if is(extension, "webm") {
        "video/webm"
    } else if is(extension, "mkv") {
        "video/x-matroska"
    } else if is(extension, "avi") {
        "video/x-msvideo"
    } else if is(extension, "mp3") {
        "audio/mpeg"
    } else if is(extension, "m4a") || is(extension, "aac") {
        "audio/mp4"
    } else if is(extension, "wav") {
        "audio/wav"
    } else if is(extension, "flac") {
        "audio/flac"
    } else if is(extension, "ogg") || is(extension, "opus") {
        "audio/ogg"
    } else if is(extension, "png") {
        "image/png"
    } else if is(extension, "jpg") || is(extension, "jpeg") {
        "image/jpeg"
    } else if is(extension, "webp") {
        "image/webp"
    } else if is(extension, "gif") {
        "image/gif"
    } else if is(extension, "avif") {
        "image/avif"
    } else {
        "application/octet-stream"
    }
}

/// The MIME type for a file with this extension, in any case.
pub fn mime_of_extension(extension: Option<&str>) -> (mime: &'static str)
    ensures
        mime@ == mime_type(
            folded_extension(
                match extension {
                    Some(text) => Some(text@),
                    None => None,
                },
            ),
        ),
{
    mime_of_folded(&fold_extension(extension))
}

/// The MIME type the server labels `path` with, from its extension.
pub fn mime_of(path: &str) -> (mime: &'static str)
    ensures
        mime@ == mime_type(folded_extension(path_extension_of(path@))),
{
    let extension = path_extension(path);
    match &extension {
        Some(text) => {
            let mime = mime_of_extension(Some(text.as_str()));
            assert(mime@ == mime_type(folded_extension(Some(text@))));
            mime
        },
        None => {
            let mime = mime_of_extension(None);
            assert(mime@ == mime_type(folded_extension(None)));
            mime
        },
    }
}

/// Whether a folded extension names a still.
pub fn is_image_folded(extension: &Vec<char>) -> (image: bool)
    ensures
        image == is_image_extension(extension@),
{
    is(extension, "png") || is(extension, "jpg") || is(extension, "jpeg") || is(extension, "webp")
        || is(extension, "bmp") || is(extension, "tif") || is(extension, "tiff") || is(
        extension,
        "avif",
    ) || is(extension, "heic") || is(extension, "heif") || is(extension, "gif")
}

/// Decides whether an import is footage, sound or a still, given what the
/// probe found and the file's extension.
///
/// Extension first, because that is what the user means by "a png", and the
/// probe is genuinely ambiguous here: a PNG presents as a one-frame video
/// stream. The duration is what separates a still from an animation.
pub fn classify_extension(extension: Option<&str>, has_video: bool, has_duration: bool) -> (kind:
    &'static str)
    ensures
        kind@ == media_class(
            folded_extension(
                match extension {
                    Some(text) => Some(text@),
                    None => None,
                },
            ),
            has_video,
            has_duration,
        ),
{
    if !has_video {
        return "audio";
    }
    let folded = fold_extension(extension);
    if is_image_folded(&folded) && !has_duration {
        "image"
    } else {
        "video"
    }
}

/// [`classify_extension`] for the file at `path`, its extension found by
/// `Path::extension`.
pub fn classify(path: &str, has_video: bool, has_duration: bool) -> (kind: &'static str)
    ensures
        kind@ == media_class(folded_extension(path_extension_of(path@)), has_video, has_duration),
{
    let extension = path_extension(path);
    match &extension {
        Some(text) => {
            let kind = classify_extension(Some(text.as_str()), has_video, has_duration);
            assert(kind@ == media_class(
                folded_extension(Some(text@)),
                has_video,
                has_duration,
            ));
            kind
        },
        None => {
            let kind = classify_extension(None, has_video, has_duration);
            assert(kind@ == media_class(folded_extension(None), has_video, has_duration));
            kind
        },
    }
}

/// The still extensions are exactly png, jpg, jpeg, webp, bmp, tif, tiff,
/// avif, heic, heif and gif, in any case: a file with one of them, a picture
/// and no duration imports as an image; with a duration (an animation) it
/// imports as video; without a picture it is audio.
pub proof fn lemma_stills_import_as_images(extension: Seq<char>, has_duration: bool)
    requires
        extension == "png"@ || extension == "jpg"@ || extension == "jpeg"@ || extension == "webp"@
            || extension == "bmp"@ || extension == "tif"@ || extension == "tiff"@ || extension
            == "avif"@ || extension == "heic"@ || extension == "heif"@ || extension == "gif"@,
    ensures
        media_class(extension, true, false) == "image"@,
        has_duration ==> media_class(extension, true, has_duration) == "video"@,
        media_class(extension, false, has_duration) == "audio"@,
{
}

} // verus!
