//! Image attachments (`--image` and the TUI): the media type a file's
//! extension names, and the error when a file cannot be attached.
//!
//! PNG, JPEG (`.jpg`, `.jpeg`), GIF and WebP images are accepted; the
//! extension is matched without regard to ASCII case.
use vstd::prelude::*;

use crate::paths::{components, components_of};
use crate::session_cli::{extension_of, extension_of_name};
use crate::text::{chars_of, eq_ignore_ascii_case, eq_ignore_case, extend_str, string_of};

verus! {

/// The media type of an image.
#[derive(Debug, Clone, Copy, PartialEq, Eq, Structural)]
pub enum MediaType {
    Png,
    Jpeg,
    Gif,
    WebP,
}

/// The final component of a path, when it names a file (`Path::file_name`):
/// not the root and not `..`.
pub open spec fn file_name(p: Seq<char>) -> Option<Seq<char>> {
    let cs = components(p);
    if cs.len() == 0 || cs.last() == seq!['/'] || cs.last() == seq!['.', '.'] {
        None
    } else {
        Some(cs.last())
    }
}

/// The media type an extension names.
pub open spec fn media_type_of_extension(ext: Seq<char>) -> Option<MediaType> {
    if eq_ignore_ascii_case(ext, "png"@) {
        Some(MediaType::Png)
    } else if eq_ignore_ascii_case(ext, "jpg"@) || eq_ignore_ascii_case(ext, "jpeg"@) {
        Some(MediaType::Jpeg)
    } else if eq_ignore_ascii_case(ext, "gif"@) {
        Some(MediaType::Gif)
    } else if eq_ignore_ascii_case(ext, "webp"@) {
        Some(MediaType::WebP)
    } else {
        None
    }
}

/// The media type of the file at `path`, by its extension.
pub open spec fn media_type_spec(path: Seq<char>) -> Option<MediaType> {
    match file_name(path) {
        Some(n) => match extension_of(n) {
            Some(e) => media_type_of_extension(e),
            None => None,
        },
        None => None,
    }
}

/// The media type of the file at `path`, from its extension.
pub fn detect_media_type(path: &str) -> (r: Option<MediaType>)
    ensures
        r == media_type_spec(path@),
{
    let cs = components_of(&chars_of(path));
    let n = cs.len();
    if n == 0 {
        return None;
    }
    let last = &cs[n - 1];
    assert(cs@[n - 1]@ == components(path@).last());
    if (last.len() == 1 && last[0] == '/') || (last.len() == 2 && last[0] == '.' && last[1]
        == '.') {
        proof {
            if last.len() == 1 {
                assert(last@ =~= seq!['/']);
            } else {
                assert(last@ =~= seq!['.', '.']);
            }
        }
        return None;
    }
    assert(last@ != seq!['/'] && last@ != seq!['.', '.']);
    let ext = match extension_of_name(last) {
        Some(e) => e,
        None => return None,
    };
    if eq_ignore_case(&ext, &chars_of("png")) {
        Some(MediaType::Png)
    } else if eq_ignore_case(&ext, &chars_of("jpg")) || eq_ignore_case(&ext, &chars_of("jpeg")) {
        Some(MediaType::Jpeg)
    } else if eq_ignore_case(&ext, &chars_of("gif")) {
        Some(MediaType::Gif)
    } else if eq_ignore_case(&ext, &chars_of("webp")) {
        Some(MediaType::WebP)
    } else {
        None
    }
}

/// Why an image could not be attached.
#[derive(Debug)]
pub struct ImageLoadError {
    pub path: String,
    pub reason: String,
}

impl ImageLoadError {
    /// The message of this error.
    pub fn message(&self) -> (r: String)
        ensures
            r@ == "image load error for "@ + self.path@ + ": "@ + self.reason@,
    {
        let mut v = chars_of("image load error for ");
        extend_str(&mut v, self.path.as_str());
        extend_str(&mut v, ": ");
        extend_str(&mut v, self.reason.as_str());
        string_of(&v)
    }
}

/// An image to send with a prompt: its bytes and media type.
#[derive(Debug)]
pub struct ImageInput {
    pub data: Vec<u8>,
    pub media_type: MediaType,
}

/// The reason given for a file whose extension names no accepted format.
pub open spec fn unsupported_reason() -> Seq<char> {
    "unsupported image format (accepted: png, jpg/jpeg, gif, webp)"@
}

/// The image at `path`, given the outcome of reading the file (its bytes,
/// or why reading failed): an unsupported extension is refused whatever
/// the read gave.
pub fn load_image(path: &str, read: Result<Vec<u8>, String>) -> (r: Result<ImageInput, ImageLoadError>)
    ensures
        match media_type_spec(path@) {
            None => r matches Err(e) && e.path@ == path@ && e.reason@ == unsupported_reason(),
            Some(m) => match read {
                Ok(data) => r matches Ok(img) && img.data@ == data@ && img.media_type == m,
                Err(why) => r matches Err(e) && e.path@ == path@ && e.reason@
                    == "failed to read file: "@ + why@,
            },
        },
{
    let media_type = match detect_media_type(path) {
        Some(m) => m,
        None => {
            return Err(
                ImageLoadError {
                    path: string_of(&chars_of(path)),
                    reason: string_of(
                        &chars_of("unsupported image format (accepted: png, jpg/jpeg, gif, webp)"),
                    ),
                },
            );
        },
    };
    match read {
        Ok(data) => Ok(ImageInput { data, media_type }),
        Err(why) => {
            let mut v = chars_of("failed to read file: ");
            extend_str(&mut v, why.as_str());
            Err(ImageLoadError { path: string_of(&chars_of(path)), reason: string_of(&v) })
        },
    }
}

} // verus!
