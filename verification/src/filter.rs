//! Which attachments count as still images.

use crate::text::{chars_of, ends_with, lowered, lowered_chars, same_chars, starts_with};
use vstd::prelude::*;

verus! {

/// Whether a declared content type names an image other than a GIF.
pub open spec fn image_type(content_type: Seq<char>) -> bool {
    "image/"@.is_prefix_of(content_type) && content_type != "image/gif"@
}

/// Whether a file name, whatever its case, carries the extension of a still
/// image.
pub open spec fn image_name(filename: Seq<char>) -> bool {
    let name = lowered(filename);
    !".gif"@.is_suffix_of(name) && (".png"@.is_suffix_of(name) || ".jpg"@.is_suffix_of(name)
        || ".jpeg"@.is_suffix_of(name) || ".webp"@.is_suffix_of(name))
}

/// An attachment qualifies by its declared content type or by its file name.
/// Animated images are left out on both sides.
pub open spec fn qualifies(filename: Seq<char>, content_type: Option<Seq<char>>) -> bool {
    (content_type matches Some(t) && image_type(t)) || image_name(filename)
}

/// Whether `content_type` names an image other than a GIF.
pub fn is_image_type(content_type: &str) -> (r: bool)
    ensures
        r == image_type(content_type@),
{
    let declared = chars_of(content_type);
    starts_with(&declared, &chars_of("image/")) && !same_chars(&declared, &chars_of("image/gif"))
}

/// Whether `filename` has the extension of a still image.
pub fn is_image_name(filename: &str) -> (r: bool)
    ensures
        r == image_name(filename@),
{
    let name = lowered_chars(&chars_of(filename));
    !ends_with(&name, &chars_of(".gif")) && (ends_with(&name, &chars_of(".png")) || ends_with(
        &name,
        &chars_of(".jpg"),
    ) || ends_with(&name, &chars_of(".jpeg")) || ends_with(&name, &chars_of(".webp")))
}

/// Classifies an attachment as a qualifying image.
pub fn is_qualifying_image(filename: &str, content_type: Option<&str>) -> (r: bool)
    ensures
        r == qualifies(
            filename@,
            match content_type {
                Some(t) => Some(t@),
                None => None,
            },
        ),
{
    let by_type = match content_type {
        Some(t) => is_image_type(t),
        None => false,
    };
    by_type || is_image_name(filename)
}

} // verus!
