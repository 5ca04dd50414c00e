//! MIME type helpers.
use vstd::prelude::*;

use crate::models::EntryKind;
use crate::text::{has_prefix, str_eq, str_starts_with};

verus! {

/// The entry kind a MIME type implies.
pub open spec fn mime_kind(mime: Seq<char>) -> EntryKind {
    if has_prefix(mime, "image/"@) {
        EntryKind::Image
    } else if mime == "text/uri-list"@ {
        EntryKind::File
    } else if has_prefix(mime, "text/"@) {
        EntryKind::Text
    } else {
        EntryKind::Unknown
    }
}

/// Map a MIME type string to the coarse clipboard entry classification `EntryKind`.
pub fn kind_from_mime(mime: &str) -> (r: EntryKind)
    ensures
        r == mime_kind(mime@),
{
    if str_starts_with(mime, "image/") {
        EntryKind::Image
    } else if str_eq(mime, "text/uri-list") {
        EntryKind::File
    } else if str_starts_with(mime, "text/") {
        EntryKind::Text
    } else {
        EntryKind::Unknown
    }
}

/// The file extension used for an image MIME type.
pub open spec fn mime_extension(mime: Seq<char>) -> Seq<char> {
    if mime == "image/jpeg"@ {
        "jpg"@
    } else if mime == "image/webp"@ {
        "webp"@
    } else if mime == "image/gif"@ {
        "gif"@
    } else if mime == "image/bmp"@ {
        "bmp"@
    } else if mime == "image/png"@ {
        "png"@
    } else {
        "bin"@
    }
}

/// Map an image MIME type to its standard file extension, or `"bin"` if unrecognized.
pub fn extension_for_mime(mime: &str) -> (r: &'static str)
    ensures
        r@ == mime_extension(mime@),
{
    if str_eq(mime, "image/jpeg") {
        "jpg"
    } else if str_eq(mime, "image/webp") {
        "webp"
    } else if str_eq(mime, "image/gif") {
        "gif"
    } else if str_eq(mime, "image/bmp") {
        "bmp"
    } else if str_eq(mime, "image/png") {
        "png"
    } else {
        "bin"
    }
}

} // verus!
