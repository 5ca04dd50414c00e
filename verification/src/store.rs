//! The decisions around storing a clipboard payload: the size limit that
//! applies to it, whether it repeats a file list copied a moment ago, the
//! hash it is stored under, and what follows a store (OCR, clean-up, favicon).
use vstd::prelude::*;
use vstd::utf8::{decode_utf8, valid_utf8};

use crate::config::{AppConfig, HistoryConfig};
use crate::files::{normalize_path_or_uri_list, normalized_path_list, opt_view};
use crate::colors::hex_char;
use crate::format::u128_decimal;
use crate::mime::{extension_for_mime, mime_extension};
use crate::models::{NewEntry, NewEntryData};
use crate::text::{
    chars_of, decimal_text, has_prefix, push_all, str_eq, str_starts_with, string_of,
};

verus! {

/// How long (in seconds) a stored file list makes the same paths copied as
/// plain text a duplicate.
pub const FILE_TEXT_DUPLICATE_WINDOW_SECS: i64 = 5;

/// The byte limit for a payload: the image limit for `image/*`, the text
/// limit otherwise; a limit of zero means no limit.
pub open spec fn limit_for(mime_type: Seq<char>, history: HistoryConfig) -> Option<usize> {
    let limit = if has_prefix(mime_type, "image/"@) {
        history.max_image_bytes
    } else {
        history.max_text_bytes
    };
    if limit > 0 {
        Some(limit)
    } else {
        None
    }
}

/// The byte limit for a payload of this MIME type, if any.
pub fn payload_limit(mime_type: &str, history: &HistoryConfig) -> (r: Option<usize>)
    ensures
        r == limit_for(mime_type@, *history),
{
    let limit = if str_starts_with(mime_type, "image/") {
        history.max_image_bytes
    } else {
        history.max_text_bytes
    };
    if limit > 0 {
        Some(limit)
    } else {
        None
    }
}

/// How many bytes to read from the input: one past the limit, so that an
/// oversized payload shows, or everything without a limit.
pub fn read_cap(limit: Option<usize>) -> (r: Option<u64>)
    ensures
        r == (match limit {
            Some(l) => Some(
                (if l == usize::MAX {
                    l as int
                } else {
                    l + 1
                }) as u64,
            ),
            None => None,
        }),
{
    match limit {
        Some(l) => Some(l.saturating_add(1) as u64),
        None => None,
    }
}

/// Whether a payload of `len` bytes exceeds the limit (and is skipped).
pub fn payload_exceeds(limit: Option<usize>, len: usize) -> (r: bool)
    ensures
        r == (match limit {
            Some(l) => len > l,
            None => false,
        }),
{
    match limit {
        Some(l) => len > l,
        None => false,
    }
}

/// Decodes bytes with `std::str::from_utf8`: the text when the bytes are
/// valid UTF-8, and `None` otherwise.
#[verifier::external_body]
fn utf8_text(bytes: &[u8]) -> (r: Option<String>)
    ensures
        r is Some <==> valid_utf8(bytes@),
        r matches Some(s) ==> s@ == decode_utf8(bytes@),
{
    match std::str::from_utf8(bytes) {
        Ok(s) => Some(s.to_string()),
        Err(_) => None,
    }
}

/// The file list a plain-text payload amounts to, when it is one: valid
/// UTF-8 whose lines are all absolute paths or `file://` URIs. A stored file
/// list with the same text, updated within `FILE_TEXT_DUPLICATE_WINDOW_SECS`,
/// makes the payload a duplicate.
pub open spec fn duplicate_candidate(mime_type: Seq<char>, payload: Seq<u8>) -> Option<Seq<char>> {
    if mime_type == "text/plain"@ && valid_utf8(payload) {
        normalized_path_list(decode_utf8(payload))
    } else {
        None
    }
}

/// The normalized file list to look for among recently stored entries, if
/// the payload could repeat one.
pub fn text_file_duplicate_candidate(mime_type: &str, payload: &[u8]) -> (r: Option<String>)
    ensures
        opt_view(r) == duplicate_candidate(mime_type@, payload@),
{
    if !str_eq(mime_type, "text/plain") {
        return None;
    }
    match utf8_text(payload) {
        Some(text) => normalize_path_or_uri_list(text.as_str()),
        None => None,
    }
}

/// The hash an entry is stored under: the content hash when duplicates are
/// merged, or the content hash made unique with the process id and the time.
pub open spec fn stored_hash(hash: Seq<char>, dedupe: bool, pid: u32, nanos: u128) -> Seq<char> {
    if dedupe {
        hash
    } else {
        hash + "-"@ + decimal_text(pid as nat) + "-"@ + decimal_text(nanos as nat)
    }
}

/// The hash an entry is stored under.
pub fn entry_hash(hash: &str, dedupe: bool, pid: u32, nanos: u128) -> (r: String)
    ensures
        r@ == stored_hash(hash@, dedupe, pid, nanos),
{
    let mut v = chars_of(hash);
    if !dedupe {
        push_all(&mut v, &chars_of("-"));
        push_all(&mut v, &u128_decimal(pid as u128));
        push_all(&mut v, &chars_of("-"));
        push_all(&mut v, &u128_decimal(nanos));
    }
    string_of(&v)
}

/// Records where an image entry's payload was saved; other entries are left
/// as they are.
pub fn set_image_path(entry: &mut NewEntry, path: &str)
    ensures
        final(entry).content_hash == old(entry).content_hash,
        final(entry).mime_type == old(entry).mime_type,
        final(entry).title == old(entry).title,
        final(entry).preview_text == old(entry).preview_text,
        final(entry).text_content == old(entry).text_content,
        final(entry).size_bytes == old(entry).size_bytes,
        match old(entry).data {
            NewEntryData::Image { thumb_path, ocr_text, .. } => final(entry).data matches NewEntryData::Image { file_path: Some(p), thumb_path: t, ocr_text: o }
                && p@ == path@ && t == thumb_path && o == ocr_text,
            _ => final(entry).data == old(entry).data,
        },
{
    if let NewEntryData::Image { file_path, .. } = &mut entry.data {
        *file_path = Some(string_of(&chars_of(path)));
    }
}

/// What follows storing an entry.
#[derive(Clone, Debug)]
pub struct AfterStore {
    /// The image file to run OCR on.
    pub ocr_image: Option<String>,
    /// Remove unpinned entries not updated for this many days.
    pub cleanup_days: Option<u32>,
    /// The link domain whose favicon to fetch.
    pub favicon_domain: Option<String>,
}

/// OCR runs on a stored image file when OCR and automatic indexing are on;
/// the clean-up runs when its day count is positive; a link's domain is
/// queued for its favicon when the favicon cache is on.
pub fn after_store(config: &AppConfig, data: &NewEntryData) -> (r: AfterStore)
    ensures
        opt_view(r.ocr_image) == (match *data {
            NewEntryData::Image { file_path: Some(p), .. } => if config.ocr.enabled
                && config.ocr.auto_index {
                Some(p@)
            } else {
                None
            },
            _ => None,
        }),
        r.cleanup_days == (if config.history.cleanup_unpinned_after_days > 0 {
            Some(config.history.cleanup_unpinned_after_days)
        } else {
            None
        }),
        opt_view(r.favicon_domain) == (match *data {
            NewEntryData::Link { domain, .. } => if config.links.favicon_cache {
                Some(domain@)
            } else {
                None
            },
            _ => None,
        }),
{
    let ocr_image = match data {
        NewEntryData::Image { file_path: Some(p), .. } => if config.ocr.enabled
            && config.ocr.auto_index {
            Some(string_of(&chars_of(p.as_str())))
        } else {
            None
        },
        _ => None,
    };
    let days = config.history.cleanup_unpinned_after_days;
    let cleanup_days = if days > 0 {
        Some(days)
    } else {
        None
    };
    let favicon_domain = match data {
        NewEntryData::Link { domain, .. } => if config.links.favicon_cache {
            Some(string_of(&chars_of(domain.as_str())))
        } else {
            None
        },
        _ => None,
    };
    AfterStore { ocr_image, cleanup_days, favicon_domain }
}

/// The FNV-1a offset basis and prime (64-bit).
pub const FNV_OFFSET_BASIS: u64 = 0xcbf2_9ce4_8422_2325;

pub const FNV_PRIME: u64 = 0x0000_0100_0000_01b3;

/// The 64-bit FNV-1a hash of `bytes`: start from the offset basis and, for
/// each byte, xor it in and multiply by the prime (modulo `2^64`).
pub open spec fn fnv1a(bytes: Seq<u8>) -> u64
    decreases bytes.len(),
{
    if bytes.len() == 0 {
        FNV_OFFSET_BASIS
    } else {
        ((((fnv1a(bytes.drop_last()) ^ (bytes.last() as u64)) as int) * (FNV_PRIME as int))
            % 0x1_0000_0000_0000_0000) as u64
    }
}

/// The `k` low hexadecimal digits of `n`, most significant first.
pub open spec fn hex_digits(n: nat, k: nat) -> Seq<char>
    decreases k,
{
    if k == 0 {
        Seq::empty()
    } else {
        hex_digits(n / 16, (k - 1) as nat).push(hex_char(n % 16))
    }
}

fn hex_digit(d: u64) -> (c: char)
    requires
        d < 16,
    ensures
        c == hex_char(d as nat),
{
    if d < 10 {
        ((48u8 + d as u8) as char)
    } else {
        ((87u8 + d as u8) as char)
    }
}

fn hex_fixed(n: u64, k: u32) -> (r: Vec<char>)
    ensures
        r@ == hex_digits(n as nat, k as nat),
    decreases k,
{
    if k == 0 {
        Vec::new()
    } else {
        let mut v = hex_fixed(n / 16, k - 1);
        v.push(hex_digit(n % 16));
        v
    }
}

/// The hash a payload is stored under: its FNV-1a hash as 16 lower-case hex digits.
pub fn content_hash(payload: &[u8]) -> (r: String)
    ensures
        r@ == hex_digits(fnv1a(payload@) as nat, 16),
{
    let mut h: u64 = FNV_OFFSET_BASIS;
    let mut i: usize = 0;
    assert(payload@.take(0) =~= Seq::<u8>::empty());
    while i < payload.len()
        invariant
            i <= payload@.len(),
            h == fnv1a(payload@.take(i as int)),
        decreases payload.len() - i,
    {
        assert(payload@.take(i + 1).drop_last() =~= payload@.take(i as int));
        assert(payload@.take(i + 1).last() == payload@[i as int]);
        h = (h ^ (payload[i] as u64)).wrapping_mul(FNV_PRIME);
        i = i + 1;
    }
    assert(payload@.take(payload@.len() as int) =~= payload@);
    string_of(&hex_fixed(h, 16))
}

/// The file name an image payload is saved under: its hash and the extension
/// of its MIME type.
pub fn image_file_name(hash: &str, mime_type: &str) -> (r: String)
    ensures
        r@ == hash@ + "."@ + mime_extension(mime_type@),
{
    let mut v = chars_of(hash);
    push_all(&mut v, &chars_of("."));
    push_all(&mut v, &chars_of(extension_for_mime(mime_type)));
    string_of(&v)
}

} // verus!
