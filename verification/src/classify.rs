//! Turning a captured clipboard payload into a history entry: files, colours,
//! links and plain text, each with a title and a bounded preview.
use vstd::prelude::*;
use vstd::utf8::{decode_utf8, encode_utf8, valid_utf8};

use crate::colors::{color_of, parse_color, rgb_function_text, rgb_text};
use crate::files::{
    opt_view, crlf_lines, join, normalize_uri_list, parse_uri_list, paths_of, uri_list_preview,
    uri_list_refs, uri_list_title, uri_list_title_text, uris_of,
};
use crate::format::{human_bytes, human_bytes_text};
use crate::links::{detect_single_url, single_url};
use crate::mime::{kind_from_mime, mime_kind};
use crate::models::{EntryKind, NewEntry, NewEntryData};
use crate::text::{
    char_is_whitespace, chars_eq, chars_of, copy_range, find_char, has_prefix, index_of,
    is_white_space, lemma_index_of, lemma_index_of_unique, push_all, str_eq, str_starts_with, string_of, trim,
    trim_chars, trim_end, trim_start,
};

verus! {

/// One step of white-space collapsing: the text so far and whether a space is pending.
pub open spec fn collapse_step(state: (Seq<char>, bool), c: char) -> (Seq<char>, bool) {
    if is_white_space(c) {
        (state.0, state.1 || state.0.len() > 0)
    } else if state.1 {
        (state.0 + seq![' ', c], false)
    } else {
        (state.0.push(c), false)
    }
}

/// The collapsing state after reading all of `s`.
pub open spec fn collapse_state(s: Seq<char>) -> (Seq<char>, bool)
    decreases s.len(),
{
    if s.len() == 0 {
        (Seq::empty(), false)
    } else {
        collapse_step(collapse_state(s.drop_last()), s.last())
    }
}

/// `s` with leading and trailing white space dropped and every inner run of
/// white space replaced by one space.
pub open spec fn collapsed(s: Seq<char>) -> Seq<char> {
    collapse_state(s).0
}

/// The preview of a text: its collapsed form, or when that is longer than 320
/// characters, its first 317 characters followed by `...`.
pub open spec fn preview_of(s: Seq<char>) -> Seq<char> {
    let n = collapsed(s);
    if n.len() <= 320 {
        n
    } else {
        n.take(317) + seq!['.', '.', '.']
    }
}

/// `value` when it has at most `max` characters, otherwise its first `max - 3`
/// (at least zero) characters followed by `...`.
pub open spec fn truncated_text(value: Seq<char>, max: nat) -> Seq<char> {
    if value.len() <= max {
        value
    } else {
        value.take(if max >= 3 {
            max - 3
        } else {
            0
        }) + seq!['.', '.', '.']
    }
}

/// The title of a text: its first line trimmed (`Untitled text` when blank),
/// truncated to 96 characters.
pub open spec fn first_line_title_text(text: Seq<char>) -> Seq<char> {
    let line = trim(text.take(index_of(text, '\n')));
    if line.len() == 0 {
        "Untitled text"@
    } else {
        truncated_text(line, 96)
    }
}

proof fn lemma_collapse_prefix(s: Seq<char>, i: int, j: int)
    requires
        0 <= i <= j <= s.len(),
    ensures
        collapsed(s.take(i)).len() <= collapsed(s.take(j)).len(),
        collapsed(s.take(j)).take(collapsed(s.take(i)).len() as int) == collapsed(s.take(i)),
    decreases j - i,
{
    if i < j {
        lemma_collapse_prefix(s, i, j - 1);
        assert(s.take(j).drop_last() =~= s.take(j - 1));
        let a = collapsed(s.take(i));
        let b = collapsed(s.take(j - 1));
        let c = collapsed(s.take(j));
        assert(c.take(b.len() as int) =~= b);
        assert(c.take(a.len() as int) =~= b.take(a.len() as int));
    } else {
        assert(collapsed(s.take(j)).take(collapsed(s.take(i)).len() as int) =~= collapsed(
            s.take(i),
        ));
    }
}

/// `value` cut to its first 317 characters, followed by `...`.
fn truncated_preview(value: &[char]) -> (r: Vec<char>)
    requires
        value@.len() >= 317,
    ensures
        r@ == value@.take(317) + seq!['.', '.', '.'],
{
    let mut v = copy_range(value, 0, 317);
    v.push('.');
    v.push('.');
    v.push('.');
    assert(v@ =~= value@.take(317) + seq!['.', '.', '.']);
    v
}

/// A one-paragraph preview: white space collapsed to single spaces, and at
/// most 320 characters (longer texts end in `...`).
pub fn preview_text(text: &str) -> (r: String)
    ensures
        r@ == preview_of(text@),
        r@.len() <= 320,
{
    let s = chars_of(text);
    let mut preview: Vec<char> = Vec::new();
    let mut pending: bool = false;
    let mut i: usize = 0;
    while i < s.len()
        invariant
            i <= s@.len(),
            s@ == text@,
            (preview@, pending) == collapse_state(s@.take(i as int)),
            preview@.len() <= 320,
        decreases s.len() - i,
    {
        let c = s[i];
        assert(s@.take(i + 1).drop_last() =~= s@.take(i as int));
        if char_is_whitespace(c) {
            if preview.len() > 0 {
                pending = true;
            }
        } else {
            if pending {
                if preview.len() + 1 > 320 {
                    proof {
                        lemma_collapse_prefix(s@, i + 1, s@.len() as int);
                        assert(s@.take(s@.len() as int) =~= s@);
                        let full = collapsed(s@);
                        let next = collapsed(s@.take(i + 1));
                        assert(next == preview@ + seq![' ', c]);
                        assert(full.take(320) =~= preview@);
                    }
                    return string_of(&truncated_preview(&preview));
                }
                preview.push(' ');
                pending = false;
            }
            if preview.len() + 1 > 320 {
                proof {
                    lemma_collapse_prefix(s@, i + 1, s@.len() as int);
                    assert(s@.take(s@.len() as int) =~= s@);
                    let full = collapsed(s@);
                    let next = collapsed(s@.take(i + 1));
                    assert(next.take(320) =~= preview@);
                    assert(full.take(320) =~= preview@);
                }
                return string_of(&truncated_preview(&preview));
            }
            preview.push(c);
        }
        i = i + 1;
    }
    assert(s@.take(s@.len() as int) =~= s@);
    string_of(&preview)
}

/// `value` unchanged when it has at most `max_chars` characters, otherwise cut
/// to `max_chars - 3` characters followed by `...`.
pub fn truncate(value: &[char], max_chars: usize) -> (r: Vec<char>)
    ensures
        r@ == truncated_text(value@, max_chars as nat),
{
    if value.len() <= max_chars {
        copy_range(value, 0, value.len())
    } else {
        let keep: usize = if max_chars >= 3 {
            max_chars - 3
        } else {
            0
        };
        let mut v = copy_range(value, 0, keep);
        v.push('.');
        v.push('.');
        v.push('.');
        assert(v@ =~= truncated_text(value@, max_chars as nat));
        v
    }
}

proof fn lemma_trim_start_is_suffix(s: Seq<char>)
    ensures
        trim_start(s).len() <= s.len(),
        trim_start(s) == s.skip(s.len() - trim_start(s).len()),
    decreases s.len(),
{
    if s.len() > 0 && is_white_space(s[0]) {
        lemma_trim_start_is_suffix(s.drop_first());
        assert(s.drop_first().skip(s.drop_first().len() - trim_start(s.drop_first()).len())
            =~= s.skip(s.len() - trim_start(s).len()));
    } else {
        assert(s.skip(0) =~= s);
    }
}

proof fn lemma_trim_end_is_prefix(s: Seq<char>)
    ensures
        trim_end(s).len() <= s.len(),
        trim_end(s) == s.take(trim_end(s).len() as int),
    decreases s.len(),
{
    if s.len() > 0 && is_white_space(s.last()) {
        lemma_trim_end_is_prefix(s.drop_last());
        assert(s.drop_last().take(trim_end(s.drop_last()).len() as int) =~= s.take(
            trim_end(s).len() as int,
        ));
    } else {
        assert(s.take(s.len() as int) =~= s);
    }
}

/// A text's title is the title of its first line, and holds no line feed: a
/// title never runs on past the first line break.
pub proof fn lemma_title_is_first_line(first: Seq<char>, rest: Seq<char>, text: Seq<char>)
    requires
        forall|i: int| 0 <= i < first.len() ==> first[i] != '\n',
    ensures
        first_line_title_text(first + seq!['\n'] + rest) == first_line_title_text(first),
        forall|i: int|
            0 <= i < first_line_title_text(text).len() ==> first_line_title_text(text)[i] != '\n',
{
    let whole = first + seq!['\n'] + rest;
    assert forall|j: int| 0 <= j < first.len() implies whole[j] != '\n' by {
        assert(whole[j] == first[j]);
    }
    lemma_index_of_unique(whole, '\n', first.len() as int);
    lemma_index_of_unique(first, '\n', first.len() as int);
    assert(whole.take(first.len() as int) =~= first);
    assert(first.take(first.len() as int) =~= first);
    lemma_index_of(text, '\n');
    let x = text.take(index_of(text, '\n'));
    lemma_trim_start_is_suffix(x);
    let y = trim_start(x);
    lemma_trim_end_is_prefix(y);
    let line = trim(x);
    assert forall|i: int| 0 <= i < line.len() implies line[i] != '\n' by {
        assert(line[i] == y[i]);
        assert(y[i] == x[x.len() - y.len() + i]);
    }
    reveal_strlit("Untitled text");
    let title = first_line_title_text(text);
    assert forall|i: int| 0 <= i < title.len() implies title[i] != '\n' by {
        if line.len() == 0 {
            assert(title == "Untitled text"@);
        } else if line.len() > 96 {
            if i < 93 {
                assert(title[i] == line[i]);
            }
        } else {
            assert(title[i] == line[i]);
        }
    }
}

/// The title of a text entry: its first line, trimmed and truncated to 96 characters.
pub fn first_line_title(text: &str) -> (r: String)
    ensures
        r@ == first_line_title_text(text@),
{
    let s = chars_of(text);
    proof {
        lemma_index_of(s@, '\n');
    }
    let end = find_char(&s, '\n', 0);
    assert(s@.skip(0) =~= s@);
    let line = trim_chars(&copy_range(&s, 0, end));
    assert(s@.subrange(0, end as int) =~= s@.take(end as int));
    if line.len() == 0 {
        string_of(&chars_of("Untitled text"))
    } else {
        string_of(&truncate(&line, 96))
    }
}

} // verus!

verus! {

/// A text entry for `text` captured with MIME type `mime`: a colour, a link, or
/// plain text, recognised on the trimmed text; the content is kept verbatim.
pub open spec fn text_entry(e: NewEntry, mime: Seq<char>, hash: Seq<char>, text: Seq<char>, size: i64) -> bool {
    let t = trim(text);
    &&& e.content_hash@ == hash
    &&& e.mime_type@ == mime
    &&& opt_view(e.text_content) == Some(text)
    &&& e.size_bytes == size
    &&& match color_of(t) {
        Some(c) => {
            &&& e.title@ == c.0
            &&& opt_view(e.preview_text) == Some(c.0 + "  "@ + rgb_function_text(c.2))
            &&& e.data matches NewEntryData::Color { value, format } && value@ == c.0 && format@ == c.1
        },
        None => match single_url(t) {
            Some(l) => {
                &&& e.title@ == l.1
                &&& opt_view(e.preview_text) == Some(l.0)
                &&& e.data matches NewEntryData::Link { url, domain, icon } && url@ == l.0
                    && domain@ == l.1 && icon@ == l.2
            },
            None => {
                &&& e.title@ == first_line_title_text(t)
                &&& opt_view(e.preview_text) == Some(preview_of(t))
                &&& e.data is Text
            },
        },
    }
}

/// The byte length of a text as an `i64`, or `fallback` when it does not fit.
pub open spec fn byte_size(s: Seq<char>, fallback: i64) -> i64 {
    let n = encode_utf8(s).len() as usize;
    if n <= i64::MAX {
        n as i64
    } else {
        fallback
    }
}

/// A file entry for the URI list `text`: stored normalized, titled and previewed
/// from the normalized list.
pub open spec fn uri_list_entry(e: NewEntry, hash: Seq<char>, text: Seq<char>, fallback: i64) -> bool {
    let normalized = crlf_lines(uris_of(uri_list_refs(text)));
    &&& e.content_hash@ == hash
    &&& e.mime_type@ == "text/uri-list"@
    &&& e.title@ == uri_list_title_text(uri_list_refs(normalized))
    &&& opt_view(e.preview_text) == Some(join(paths_of(uri_list_refs(normalized)), "\n"@))
    &&& opt_view(e.text_content) == Some(normalized)
    &&& e.size_bytes == byte_size(normalized, fallback)
    &&& e.data matches NewEntryData::File { source_app } && source_app is None
}

/// `s` without any `\r` at its end.
pub open spec fn strip_trailing_cr(s: Seq<char>) -> Seq<char>
    decreases s.len(),
{
    if s.len() > 0 && s.last() == '\r' {
        strip_trailing_cr(s.drop_last())
    } else {
        s
    }
}

/// A GNOME copied-files payload without its leading `copy` or `cut` line.
pub open spec fn gnome_uri_list(text: Seq<char>) -> Seq<char> {
    let i = index_of(text, '\n');
    if i >= text.len() {
        text
    } else if strip_trailing_cr(text.take(i)) == "copy"@ || strip_trailing_cr(text.take(i)) == "cut"@ {
        text.skip(i + 1)
    } else {
        text
    }
}

/// The title of a binary payload: `Image (size)` for images, else `mime (size)`.
pub open spec fn binary_title(mime: Seq<char>, size: i64) -> Seq<char> {
    if has_prefix(mime, "image/"@) {
        "Image ("@ + human_bytes_text(size as int) + ")"@
    } else {
        mime + " ("@ + human_bytes_text(size as int) + ")"@
    }
}

/// An entry for a payload that is not text: titled by type and size.
pub open spec fn binary_entry(e: NewEntry, mime: Seq<char>, hash: Seq<char>, size: i64) -> bool {
    &&& e.content_hash@ == hash
    &&& e.mime_type@ == mime
    &&& e.title@ == binary_title(mime, size)
    &&& e.preview_text is None
    &&& e.text_content is None
    &&& e.size_bytes == size
    &&& match mime_kind(mime) {
        EntryKind::Image => e.data matches NewEntryData::Image { file_path, thumb_path, ocr_text }
            && file_path is None && thumb_path is None && ocr_text is None,
        EntryKind::File => e.data matches NewEntryData::File { source_app } && source_app is None,
        _ => e.data is Text,
    }
}

/// The text `String::from_utf8_lossy` makes of bytes that are not valid UTF-8.
pub uninterp spec fn lossy_utf8(bytes: Seq<u8>) -> Seq<char>;

/// The text `String::from_utf8_lossy` makes of some bytes: the decoded text
/// when they are valid UTF-8.
pub open spec fn lossy_text(bytes: Seq<u8>) -> Seq<char> {
    if valid_utf8(bytes) {
        decode_utf8(bytes)
    } else {
        lossy_utf8(bytes)
    }
}

/// Decodes bytes with `String::from_utf8_lossy` (invalid sequences become U+FFFD).
/// The contract states that valid UTF-8 is decoded as it stands (the
/// function's documentation) and only names the result otherwise.
#[verifier::external_body]
pub(crate) fn utf8_lossy(bytes: &[u8]) -> (r: String)
    ensures
        r@ == (if valid_utf8(bytes@) {
            decode_utf8(bytes@)
        } else {
            lossy_utf8(bytes@)
        }),
{
    String::from_utf8_lossy(bytes).into_owned()
}

/// The number of bytes of a payload as an `i64` (saturating).
pub open spec fn payload_size(payload: Seq<u8>) -> i64 {
    if payload.len() <= i64::MAX {
        payload.len() as i64
    } else {
        i64::MAX
    }
}

/// The entry a payload of type `mime` becomes.
pub open spec fn payload_entry(e: NewEntry, mime: Seq<char>, hash: Seq<char>, payload: Seq<u8>) -> bool {
    let size = payload_size(payload);
    let text = lossy_text(payload);
    if mime == "text/uri-list"@ {
        if uri_list_refs(text).len() > 0 {
            uri_list_entry(e, hash, text, size)
        } else {
            text_entry(e, mime, hash, text, size)
        }
    } else if mime == "x-special/gnome-copied-files"@ {
        let list = gnome_uri_list(text);
        if uri_list_refs(list).len() > 0 {
            uri_list_entry(e, hash, list, byte_size(text, i64::MAX))
        } else {
            text_entry(e, mime, hash, text, size)
        }
    } else if has_prefix(mime, "text/"@) {
        text_entry(e, mime, hash, text, size)
    } else {
        binary_entry(e, mime, hash, size)
    }
}

fn byte_len_i64(s: &str, fallback: i64) -> (r: i64)
    ensures
        r == byte_size(s@, fallback),
{
    let n = s.len();
    if (n as u64) <= (i64::MAX as u64) {
        n as i64
    } else {
        fallback
    }
}

/// Classifies text content: a colour, a single web link, or plain text.
pub fn classify_text(mime_type: &str, content_hash: String, text: String, size_bytes: i64) -> (r: NewEntry)
    ensures
        text_entry(r, mime_type@, content_hash@, text@, size_bytes),
{
    let trimmed = string_of(&trim_chars(&chars_of(text.as_str())));
    if let Some(color) = parse_color(trimmed.as_str()) {
        let mut preview = chars_of(color.normalized_hex.as_str());
        push_all(&mut preview, &chars_of("  "));
        push_all(&mut preview, &chars_of(rgb_text(color.rgb).as_str()));
        let title = string_of(&chars_of(color.normalized_hex.as_str()));
        let mut entry = NewEntry::new(content_hash, string_of(&chars_of(mime_type)), title);
        entry.preview_text = Some(string_of(&preview));
        entry.text_content = Some(text);
        entry.size_bytes = size_bytes;
        entry.data = NewEntryData::Color {
            value: color.normalized_hex,
            format: color.original_format,
        };
        return entry;
    }
    if let Some(link) = detect_single_url(trimmed.as_str()) {
        let title = string_of(&chars_of(link.domain.as_str()));
        let preview = string_of(&chars_of(link.url.as_str()));
        let mut entry = NewEntry::new(content_hash, string_of(&chars_of(mime_type)), title);
        entry.preview_text = Some(preview);
        entry.text_content = Some(text);
        entry.size_bytes = size_bytes;
        entry.data = NewEntryData::Link { url: link.url, domain: link.domain, icon: link.icon };
        return entry;
    }
    let mut entry = NewEntry::new(
        content_hash,
        string_of(&chars_of(mime_type)),
        first_line_title(trimmed.as_str()),
    );
    entry.preview_text = Some(preview_text(trimmed.as_str()));
    entry.text_content = Some(text);
    entry.size_bytes = size_bytes;
    entry
}

fn classify_uri_list(content_hash: String, text: &str, fallback_size_bytes: i64) -> (r: Option<NewEntry>)
    ensures
        match r {
            Some(e) => uri_list_refs(text@).len() > 0 && uri_list_entry(
                e,
                content_hash@,
                text@,
                fallback_size_bytes,
            ),
            None => uri_list_refs(text@).len() == 0,
        },
{
    let files = parse_uri_list(text);
    assert(crate::files::refs_view(files@).len() == files@.len());
    if files.len() == 0 {
        return None;
    }
    let normalized = normalize_uri_list(text);
    let mut entry = NewEntry::new(
        content_hash,
        string_of(&chars_of("text/uri-list")),
        uri_list_title(normalized.as_str()),
    );
    entry.preview_text = Some(uri_list_preview(normalized.as_str()));
    entry.size_bytes = byte_len_i64(normalized.as_str(), fallback_size_bytes);
    entry.text_content = Some(normalized);
    entry.data = NewEntryData::File { source_app: None };
    Some(entry)
}

/// A GNOME copied-files payload without its leading `copy`/`cut` action line.
fn strip_gnome_copy_action(text: &str) -> (r: String)
    ensures
        r@ == gnome_uri_list(text@),
{
    let s = chars_of(text);
    proof {
        lemma_index_of(s@, '\n');
    }
    let i = find_char(&s, '\n', 0);
    assert(s@.skip(0) =~= s@);
    if i >= s.len() {
        return string_of(&s);
    }
    let mut end = i;
    while end > 0 && s[end - 1] == '\r'
        invariant
            end <= i < s@.len(),
            strip_trailing_cr(s@.take(i as int)) == strip_trailing_cr(s@.take(end as int)),
        decreases end,
    {
        assert(s@.take(end as int).drop_last() =~= s@.take(end - 1));
        end = end - 1;
    }
    let first = copy_range(&s, 0, end);
    assert(first@ =~= s@.take(end as int));
    assert(strip_trailing_cr(first@) == first@);
    if chars_eq(&first, &chars_of("copy")) || chars_eq(&first, &chars_of("cut")) {
        let rest = copy_range(&s, i + 1, s.len());
        assert(rest@ =~= s@.skip(i + 1));
        string_of(&rest)
    } else {
        string_of(&s)
    }
}

fn classify_gnome_copied_files(content_hash: String, text: &str) -> (r: Option<NewEntry>)
    ensures
        match r {
            Some(e) => uri_list_refs(gnome_uri_list(text@)).len() > 0 && uri_list_entry(
                e,
                content_hash@,
                gnome_uri_list(text@),
                byte_size(text@, i64::MAX),
            ),
            None => uri_list_refs(gnome_uri_list(text@)).len() == 0,
        },
{
    let list = strip_gnome_copy_action(text);
    classify_uri_list(content_hash, list.as_str(), byte_len_i64(text, i64::MAX))
}

/// `Image (size)` for images, otherwise `mime (size)`.
fn title_for_binary(mime_type: &str, size_bytes: i64) -> (r: String)
    ensures
        r@ == binary_title(mime_type@, size_bytes),
{
    let mut v = if str_starts_with(mime_type, "image/") {
        chars_of("Image (")
    } else {
        let mut v = chars_of(mime_type);
        push_all(&mut v, &chars_of(" ("));
        v
    };
    push_all(&mut v, &chars_of(human_bytes(size_bytes).as_str()));
    push_all(&mut v, &chars_of(")"));
    string_of(&v)
}

/// Classifies a captured payload: URI lists (and GNOME copied-files payloads)
/// become file entries, other text is classified as text, and anything else is
/// recorded by type and size.
pub fn classify_payload(mime_type: &str, content_hash: String, payload: &[u8]) -> (r: NewEntry)
    ensures
        payload_entry(r, mime_type@, content_hash@, payload@),
{
    let size_bytes: i64 = if (payload.len() as u64) <= (i64::MAX as u64) {
        payload.len() as i64
    } else {
        i64::MAX
    };
    if str_eq(mime_type, "text/uri-list") {
        let text = utf8_lossy(payload);
        let hash_copy = string_of(&chars_of(content_hash.as_str()));
        return match classify_uri_list(hash_copy, text.as_str(), size_bytes) {
            Some(entry) => entry,
            None => classify_text(mime_type, content_hash, text, size_bytes),
        };
    }
    if str_eq(mime_type, "x-special/gnome-copied-files") {
        let text = utf8_lossy(payload);
        let hash_copy = string_of(&chars_of(content_hash.as_str()));
        return match classify_gnome_copied_files(hash_copy, text.as_str()) {
            Some(entry) => entry,
            None => classify_text(mime_type, content_hash, text, size_bytes),
        };
    }
    if str_starts_with(mime_type, "text/") {
        let text = utf8_lossy(payload);
        return classify_text(mime_type, content_hash, text, size_bytes);
    }
    let kind = kind_from_mime(mime_type);
    let data = match kind {
        EntryKind::Image => NewEntryData::Image { file_path: None, thumb_path: None, ocr_text: None },
        EntryKind::File => NewEntryData::File { source_app: None },
        _ => NewEntryData::default(),
    };
    let mut entry = NewEntry::new(
        content_hash,
        string_of(&chars_of(mime_type)),
        title_for_binary(mime_type, size_bytes),
    );
    entry.size_bytes = size_bytes;
    entry.data = data;
    entry
}

} // verus!
