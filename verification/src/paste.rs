//! Putting an entry back on the clipboard: what is written with which MIME
//! type, which paste method is used, and the options of the paste command.
//!
//! Writing the clipboard and sending the paste keystroke are done by the
//! program with the external `wl-copy` and `wtype` tools.
use vstd::prelude::*;

use crate::files::opt_view;
use crate::models::{opt_string_view, ClipboardEntry, EntryData};
use crate::text::{
    all_digits, chars_eq, chars_of, digits_value, is_digit, push_all, string_of, trim, trim_chars,
};

verus! {

/// What copying an entry writes to the clipboard.
#[derive(Clone, Debug)]
pub enum ClipboardPayload {
    /// The bytes of the file at `path` (an image), with the entry's MIME type.
    FileContents { path: String, mime_type: String },
    /// Text, with the given MIME type.
    Text { mime_type: String, text: String },
}

/// The content of a `ClipboardPayload`.
pub enum PayloadModel {
    FileContents { path: Seq<char>, mime_type: Seq<char> },
    Text { mime_type: Seq<char>, text: Seq<char> },
}

impl View for ClipboardPayload {
    type V = PayloadModel;

    open spec fn view(&self) -> PayloadModel {
        match self {
            ClipboardPayload::FileContents { path, mime_type } => PayloadModel::FileContents {
                path: path@,
                mime_type: mime_type@,
            },
            ClipboardPayload::Text { mime_type, text } => PayloadModel::Text {
                mime_type: mime_type@,
                text: text@,
            },
        }
    }
}

/// Why an entry cannot be copied or pasted.
#[derive(Clone, Debug, PartialEq, Eq)]
pub enum PasteError {
    /// A file entry without its URI list.
    NoUriList,
    /// Any other entry without text or preview.
    NoTextContent,
    /// The configured paste method is blank.
    EmptyMethod,
    /// The configured paste method (trimmed) is not supported.
    UnsupportedMethod { method: String },
}

/// The content of a `PasteError`.
pub enum PasteErrorModel {
    NoUriList,
    NoTextContent,
    EmptyMethod,
    UnsupportedMethod(Seq<char>),
}

impl View for PasteError {
    type V = PasteErrorModel;

    open spec fn view(&self) -> PasteErrorModel {
        match self {
            PasteError::NoUriList => PasteErrorModel::NoUriList,
            PasteError::NoTextContent => PasteErrorModel::NoTextContent,
            PasteError::EmptyMethod => PasteErrorModel::EmptyMethod,
            PasteError::UnsupportedMethod { method } => PasteErrorModel::UnsupportedMethod(method@),
        }
    }
}

/// The message a paste error is reported with.
pub open spec fn paste_error_message(e: PasteErrorModel) -> Seq<char> {
    match e {
        PasteErrorModel::NoUriList => "file entry has no URI-list content"@,
        PasteErrorModel::NoTextContent => "entry has no text content"@,
        PasteErrorModel::EmptyMethod => "paste method is empty"@,
        PasteErrorModel::UnsupportedMethod(m) => "unsupported paste method '"@ + m
            + "'; supported method: wtype"@,
    }
}

impl PasteError {
    /// The message this error is reported with.
    pub fn message(&self) -> (r: String)
        ensures
            r@ == paste_error_message(self@),
    {
        match self {
            PasteError::NoUriList => string_of(&chars_of("file entry has no URI-list content")),
            PasteError::NoTextContent => string_of(&chars_of("entry has no text content")),
            PasteError::EmptyMethod => string_of(&chars_of("paste method is empty")),
            PasteError::UnsupportedMethod { method } => {
                let mut v = chars_of("unsupported paste method '");
                push_all(&mut v, &chars_of(method.as_str()));
                push_all(&mut v, &chars_of("'; supported method: wtype"));
                string_of(&v)
            },
        }
    }
}

/// What copying an entry writes: an image's file with the entry's MIME type,
/// a file list's URI list as `text/uri-list`, and otherwise the entry's text
/// (or, without it, its preview) as `text/plain`.
pub open spec fn payload_for(entry: ClipboardEntry) -> Result<PayloadModel, PasteErrorModel> {
    match entry.data {
        EntryData::Image { file_path, .. } => Ok(
            PayloadModel::FileContents { path: file_path@, mime_type: entry.mime_type@ },
        ),
        EntryData::File { .. } => match opt_string_view(entry.text_content) {
            Some(t) => Ok(PayloadModel::Text { mime_type: "text/uri-list"@, text: t }),
            None => Err(PasteErrorModel::NoUriList),
        },
        _ => match opt_string_view(entry.text_content) {
            Some(t) => Ok(PayloadModel::Text { mime_type: "text/plain"@, text: t }),
            None => match opt_string_view(entry.preview_text) {
                Some(t) => Ok(PayloadModel::Text { mime_type: "text/plain"@, text: t }),
                None => Err(PasteErrorModel::NoTextContent),
            },
        },
    }
}

fn copy_str(s: &str) -> (r: String)
    ensures
        r@ == s@,
{
    string_of(&chars_of(s))
}

/// An entry that is neither an image nor a file list is put back as the
/// plain text it stored, whatever its kind (text, link, colour, ...): its
/// text content, or its preview only when it has none; two such entries with
/// the same texts give the same payload.
pub proof fn lemma_text_entries_paste_their_text(entry: ClipboardEntry, other: ClipboardEntry)
    requires
        !(entry.data is Image),
        !(entry.data is File),
    ensures
        entry.text_content matches Some(t) ==> payload_for(entry) == Ok::<
            PayloadModel,
            PasteErrorModel,
        >(PayloadModel::Text { mime_type: "text/plain"@, text: t@ }),
        entry.text_content is None ==> (entry.preview_text matches Some(p) ==> payload_for(entry)
            == Ok::<PayloadModel, PasteErrorModel>(
            PayloadModel::Text { mime_type: "text/plain"@, text: p@ },
        )),
        entry.text_content is None && entry.preview_text is None ==> payload_for(entry) == Err::<
            PayloadModel,
            PasteErrorModel,
        >(PasteErrorModel::NoTextContent),
        !(other.data is Image) && !(other.data is File) && opt_string_view(other.text_content)
            == opt_string_view(entry.text_content) && opt_string_view(other.preview_text)
            == opt_string_view(entry.preview_text) ==> payload_for(other) == payload_for(entry),
{
}

/// What copying `entry` writes to the clipboard.
pub fn clipboard_payload(entry: &ClipboardEntry) -> (r: Result<ClipboardPayload, PasteError>)
    ensures
        match r {
            Ok(p) => payload_for(*entry) == Ok::<PayloadModel, PasteErrorModel>(p@),
            Err(e) => payload_for(*entry) == Err::<PayloadModel, PasteErrorModel>(e@),
        },
{
    match &entry.data {
        EntryData::Image { file_path, .. } => Ok(
            ClipboardPayload::FileContents {
                path: copy_str(file_path.as_str()),
                mime_type: copy_str(entry.mime_type.as_str()),
            },
        ),
        EntryData::File { .. } => match &entry.text_content {
            Some(t) => Ok(
                ClipboardPayload::Text {
                    mime_type: copy_str("text/uri-list"),
                    text: copy_str(t.as_str()),
                },
            ),
            None => Err(PasteError::NoUriList),
        },
        _ => {
            let text = match &entry.text_content {
                Some(t) => Some(t),
                None => match &entry.preview_text {
                    Some(p) => Some(p),
                    None => None,
                },
            };
            match text {
                Some(t) => Ok(
                    ClipboardPayload::Text {
                        mime_type: copy_str("text/plain"),
                        text: copy_str(t.as_str()),
                    },
                ),
                None => Err(PasteError::NoTextContent),
            }
        },
    }
}

/// The supported ways of sending the paste keystroke.
#[derive(Clone, Copy, Debug, PartialEq, Eq, Structural)]
pub enum PasteMethod {
    /// `wtype -M ctrl v -m ctrl`.
    Wtype,
}

/// The paste method a configured name selects (trimmed): `wtype`, or an error
/// for a blank or any other name.
pub open spec fn method_named(method: Seq<char>) -> Result<PasteMethod, PasteErrorModel> {
    let m = trim(method);
    if m == "wtype"@ {
        Ok(PasteMethod::Wtype)
    } else if m.len() == 0 {
        Err(PasteErrorModel::EmptyMethod)
    } else {
        Err(PasteErrorModel::UnsupportedMethod(m))
    }
}

/// The paste method a configured name selects.
pub fn paste_method(method: &str) -> (r: Result<PasteMethod, PasteError>)
    ensures
        match r {
            Ok(m) => method_named(method@) == Ok::<PasteMethod, PasteErrorModel>(m),
            Err(e) => method_named(method@) == Err::<PasteMethod, PasteErrorModel>(e@),
        },
{
    let m = trim_chars(&chars_of(method));
    if chars_eq(&m, &chars_of("wtype")) {
        Ok(PasteMethod::Wtype)
    } else if m.len() == 0 {
        Err(PasteError::EmptyMethod)
    } else {
        Err(PasteError::UnsupportedMethod { method: string_of(&m) })
    }
}

/// The arguments `wtype` is run with to press Ctrl+V.
pub fn wtype_paste_args() -> (r: Vec<&'static str>)
    ensures
        r@.len() == 5,
        r@[0]@ == "-M"@,
        r@[1]@ == "ctrl"@,
        r@[2]@ == "v"@,
        r@[3]@ == "-m"@,
        r@[4]@ == "ctrl"@,
{
    vec!["-M", "ctrl", "v", "-m", "ctrl"]
}

/// `s` without one leading `+`.
pub open spec fn without_plus(s: Seq<char>) -> Seq<char> {
    if s.len() > 0 && s[0] == '+' {
        s.skip(1)
    } else {
        s
    }
}

/// The text of an unsigned decimal as `str::parse::<u64>` reads it: an
/// optional `+`, then one or more digits.
pub open spec fn unsigned_digits(s: Seq<char>) -> Option<Seq<char>> {
    let d = without_plus(s);
    if d.len() > 0 && all_digits(d) {
        Some(d)
    } else {
        None
    }
}

/// What `str::parse::<u64>` gives: the value of the digits when it fits.
pub open spec fn parsed_u64(s: Seq<char>) -> Option<u64> {
    match unsigned_digits(s) {
        Some(d) => if digits_value(d) <= u64::MAX {
            Some(digits_value(d) as u64)
        } else {
            None
        },
        None => None,
    }
}

/// Reads an unsigned 64-bit decimal, as `str::parse::<u64>` does.
pub fn parse_u64(s: &str) -> (r: Option<u64>)
    ensures
        r == parsed_u64(s@),
{
    let v = chars_of(s);
    let start: usize = if v.len() > 0 && v[0] == '+' {
        1
    } else {
        0
    };
    let ghost d = v@.skip(start as int);
    assert(d =~= (if v@.len() > 0 && v@[0] == '+' {
        v@.skip(1)
    } else {
        v@
    }));
    if start == v.len() {
        return None;
    }
    let mut value: u64 = 0;
    let mut i: usize = start;
    assert(d.take(0) =~= Seq::<char>::empty());
    while i < v.len()
        invariant
            start <= i <= v@.len(),
            d == v@.skip(start as int),
            v@ == s@,
            d.len() > 0,
            d == without_plus(s@),
            forall|j: int| 0 <= j < i - start ==> is_digit(#[trigger] d[j]),
            value as nat == digits_value(d.take(i - start)),
        decreases v.len() - i,
    {
        let c = v[i];
        if !('0' <= c && c <= '9') {
            assert(!is_digit(d[i - start]));
            return None;
        }
        let ghost before = d.take(i - start);
        let ghost after = d.take(i - start + 1);
        assert(after.drop_last() =~= before);
        assert(after.last() == c);
        let digit = ((c as u32) - 48) as u64;
        if value > (u64::MAX - digit) / 10 {
            proof {
                if all_digits(d) {
                    lemma_digits_value_prefix_monotone(d, i - start + 1);
                    assert(value * 10 + digit > u64::MAX) by (nonlinear_arith)
                        requires
                            value > (u64::MAX - digit) / 10,
                            digit <= 9,
                    ;
                }
            }
            return None;
        }
        value = value * 10 + digit;
        i = i + 1;
    }
    assert(d.take(d.len() as int) =~= d);
    Some(value)
}

/// A longer prefix of a digit string denotes at least as much.
proof fn lemma_digits_value_prefix_monotone(d: Seq<char>, k: int)
    requires
        0 <= k <= d.len(),
        all_digits(d),
    ensures
        digits_value(d.take(k)) <= digits_value(d),
    decreases d.len() - k,
{
    if k < d.len() {
        lemma_digits_value_prefix_monotone(d, k + 1);
        assert(d.take(k + 1).drop_last() =~= d.take(k));
    } else {
        assert(d.take(k) =~= d);
    }
}

/// How the paste command pastes: automatically unless the configuration
/// turns it off or `--copy-only` is given, after the `--delay-ms` value when
/// it reads as a number and the configured delay otherwise.
pub fn paste_options(config_auto_paste: bool, copy_only: bool, delay_arg: Option<&str>, config_delay_ms: u64) -> (r: (bool, u64))
    ensures
        r.0 == (config_auto_paste && !copy_only),
        r.1 == (match delay_arg {
            Some(d) => match parsed_u64(d@) {
                Some(v) => v,
                None => config_delay_ms,
            },
            None => config_delay_ms,
        }),
{
    let delay = match delay_arg {
        Some(d) => match parse_u64(d) {
            Some(v) => v,
            None => config_delay_ms,
        },
        None => config_delay_ms,
    };
    (config_auto_paste && !copy_only, delay)
}

} // verus!
