//! The clipboard entry types shared by classification, storage and display.
use vstd::prelude::*;

use crate::text::{chars_eq, chars_of};

verus! {

/// The coarse classification of a clipboard entry.
#[derive(Clone, Copy, Debug, PartialEq, Eq, Structural)]
pub enum EntryKind {
    Text,
    Image,
    Link,
    Color,
    File,
    Unknown,
}

/// The name under which a kind is stored.
pub open spec fn kind_name(kind: EntryKind) -> Seq<char> {
    match kind {
        EntryKind::Text => "text"@,
        EntryKind::Image => "image"@,
        EntryKind::Link => "link"@,
        EntryKind::Color => "color"@,
        EntryKind::File => "file"@,
        EntryKind::Unknown => "unknown"@,
    }
}

/// The kind stored under `name`; names no kind is stored under read as `Unknown`.
pub open spec fn kind_named(name: Seq<char>) -> EntryKind {
    if name == "text"@ {
        EntryKind::Text
    } else if name == "image"@ {
        EntryKind::Image
    } else if name == "link"@ {
        EntryKind::Link
    } else if name == "color"@ {
        EntryKind::Color
    } else if name == "file"@ {
        EntryKind::File
    } else {
        EntryKind::Unknown
    }
}

/// Reading a stored kind name gives back the kind that was stored.
pub proof fn lemma_kind_name_round_trip(kind: EntryKind)
    ensures
        kind_named(kind_name(kind)) == kind,
{
    reveal_strlit("text");
    reveal_strlit("image");
    reveal_strlit("link");
    reveal_strlit("color");
    reveal_strlit("file");
    reveal_strlit("unknown");
    assert("text"@[0] == 't' && "image"@[0] == 'i' && "link"@[0] == 'l');
    assert("color"@[0] == 'c' && "file"@[0] == 'f' && "unknown"@[0] == 'u');
}

impl EntryKind {
    /// The kind stored under `name` (`Unknown` for any other name).
    pub fn from_name(name: &str) -> (r: EntryKind)
        ensures
            r == kind_named(name@),
    {
        let v = chars_of(name);
        if chars_eq(&v, &chars_of("text")) {
            EntryKind::Text
        } else if chars_eq(&v, &chars_of("image")) {
            EntryKind::Image
        } else if chars_eq(&v, &chars_of("link")) {
            EntryKind::Link
        } else if chars_eq(&v, &chars_of("color")) {
            EntryKind::Color
        } else if chars_eq(&v, &chars_of("file")) {
            EntryKind::File
        } else {
            EntryKind::Unknown
        }
    }

    /// The name under which this kind is stored.
    pub fn as_str(&self) -> (r: &'static str)
        ensures
            r@ == kind_name(*self),
    {
        match self {
            EntryKind::Text => "text",
            EntryKind::Image => "image",
            EntryKind::Link => "link",
            EntryKind::Color => "color",
            EntryKind::File => "file",
            EntryKind::Unknown => "unknown",
        }
    }
}

/// Kind-specific data of an entry about to be stored.
#[derive(Clone, Debug)]
pub enum NewEntryData {
    Text,
    Image { file_path: Option<String>, thumb_path: Option<String>, ocr_text: Option<String> },
    Link { url: String, domain: String, icon: String },
    Color { value: String, format: String },
    File { source_app: Option<String> },
    Unknown,
}

/// The kind that entry data belongs to.
pub open spec fn new_data_kind(data: NewEntryData) -> EntryKind {
    match data {
        NewEntryData::Text => EntryKind::Text,
        NewEntryData::Image { .. } => EntryKind::Image,
        NewEntryData::Link { .. } => EntryKind::Link,
        NewEntryData::Color { .. } => EntryKind::Color,
        NewEntryData::File { .. } => EntryKind::File,
        NewEntryData::Unknown => EntryKind::Unknown,
    }
}

impl NewEntryData {
    /// The kind this data belongs to.
    pub fn kind(&self) -> (r: EntryKind)
        ensures
            r == new_data_kind(*self),
    {
        match self {
            NewEntryData::Text => EntryKind::Text,
            NewEntryData::Image { .. } => EntryKind::Image,
            NewEntryData::Link { .. } => EntryKind::Link,
            NewEntryData::Color { .. } => EntryKind::Color,
            NewEntryData::File { .. } => EntryKind::File,
            NewEntryData::Unknown => EntryKind::Unknown,
        }
    }
}

impl Default for NewEntryData {
    fn default() -> (r: NewEntryData)
        ensures
            r is Text,
    {
        NewEntryData::Text
    }
}

/// An entry about to be stored in the history.
#[derive(Clone, Debug)]
pub struct NewEntry {
    pub content_hash: String,
    pub mime_type: String,
    pub title: String,
    pub preview_text: Option<String>,
    pub text_content: Option<String>,
    pub size_bytes: i64,
    pub data: NewEntryData,
}

impl NewEntry {
    /// A text entry with the given hash, MIME type and title, no preview or
    /// content, and size zero.
    pub fn new(content_hash: String, mime_type: String, title: String) -> (r: NewEntry)
        ensures
            r.content_hash == content_hash,
            r.mime_type == mime_type,
            r.title == title,
            r.preview_text is None,
            r.text_content is None,
            r.size_bytes == 0,
            r.data is Text,
    {
        NewEntry {
            content_hash,
            mime_type,
            title,
            preview_text: None,
            text_content: None,
            size_bytes: 0,
            data: NewEntryData::Text,
        }
    }
}

/// Kind-specific data of a stored entry.
#[derive(Clone, Debug)]
pub enum EntryData {
    Text,
    Image { file_path: String, thumb_path: Option<String>, ocr_text: Option<String> },
    Link { url: String, domain: String, icon: String },
    Color { value: String, format: String },
    File { source_app: Option<String> },
    Unknown,
}

/// The content of stored entry data.
pub enum EntryDataModel {
    Text,
    Image { file_path: Seq<char>, thumb_path: Option<Seq<char>>, ocr_text: Option<Seq<char>> },
    Link { url: Seq<char>, domain: Seq<char>, icon: Seq<char> },
    Color { value: Seq<char>, format: Seq<char> },
    File { source_app: Option<Seq<char>> },
    Unknown,
}

/// The view of an optional string.
pub open spec fn opt_string_view(o: Option<String>) -> Option<Seq<char>> {
    match o {
        Some(s) => Some(s@),
        None => None,
    }
}

impl View for EntryData {
    type V = EntryDataModel;

    open spec fn view(&self) -> EntryDataModel {
        match self {
            EntryData::Text => EntryDataModel::Text,
            EntryData::Image { file_path, thumb_path, ocr_text } => EntryDataModel::Image {
                file_path: file_path@,
                thumb_path: opt_string_view(*thumb_path),
                ocr_text: opt_string_view(*ocr_text),
            },
            EntryData::Link { url, domain, icon } => EntryDataModel::Link {
                url: url@,
                domain: domain@,
                icon: icon@,
            },
            EntryData::Color { value, format } => EntryDataModel::Color {
                value: value@,
                format: format@,
            },
            EntryData::File { source_app } => EntryDataModel::File {
                source_app: opt_string_view(*source_app),
            },
            EntryData::Unknown => EntryDataModel::Unknown,
        }
    }
}

/// A stored history entry.
#[derive(Clone, Debug)]
pub struct ClipboardEntry {
    pub id: i64,
    pub content_hash: String,
    pub kind: EntryKind,
    pub mime_type: String,
    pub title: String,
    pub preview_text: Option<String>,
    pub text_content: Option<String>,
    pub data: EntryData,
    pub pinned: bool,
    pub copied_at: i64,
    pub updated_at: i64,
    pub last_used_at: Option<i64>,
    pub use_count: i64,
    pub size_bytes: i64,
}

/// Which entries a history listing shows.
#[derive(Clone, Copy, Debug, PartialEq, Eq, Structural)]
pub enum EntryFilter {
    All,
    Text,
    Images,
    Files,
    Links,
    Colors,
    Pinned,
}

/// The filter a configuration or command-line name selects; unknown names select `All`.
pub open spec fn filter_named(name: Seq<char>) -> EntryFilter {
    if name == "text"@ {
        EntryFilter::Text
    } else if name == "images"@ {
        EntryFilter::Images
    } else if name == "files"@ {
        EntryFilter::Files
    } else if name == "links"@ {
        EntryFilter::Links
    } else if name == "colors"@ {
        EntryFilter::Colors
    } else if name == "pinned"@ {
        EntryFilter::Pinned
    } else {
        EntryFilter::All
    }
}

impl EntryFilter {
    /// The filter named `value` (`all`, `text`, `images`, `files`, `links`,
    /// `colors`, `pinned`); any other name selects `All`.
    pub fn parse(value: &str) -> (r: EntryFilter)
        ensures
            r == filter_named(value@),
    {
        let v = chars_of(value);
        if chars_eq(&v, &chars_of("text")) {
            EntryFilter::Text
        } else if chars_eq(&v, &chars_of("images")) {
            EntryFilter::Images
        } else if chars_eq(&v, &chars_of("files")) {
            EntryFilter::Files
        } else if chars_eq(&v, &chars_of("links")) {
            EntryFilter::Links
        } else if chars_eq(&v, &chars_of("colors")) {
            EntryFilter::Colors
        } else if chars_eq(&v, &chars_of("pinned")) {
            EntryFilter::Pinned
        } else {
            EntryFilter::All
        }
    }
}

/// The order of a history listing.
#[derive(Clone, Copy, Debug, PartialEq, Eq, Structural)]
pub enum SortMode {
    Default,
    Recent,
    Oldest,
    Type,
    MostUsed,
}

/// The order a configuration or command-line name selects; unknown names select `Default`.
pub open spec fn sort_named(name: Seq<char>) -> SortMode {
    if name == "recent"@ || name == "newest"@ {
        SortMode::Recent
    } else if name == "oldest"@ {
        SortMode::Oldest
    } else if name == "type"@ {
        SortMode::Type
    } else if name == "most-used"@ {
        SortMode::MostUsed
    } else {
        SortMode::Default
    }
}

impl SortMode {
    /// The order named `value` (`default`, `recent` or `newest`, `oldest`,
    /// `type`, `most-used`); any other name selects `Default`.
    pub fn parse(value: &str) -> (r: SortMode)
        ensures
            r == sort_named(value@),
    {
        let v = chars_of(value);
        if chars_eq(&v, &chars_of("recent")) || chars_eq(&v, &chars_of("newest")) {
            SortMode::Recent
        } else if chars_eq(&v, &chars_of("oldest")) {
            SortMode::Oldest
        } else if chars_eq(&v, &chars_of("type")) {
            SortMode::Type
        } else if chars_eq(&v, &chars_of("most-used")) {
            SortMode::MostUsed
        } else {
            SortMode::Default
        }
    }
}

/// A saved secret.
#[derive(Clone, Debug)]
pub struct SecretEntry {
    pub id: i64,
    pub source_entry_id: Option<i64>,
    pub alias: String,
    pub value: String,
    pub created_at: i64,
    pub updated_at: i64,
    pub last_used_at: Option<i64>,
    pub use_count: i64,
}

} // verus!
