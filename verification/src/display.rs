//! How an entry is described in the history list: the icon and label of its
//! kind, the line under its title, and the letter shown for a link whose
//! favicon is not cached.
use vstd::prelude::*;

use crate::files::{count_absent, parse_uri_list, path_exists, refs_view, uri_list_refs};
use crate::format::{relative_since, relative_time, u128_decimal};
use crate::models::{opt_string_view, ClipboardEntry, EntryData, EntryKind};
use crate::text::{chars_of, decimal_text, push_all, string_of};

verus! {

/// The tooltip of a link's icon: its domain, or `Link` without one.
pub fn domain_tooltip(domain: &str) -> (r: &str)
    ensures
        r@ == (if domain@.len() == 0 {
            "Link"@
        } else {
            domain@
        }),
{
    if domain.unicode_len() == 0 {
        "Link"
    } else {
        domain
    }
}

/// Whether `c` is an ASCII letter or digit.
pub open spec fn is_ascii_alphanumeric(c: char) -> bool {
    ('0' <= c && c <= '9') || ('a' <= c && c <= 'z') || ('A' <= c && c <= 'Z')
}

/// The first ASCII letter or digit of `s`.
pub open spec fn first_alphanumeric(s: Seq<char>) -> Option<char>
    decreases s.len(),
{
    if s.len() == 0 {
        None
    } else if is_ascii_alphanumeric(s[0]) {
        Some(s[0])
    } else {
        first_alphanumeric(s.drop_first())
    }
}

/// `c` in upper case when it is an ASCII lower-case letter.
pub open spec fn ascii_upper(c: char) -> char {
    if 'a' <= c && c <= 'z' {
        ((c as u32) - 32) as char
    } else {
        c
    }
}

/// The letter shown for a link without a cached favicon: the domain's first
/// ASCII letter or digit, upper-cased, or `?` when it has none.
pub open spec fn initial_text(domain: Seq<char>) -> Seq<char> {
    match first_alphanumeric(domain) {
        Some(c) => seq![ascii_upper(c)],
        None => "?"@,
    }
}

proof fn lemma_first_alphanumeric_skip(s: Seq<char>, i: int)
    requires
        0 <= i <= s.len(),
        forall|j: int| 0 <= j < i ==> !is_ascii_alphanumeric(#[trigger] s[j]),
    ensures
        first_alphanumeric(s) == first_alphanumeric(s.skip(i)),
    decreases i,
{
    if i > 0 {
        assert forall|j: int| 0 <= j < i - 1 implies !is_ascii_alphanumeric(
            #[trigger] s.drop_first()[j],
        ) by {
            assert(s.drop_first()[j] == s[j + 1]);
        }
        lemma_first_alphanumeric_skip(s.drop_first(), i - 1);
        assert(s.drop_first().skip(i - 1) =~= s.skip(i));
    } else {
        assert(s.skip(0) =~= s);
    }
}

/// The letter shown for a link without a cached favicon.
pub fn domain_initial(domain: &str) -> (r: String)
    ensures
        r@ == initial_text(domain@),
{
    let s = chars_of(domain);
    let mut i: usize = 0;
    while i < s.len()
        invariant
            i <= s@.len(),
            s@ == domain@,
            forall|j: int| 0 <= j < i ==> !is_ascii_alphanumeric(#[trigger] s@[j]),
        decreases s.len() - i,
    {
        let c = s[i];
        if ('0' <= c && c <= '9') || ('a' <= c && c <= 'z') || ('A' <= c && c <= 'Z') {
            proof {
                lemma_first_alphanumeric_skip(s@, i as int);
            }
            let upper = if 'a' <= c && c <= 'z' {
                (((c as u32) - 32) as u8) as char
            } else {
                c
            };
            let mut v: Vec<char> = Vec::new();
            v.push(upper);
            assert(v@ =~= initial_text(domain@));
            return string_of(&v);
        }
        i = i + 1;
    }
    proof {
        lemma_first_alphanumeric_skip(s@, i as int);
    }
    string_of(&chars_of("?"))
}

/// The icon a (non-link) entry is shown with, by its kind.
pub open spec fn icon_for_kind(kind: EntryKind) -> Seq<char> {
    match kind {
        EntryKind::Text => "text-x-generic-symbolic"@,
        EntryKind::Image => "image-x-generic-symbolic"@,
        EntryKind::Color => "color-select-symbolic"@,
        EntryKind::File => "folder-symbolic"@,
        EntryKind::Unknown => "dialog-question-symbolic"@,
        EntryKind::Link => ""@,
    }
}

/// The icon of an entry that is not a link (links show their favicon).
pub fn entry_icon_name(entry: &ClipboardEntry) -> (r: &'static str)
    requires
        !(entry.data is Link),
        entry.kind != EntryKind::Link,
    ensures
        r@ == icon_for_kind(entry.kind),
{
    match entry.kind {
        EntryKind::Text => "text-x-generic-symbolic",
        EntryKind::Image => "image-x-generic-symbolic",
        EntryKind::Color => "color-select-symbolic",
        EntryKind::File => "folder-symbolic",
        EntryKind::Unknown => "dialog-question-symbolic",
        EntryKind::Link => "",
    }
}

/// The label of an entry's kind.
pub open spec fn kind_label(kind: EntryKind) -> Seq<char> {
    match kind {
        EntryKind::Text => "Text"@,
        EntryKind::Image => "Image"@,
        EntryKind::Link => "Link"@,
        EntryKind::Color => "Color"@,
        EntryKind::File => "File"@,
        EntryKind::Unknown => "Unknown"@,
    }
}

/// The label of an entry's kind, shown as its icon's tooltip.
pub fn entry_kind_label(entry: &ClipboardEntry) -> (r: &'static str)
    ensures
        r@ == kind_label(entry.kind),
{
    match entry.kind {
        EntryKind::Text => "Text",
        EntryKind::Image => "Image",
        EntryKind::Link => "Link",
        EntryKind::Color => "Color",
        EntryKind::File => "File",
        EntryKind::Unknown => "Unknown",
    }
}

/// `1 file`, or `n files`.
pub open spec fn count_label(count: nat) -> Seq<char> {
    if count == 1 {
        "1 file"@
    } else {
        decimal_text(count) + " files"@
    }
}

/// `1 file`, or `n files`.
pub fn file_count_label(count: usize) -> (r: String)
    ensures
        r@ == count_label(count as nat),
{
    if count == 1 {
        string_of(&chars_of("1 file"))
    } else {
        let mut v = u128_decimal(count as u128);
        push_all(&mut v, &chars_of(" files"));
        string_of(&v)
    }
}

/// The subtitle of a file list: how many files, and how many are missing.
pub open spec fn file_subtitle_text(count: nat, missing: nat) -> Seq<char> {
    if missing > 0 {
        count_label(count) + ", "@ + decimal_text(missing) + " missing"@
    } else {
        count_label(count)
    }
}

/// The subtitle of a file list of `count` files, `missing` of them gone.
pub fn file_summary(count: usize, missing: usize) -> (r: String)
    ensures
        r@ == file_subtitle_text(count as nat, missing as nat),
{
    let mut v = chars_of(file_count_label(count).as_str());
    if missing > 0 {
        push_all(&mut v, &chars_of(", "));
        push_all(&mut v, &u128_decimal(missing as u128));
        push_all(&mut v, &chars_of(" missing"));
    }
    string_of(&v)
}

/// The subtitle of a file entry: its number of files and, checked on disk just
/// now, how many are missing; `None` without a URI list or without files.
pub fn file_subtitle(entry: &ClipboardEntry) -> (r: Option<String>)
    ensures
        match opt_string_view(entry.text_content) {
            None => r is None,
            Some(t) => if uri_list_refs(t).len() == 0 {
                r is None
            } else {
                r matches Some(s) && exists|present: Seq<bool>|
                    present.len() == uri_list_refs(t).len() && s@ == file_subtitle_text(
                        uri_list_refs(t).len(),
                        count_absent(present),
                    )
            },
        },
{
    let text = match &entry.text_content {
        Some(t) => t,
        None => return None,
    };
    let files = parse_uri_list(text.as_str());
    assert(refs_view(files@).len() == files@.len());
    if files.len() == 0 {
        return None;
    }
    let mut present: Vec<bool> = Vec::new();
    let mut i: usize = 0;
    while i < files.len()
        invariant
            i <= files@.len(),
            present@.len() == i,
        decreases files.len() - i,
    {
        present.push(path_exists(files[i].path.as_str()));
        i = i + 1;
    }
    let missing = crate::files::count_missing(&present);
    Some(file_summary(files.len(), missing))
}

/// Whether an entry is a file entry whose URI list names files.
pub open spec fn lists_files(entry: ClipboardEntry) -> bool {
    &&& entry.data is File
    &&& opt_string_view(entry.text_content) matches Some(t) && uri_list_refs(t).len() > 0
}

/// The line under an entry's title: a file list's summary when it has one,
/// and otherwise how long ago the entry was updated.
pub fn entry_subtitle(entry: &ClipboardEntry) -> (r: String)
    ensures
        lists_files(*entry) ==> exists|present: Seq<bool>|
            present.len() == uri_list_refs(opt_string_view(entry.text_content)->0).len() && r@
                == file_subtitle_text(
                uri_list_refs(opt_string_view(entry.text_content)->0).len(),
                count_absent(present),
            ),
        !lists_files(*entry) ==> exists|now: i64|
            r@ == #[trigger] relative_since(now, entry.updated_at),
{
    if let EntryData::File { .. } = &entry.data {
        if let Some(subtitle) = file_subtitle(entry) {
            return subtitle;
        }
    }
    relative_time(entry.updated_at)
}

} // verus!
