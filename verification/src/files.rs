//! `text/uri-list` payloads: parsing file references, normalizing them to CRLF
//! lines, and describing them for the history view.
use vstd::prelude::*;

use crate::text::{
    index_of, is_white_space, lemma_index_of, lemma_index_of_unique, trim_end, trim_start,
    chars_eq, chars_of, copy_range, decimal_text, has_prefix, push_all, split, split_chars,
    starts_with, string_of, trim, trim_chars, u64_decimal,
};

verus! {

/// A file named by a `file://` URI, with its local path.
#[derive(Clone, Debug, PartialEq, Eq)]
pub struct FileReference {
    pub uri: String,
    pub path: String,
}

/// A file reference as (uri, path).
pub type FileModel = (Seq<char>, Seq<char>);

impl View for FileReference {
    type V = FileModel;

    open spec fn view(&self) -> FileModel {
        (self.uri@, self.path@)
    }
}

/// An optional string by its view.
pub open spec fn opt_view(o: Option<String>) -> Option<Seq<char>> {
    match o {
        Some(s) => Some(s@),
        None => None,
    }
}

/// What `url::Url::parse` makes of `line`: the URL's scheme and, when
/// `Url::to_file_path` succeeds, that local path (lossily as text) together
/// with the text of `Url::from_file_path` applied to the same path, when that
/// succeeds.
pub uninterp spec fn url_parts(line: Seq<char>) -> Option<(Seq<char>, Option<(Seq<char>, Option<Seq<char>>)>)>;

/// The serialization of `url::Url::from_file_path(path)`, when it succeeds.
pub uninterp spec fn file_url_text(path: Seq<char>) -> Option<Seq<char>>;

/// The local path of a URL as text, with its re-serialized URI, by their views.
pub open spec fn local_file_view(file: Option<(String, Option<String>)>) -> Option<(Seq<char>, Option<Seq<char>>)> {
    match file {
        Some((path, uri)) => Some((path@, opt_view(uri))),
        None => None,
    }
}

/// Parses `line` with `url::Url::parse` and returns the scheme (`Url::scheme`)
/// and, when `Url::to_file_path` gives a local path, that path (converted with
/// `to_string_lossy`) and the text (`Display`) of `Url::from_file_path` on the
/// path itself, so that a path that is not UTF-8 is re-encoded byte for byte.
/// The contract only names the result: `None` exactly when parsing fails.
#[verifier::external_body]
fn parse_url_parts(line: &str) -> (r: Option<(String, Option<(String, Option<String>)>)>)
    ensures
        match r {
            Some((scheme, file)) => url_parts(line@) == Some((scheme@, local_file_view(file))),
            None => url_parts(line@) is None,
        },
{
    let url = match url::Url::parse(line) {
        Ok(url) => url,
        Err(_) => return None,
    };
    let file = match url.to_file_path() {
        Ok(path) => match url::Url::from_file_path(&path) {
            Ok(uri) => Some((path.to_string_lossy().into_owned(), Some(uri.to_string()))),
            Err(_) => Some((path.to_string_lossy().into_owned(), None)),
        },
        Err(_) => None,
    };
    Some((url.scheme().to_string(), file))
}

/// The `file://` URL that `url::Url::from_file_path` builds for `path`, as text
/// (`Display`); `None` when it returns `Err`. The contract only names the result.
#[verifier::external_body]
fn file_url_of_path(path: &str) -> (r: Option<String>)
    ensures
        opt_view(r) == file_url_text(path@),
{
    match url::Url::from_file_path(path) {
        Ok(url) => Some(url.to_string()),
        Err(_) => None,
    }
}

/// The file reference a single URI line names: a `file` URL with a local path,
/// whose URI is re-serialized from that path.
pub open spec fn file_ref(line: Seq<char>) -> Option<FileModel> {
    match url_parts(line) {
        Some((scheme, Some((path, Some(uri))))) => if scheme == "file"@ {
            Some((uri, path))
        } else {
            None
        },
        _ => None,
    }
}

/// Whether a trimmed line of a URI list carries a URI (it is neither blank nor a `#` comment).
pub open spec fn is_uri_line(l: Seq<char>) -> bool {
    l.len() > 0 && l[0] != '#'
}

/// The file references of the given lines, in order.
pub open spec fn refs_of_lines(lines: Seq<Seq<char>>) -> Seq<FileModel>
    decreases lines.len(),
{
    if lines.len() == 0 {
        Seq::empty()
    } else {
        let rest = refs_of_lines(lines.drop_last());
        let l = trim(lines.last());
        if is_uri_line(l) {
            match file_ref(l) {
                Some(f) => rest.push(f),
                None => rest,
            }
        } else {
            rest
        }
    }
}

/// The file references of a URI-list payload.
pub open spec fn uri_list_refs(payload: Seq<char>) -> Seq<FileModel> {
    refs_of_lines(split(payload, '\n'))
}

/// Each URI followed by CRLF.
pub open spec fn crlf_lines(uris: Seq<Seq<char>>) -> Seq<char>
    decreases uris.len(),
{
    if uris.len() == 0 {
        Seq::empty()
    } else {
        crlf_lines(uris.drop_last()) + uris.last() + "\r\n"@
    }
}

/// The URIs of some file references.
pub open spec fn uris_of(files: Seq<FileModel>) -> Seq<Seq<char>> {
    files.map_values(|f: FileModel| f.0)
}

/// The paths of some file references.
pub open spec fn paths_of(files: Seq<FileModel>) -> Seq<Seq<char>> {
    files.map_values(|f: FileModel| f.1)
}

/// Items joined with `sep` between them.
pub open spec fn join(items: Seq<Seq<char>>, sep: Seq<char>) -> Seq<char>
    decreases items.len(),
{
    if items.len() == 0 {
        Seq::empty()
    } else if items.len() == 1 {
        items[0]
    } else {
        join(items.drop_last(), sep) + sep + items.last()
    }
}

/// The path components `Path::components` keeps as names: separators repeated or
/// trailing, and `.` components, are dropped.
pub open spec fn name_components(path: Seq<char>) -> Seq<Seq<char>> {
    kept_names(split(path, '/'))
}

/// The pieces that are neither empty nor `.`, in order.
pub open spec fn kept_names(parts: Seq<Seq<char>>) -> Seq<Seq<char>>
    decreases parts.len(),
{
    if parts.len() == 0 {
        Seq::empty()
    } else {
        let rest = kept_names(parts.drop_last());
        let c = parts.last();
        if c.len() > 0 && c != "."@ {
            rest.push(c)
        } else {
            rest
        }
    }
}

/// `Path::file_name`: the last component, unless there is none or it is `..`.
pub open spec fn file_name(path: Seq<char>) -> Option<Seq<char>> {
    let comps = name_components(path);
    if comps.len() == 0 || comps.last() == ".."@ {
        None
    } else {
        Some(comps.last())
    }
}

/// A short title for one file: its name, else its path, else its URI.
pub open spec fn file_title_text(f: FileModel) -> Seq<char> {
    match file_name(f.1) {
        Some(name) => if name.len() > 0 {
            name
        } else if f.1.len() > 0 {
            f.1
        } else {
            f.0
        },
        None => if f.1.len() > 0 {
            f.1
        } else {
            f.0
        },
    }
}

/// The title of a URI list: `Files`, the one file's title, or the first title and how many more.
pub open spec fn uri_list_title_text(files: Seq<FileModel>) -> Seq<char> {
    if files.len() == 0 {
        "Files"@
    } else if files.len() == 1 {
        file_title_text(files[0])
    } else {
        file_title_text(files[0]) + " + "@ + decimal_text((files.len() - 1) as nat) + " more"@
    }
}

/// Converts file references to their views.
pub open spec fn refs_view(files: Seq<FileReference>) -> Seq<FileModel> {
    files.map_values(|f: FileReference| f@)
}

fn parse_file_uri(line: &[char]) -> (r: Option<FileReference>)
    ensures
        match r {
            Some(f) => file_ref(line@) == Some(f@),
            None => file_ref(line@) is None,
        },
{
    let text = string_of(line);
    let (scheme, file) = match parse_url_parts(text.as_str()) {
        Some(parts) => parts,
        None => return None,
    };
    if !chars_eq(&chars_of(scheme.as_str()), &chars_of("file")) {
        return None;
    }
    match file {
        Some((path, Some(uri))) => Some(FileReference { uri, path }),
        _ => None,
    }
}

proof fn lemma_refs_of_lines_take(lines: Seq<Seq<char>>, i: int)
    requires
        0 <= i < lines.len(),
    ensures
        refs_of_lines(lines.take(i + 1)) == ({
            let rest = refs_of_lines(lines.take(i));
            let l = trim(lines[i]);
            if is_uri_line(l) {
                match file_ref(l) {
                    Some(f) => rest.push(f),
                    None => rest,
                }
            } else {
                rest
            }
        }),
{
    assert(lines.take(i + 1).drop_last() =~= lines.take(i));
}

/// Parses a `text/uri-list` payload (LF or CRLF lines; blank lines and `#`
/// comments ignored) into the `file://` references it holds.
pub fn parse_uri_list(payload: &str) -> (r: Vec<FileReference>)
    ensures
        refs_view(r@) == uri_list_refs(payload@),
{
    let chars = chars_of(payload);
    let lines = split_chars(&chars, '\n');
    let ghost all = split(payload@, '\n');
    let mut files: Vec<FileReference> = Vec::new();
    let mut i: usize = 0;
    while i < lines.len()
        invariant
            i <= lines@.len() == all.len(),
            forall|k: int| 0 <= k < lines@.len() ==> (#[trigger] lines@[k])@ == all[k],
            refs_view(files@) == refs_of_lines(all.take(i as int)),
        decreases lines.len() - i,
    {
        proof {
            lemma_refs_of_lines_take(all, i as int);
        }
        let l = trim_chars(&lines[i]);
        if l.len() > 0 && l[0] != '#' {
            match parse_file_uri(&l) {
                Some(f) => {
                    files.push(f);
                    assert(refs_view(files@) =~= refs_of_lines(all.take(i + 1)));
                },
                None => {},
            }
        }
        i = i + 1;
    }
    assert(all.take(all.len() as int) =~= all);
    files
}

/// Each file's URI followed by CRLF (empty for no files).
fn normalize_file_references(files: &Vec<FileReference>) -> (r: String)
    ensures
        r@ == crlf_lines(uris_of(refs_view(files@))),
{
    let ghost uris = uris_of(refs_view(files@));
    let mut v: Vec<char> = Vec::new();
    let mut i: usize = 0;
    while i < files.len()
        invariant
            i <= files@.len() == uris.len(),
            uris == uris_of(refs_view(files@)),
            v@ == crlf_lines(uris.take(i as int)),
        decreases files.len() - i,
    {
        assert(uris.take(i + 1).drop_last() =~= uris.take(i as int));
        push_all(&mut v, &chars_of(files[i].uri.as_str()));
        push_all(&mut v, &chars_of("\r\n"));
        i = i + 1;
    }
    assert(uris.take(uris.len() as int) =~= uris);
    string_of(&v)
}

/// Whether a file reference's URI, alone on a line, reads back as that same
/// reference: it is not empty, holds no line break, neither begins nor ends
/// with white space, is no comment, and parses to the same URI and path.
pub open spec fn reads_back(f: FileModel) -> bool {
    let u = f.0;
    &&& u.len() > 0
    &&& !is_white_space(u[0])
    &&& !is_white_space(u.last())
    &&& u[0] != '#'
    &&& forall|i: int| 0 <= i < u.len() ==> u[i] != '\n'
    &&& file_ref(u) == Some(f)
}

/// Each URI with the carriage return that ends its line.
pub open spec fn cr_pieces(uris: Seq<Seq<char>>) -> Seq<Seq<char>> {
    uris.map_values(|u: Seq<char>| u.push('\r'))
}

proof fn lemma_split_at_newline(a: Seq<char>, b: Seq<char>)
    ensures
        split(a + seq!['\n'] + b, '\n') == split(a, '\n') + split(b, '\n'),
    decreases a.len(),
{
    let s = a + seq!['\n'] + b;
    lemma_index_of(a, '\n');
    let i = index_of(a, '\n');
    if i >= a.len() {
        assert forall|j: int| 0 <= j < a.len() implies s[j] != '\n' by {
            assert(s[j] == a[j]);
        }
        lemma_index_of_unique(s, '\n', a.len() as int);
        assert(s.take(a.len() as int) =~= a);
        assert(s.skip(a.len() as int + 1) =~= b);
    } else {
        assert forall|j: int| 0 <= j < i implies s[j] != '\n' by {
            assert(s[j] == a[j]);
        }
        assert(s[i] == a[i]);
        lemma_index_of_unique(s, '\n', i);
        assert(s.take(i) =~= a.take(i));
        assert(s.skip(i + 1) =~= a.skip(i + 1) + seq!['\n'] + b);
        lemma_split_at_newline(a.skip(i + 1), b);
        assert(split(a, '\n') == seq![a.take(i)] + split(a.skip(i + 1), '\n'));
        assert(split(s, '\n') == seq![a.take(i)] + split(a.skip(i + 1) + seq!['\n'] + b, '\n'));
        assert(split(s, '\n') =~= split(a, '\n') + split(b, '\n'));
    }
}

proof fn lemma_split_plain(a: Seq<char>)
    requires
        forall|i: int| 0 <= i < a.len() ==> a[i] != '\n',
    ensures
        split(a, '\n') == seq![a],
{
    lemma_index_of_unique(a, '\n', a.len() as int);
}

/// Cut at line feeds, CRLF-terminated lines give each line with its carriage
/// return, then one empty piece.
proof fn lemma_split_crlf_lines(uris: Seq<Seq<char>>)
    requires
        forall|k: int, i: int| 0 <= k < uris.len() && 0 <= i < uris[k].len() ==> #[trigger] uris[k][i]
            != '\n',
    ensures
        split(crlf_lines(uris), '\n') == cr_pieces(uris) + seq![Seq::<char>::empty()],
    decreases uris.len(),
{
    reveal_strlit("\r\n");
    if uris.len() == 0 {
        lemma_split_plain(Seq::<char>::empty());
        assert(cr_pieces(uris) =~= Seq::<Seq<char>>::empty());
        assert(crlf_lines(uris) =~= Seq::<char>::empty());
    } else {
        let init = uris.drop_last();
        let last = uris.last();
        let lastr = last.push('\r');
        assert forall|i: int| 0 <= i < lastr.len() implies lastr[i] != '\n' by {
            if i < last.len() {
                assert(lastr[i] == uris[uris.len() - 1][i]);
            }
        }
        lemma_split_plain(lastr);
        lemma_split_plain(Seq::<char>::empty());
        assert forall|k: int, i: int| 0 <= k < init.len() && 0 <= i < init[k].len() implies #[trigger] init[k][i]
            != '\n' by {
            assert(init[k] == uris[k]);
        }
        lemma_split_crlf_lines(init);
        if init.len() == 0 {
            assert(crlf_lines(init) =~= Seq::<char>::empty());
            assert(crlf_lines(uris) =~= lastr + seq!['\n'] + Seq::<char>::empty());
            lemma_split_at_newline(lastr, Seq::<char>::empty());
            assert(cr_pieces(uris) =~= seq![lastr]);
        } else {
            let c = crlf_lines(init.drop_last()) + init.last().push('\r');
            assert(crlf_lines(init) =~= c + seq!['\n'] + Seq::<char>::empty());
            lemma_split_at_newline(c, Seq::<char>::empty());
            let e = seq![Seq::<char>::empty()];
            assert(split(c, '\n') + e == cr_pieces(init) + e);
            assert((split(c, '\n') + e).drop_last() =~= split(c, '\n'));
            assert((cr_pieces(init) + e).drop_last() =~= cr_pieces(init));
            assert(split(c, '\n') == cr_pieces(init));
            assert(crlf_lines(uris) =~= (c + seq!['\n'] + lastr) + seq!['\n'] + Seq::<char>::empty());
            lemma_split_at_newline(c + seq!['\n'] + lastr, Seq::<char>::empty());
            lemma_split_at_newline(c, lastr);
            assert(cr_pieces(uris) =~= cr_pieces(init) + seq![lastr]);
        }
    }
}

proof fn lemma_refs_of_cr_pieces(files: Seq<FileModel>)
    requires
        forall|k: int| 0 <= k < files.len() ==> reads_back(#[trigger] files[k]),
    ensures
        refs_of_lines(cr_pieces(uris_of(files))) == files,
    decreases files.len(),
{
    if files.len() > 0 {
        let init = files.drop_last();
        assert forall|k: int| 0 <= k < init.len() implies reads_back(#[trigger] init[k]) by {
            assert(init[k] == files[k]);
        }
        lemma_refs_of_cr_pieces(init);
        let lines = cr_pieces(uris_of(files));
        assert(lines.drop_last() =~= cr_pieces(uris_of(init)));
        let f = files.last();
        assert(reads_back(files[files.len() - 1]));
        let u = f.0;
        assert(lines.last() == u.push('\r'));
        assert(u.push('\r').drop_last() =~= u);
        assert(trim_end(u.push('\r')) == trim_end(u));
        assert(trim_end(u) == u);
        assert(trim_start(u.push('\r')) == u.push('\r'));
        assert(trim(lines.last()) == u);
        assert(is_uri_line(u));
        assert(refs_of_lines(lines) =~= files);
    }
}

/// Normalizing a URI list whose URIs each read back as themselves gives a
/// list that parses to the same references, so normalizing it again changes
/// nothing; and the normalized list is empty exactly when no file was found.
pub proof fn lemma_normalized_uri_list_reads_back(payload: Seq<char>)
    requires
        forall|k: int|
            0 <= k < uri_list_refs(payload).len() ==> reads_back(#[trigger] uri_list_refs(payload)[k]),
    ensures
        ({
            let normalized = crlf_lines(uris_of(uri_list_refs(payload)));
            &&& uri_list_refs(normalized) == uri_list_refs(payload)
            &&& crlf_lines(uris_of(uri_list_refs(normalized))) == normalized
            &&& (normalized.len() == 0 <==> uri_list_refs(payload).len() == 0)
        }),
{
    let files = uri_list_refs(payload);
    let uris = uris_of(files);
    assert forall|k: int, i: int| 0 <= k < uris.len() && 0 <= i < uris[k].len() implies #[trigger] uris[k][i]
        != '\n' by {
        assert(reads_back(files[k]));
    }
    lemma_split_crlf_lines(uris);
    lemma_refs_of_cr_pieces(files);
    let pieces = cr_pieces(uris);
    assert((pieces + seq![Seq::<char>::empty()]).drop_last() =~= pieces);
    assert(trim(Seq::<char>::empty()) =~= Seq::<char>::empty());
    assert(refs_of_lines(pieces + seq![Seq::<char>::empty()]) == refs_of_lines(pieces));
    if files.len() > 0 {
        reveal_strlit("\r\n");
        assert(crlf_lines(uris).len() > 0);
    } else {
        assert(uris =~= Seq::<Seq<char>>::empty());
    }
}

/// The URI list re-written as one `file://` URI per CRLF-terminated line.
pub fn normalize_uri_list(payload: &str) -> (r: String)
    ensures
        r@ == crlf_lines(uris_of(uri_list_refs(payload@))),
{
    normalize_file_references(&parse_uri_list(payload))
}

/// The components of `path` that `Path::components` keeps as names.
fn path_name_components(path: &[char]) -> (r: Vec<Vec<char>>)
    ensures
        r@.len() == name_components(path@).len(),
        forall|k: int| 0 <= k < r@.len() ==> (#[trigger] r@[k])@ == name_components(path@)[k],
{
    let parts = split_chars(path, '/');
    let ghost all = split(path@, '/');
    let dot = chars_of(".");
    let mut out: Vec<Vec<char>> = Vec::new();
    let mut i: usize = 0;
    while i < parts.len()
        invariant
            i <= parts@.len() == all.len(),
            forall|k: int| 0 <= k < parts@.len() ==> (#[trigger] parts@[k])@ == all[k],
            dot@ == "."@,
            out@.len() == kept_names(all.take(i as int)).len(),
            forall|k: int|
                0 <= k < out@.len() ==> (#[trigger] out@[k])@ == kept_names(all.take(i as int))[k],
        decreases parts.len() - i,
    {
        proof {
            assert(all.take(i + 1).drop_last() =~= all.take(i as int));
        }
        if parts[i].len() > 0 && !chars_eq(&parts[i], &dot) {
            out.push(copy_range(&parts[i], 0, parts[i].len()));
            proof {
                assert(parts@[i as int]@.subrange(0, parts@[i as int]@.len() as int) =~= parts@[
                    i as int]@);
            }
        }
        i = i + 1;
    }
    assert(all.take(all.len() as int) =~= all);
    out
}

/// A short title for one file: its name, else its path, else its URI.
fn file_title(file: &FileReference) -> (r: Vec<char>)
    ensures
        r@ == file_title_text(file@),
{
    let path = chars_of(file.path.as_str());
    let comps = path_name_components(&path);
    let n = comps.len();
    if n > 0 && !chars_eq(&comps[n - 1], &chars_of("..")) && comps[n - 1].len() > 0 {
        return copy_range(&comps[n - 1], 0, comps[n - 1].len());
    }
    if path.len() > 0 {
        path
    } else {
        chars_of(file.uri.as_str())
    }
}

/// A title for a URI list: `Files` when empty, the file's name for one file,
/// otherwise the first name and how many more (`a.txt + 2 more`).
pub fn uri_list_title(payload: &str) -> (r: String)
    ensures
        r@ == uri_list_title_text(uri_list_refs(payload@)),
{
    let files = parse_uri_list(payload);
    assert(refs_view(files@).len() == files@.len());
    if files.len() == 0 {
        return string_of(&chars_of("Files"));
    }
    let mut v = file_title(&files[0]);
    if files.len() == 1 {
        return string_of(&v);
    }
    push_all(&mut v, &chars_of(" + "));
    push_all(&mut v, &u64_decimal((files.len() - 1) as u64));
    push_all(&mut v, &chars_of(" more"));
    string_of(&v)
}

/// The local paths of a URI list, one per line.
pub fn uri_list_preview(payload: &str) -> (r: String)
    ensures
        r@ == join(paths_of(uri_list_refs(payload@)), "\n"@),
{
    let files = parse_uri_list(payload);
    let ghost paths = paths_of(refs_view(files@));
    let mut v: Vec<char> = Vec::new();
    let mut i: usize = 0;
    while i < files.len()
        invariant
            i <= files@.len() == paths.len(),
            paths == paths_of(refs_view(files@)),
            v@ == join(paths.take(i as int), "\n"@),
        decreases files.len() - i,
    {
        assert(paths.take(i + 1).drop_last() =~= paths.take(i as int));
        if i > 0 {
            push_all(&mut v, &chars_of("\n"));
        }
        push_all(&mut v, &chars_of(files[i].path.as_str()));
        proof {
            if i == 0 {
                assert(v@ =~= paths.take(1)[0]);
            }
        }
        i = i + 1;
    }
    assert(paths.take(paths.len() as int) =~= paths);
    string_of(&v)
}

} // verus!

verus! {

/// Whether a path is absolute on Unix (`Path::is_absolute`): it begins with `/`.
pub open spec fn is_absolute_path(p: Seq<char>) -> bool {
    p.len() > 0 && p[0] == '/'
}

/// The file reference of one line that is either a `file://` URI or an absolute path.
pub open spec fn path_or_uri_ref(line: Seq<char>) -> Option<FileModel> {
    if has_prefix(line, "file://"@) {
        file_ref(line)
    } else if !is_absolute_path(line) {
        None
    } else {
        match file_url_text(line) {
            Some(uri) => Some((uri, line)),
            None => None,
        }
    }
}

/// The references of all non-blank lines, or `None` when any line is neither a
/// `file://` URI nor an absolute path.
pub open spec fn path_or_uri_refs(lines: Seq<Seq<char>>) -> Option<Seq<FileModel>>
    decreases lines.len(),
{
    if lines.len() == 0 {
        Some(Seq::empty())
    } else {
        match path_or_uri_refs(lines.drop_last()) {
            None => None,
            Some(rest) => {
                let l = trim(lines.last());
                if l.len() == 0 {
                    Some(rest)
                } else {
                    match path_or_uri_ref(l) {
                        Some(f) => Some(rest.push(f)),
                        None => None,
                    }
                }
            },
        }
    }
}

/// The normalized URI list for a payload of absolute paths and/or `file://`
/// URIs, or `None` when a line is neither or there is no file at all.
pub open spec fn normalized_path_list(payload: Seq<char>) -> Option<Seq<char>> {
    match path_or_uri_refs(split(payload, '\n')) {
        Some(fs) => if fs.len() > 0 {
            Some(crlf_lines(uris_of(fs)))
        } else {
            None
        },
        None => None,
    }
}

proof fn lemma_path_or_uri_refs_none(lines: Seq<Seq<char>>, i: int)
    requires
        0 <= i <= lines.len(),
        path_or_uri_refs(lines.take(i)) is None,
    ensures
        path_or_uri_refs(lines) is None,
    decreases lines.len() - i,
{
    if i < lines.len() {
        assert(lines.take(i + 1).drop_last() =~= lines.take(i));
        lemma_path_or_uri_refs_none(lines, i + 1);
    } else {
        assert(lines.take(i) =~= lines);
    }
}

/// Reads a payload whose non-blank lines are each an absolute path or a
/// `file://` URI, and returns it as a normalized URI list.
pub fn normalize_path_or_uri_list(payload: &str) -> (r: Option<String>)
    ensures
        opt_view(r) == normalized_path_list(payload@),
{
    let chars = chars_of(payload);
    let lines = split_chars(&chars, '\n');
    let ghost all = split(payload@, '\n');
    let scheme = chars_of("file://");
    let mut files: Vec<FileReference> = Vec::new();
    let mut i: usize = 0;
    while i < lines.len()
        invariant
            i <= lines@.len() == all.len(),
            forall|k: int| 0 <= k < lines@.len() ==> (#[trigger] lines@[k])@ == all[k],
            scheme@ == "file://"@,
            all == split(payload@, '\n'),
            path_or_uri_refs(all.take(i as int)) == Some(refs_view(files@)),
        decreases lines.len() - i,
    {
        assert(all.take(i + 1).drop_last() =~= all.take(i as int));
        assert(all.take(i + 1).last() == all[i as int]);
        let l = trim_chars(&lines[i]);
        if l.len() > 0 {
            if starts_with(&l, &scheme) {
                match parse_file_uri(&l) {
                    Some(f) => files.push(f),
                    None => {
                        proof {
                            lemma_path_or_uri_refs_none(all, i + 1);
                        }
                        return None;
                    },
                }
            } else if l[0] != '/' {
                proof {
                    lemma_path_or_uri_refs_none(all, i + 1);
                }
                return None;
            } else {
                let path = string_of(&l);
                match file_url_of_path(path.as_str()) {
                    Some(uri) => files.push(FileReference { uri, path }),
                    None => {
                        proof {
                            lemma_path_or_uri_refs_none(all, i + 1);
                        }
                        return None;
                    },
                }
            }
            assert(refs_view(files@) =~= path_or_uri_refs(all.take(i + 1))->Some_0);
        }
        i = i + 1;
    }
    assert(all.take(all.len() as int) =~= all);
    if files.len() == 0 {
        None
    } else {
        Some(normalize_file_references(&files))
    }
}

} // verus!

verus! {

/// Whether a file or directory exists at `path` (`Path::exists`). What is on
/// disk can change at any time, so nothing is promised of the answer.
#[verifier::external_body]
pub(crate) fn path_exists(path: &str) -> bool {
    std::path::Path::new(path).exists()
}

/// How many of the flags are `false`.
pub open spec fn count_absent(present: Seq<bool>) -> nat
    decreases present.len(),
{
    if present.len() == 0 {
        0
    } else {
        count_absent(present.drop_last()) + if present.last() {
            0nat
        } else {
            1nat
        }
    }
}

/// The number of `false` flags: the files found missing.
pub fn count_missing(present: &[bool]) -> (r: usize)
    ensures
        r as nat == count_absent(present@),
{
    let mut n: usize = 0;
    let mut i: usize = 0;
    while i < present.len()
        invariant
            i <= present@.len(),
            n as nat == count_absent(present@.take(i as int)),
            n <= i,
        decreases present.len() - i,
    {
        assert(present@.take(i + 1).drop_last() =~= present@.take(i as int));
        if !present[i] {
            n = n + 1;
        }
        i = i + 1;
    }
    assert(present@.take(present@.len() as int) =~= present@);
    n
}

/// How many files of a URI list do not exist on disk (as checked just now).
pub fn uri_list_missing_count(payload: &str) -> (r: usize)
    ensures
        exists|present: Seq<bool>|
            present.len() == uri_list_refs(payload@).len() && r as nat == count_absent(present),
{
    let files = parse_uri_list(payload);
    assert(refs_view(files@).len() == files@.len());
    let mut present: Vec<bool> = Vec::new();
    let mut i: usize = 0;
    while i < files.len()
        invariant
            i <= files@.len(),
            present@.len() == i,
        decreases files.len() - i,
    {
        present.push(path_exists(files[i].path.as_str()));
        i = i + 1;
    }
    count_missing(&present)
}

} // verus!
