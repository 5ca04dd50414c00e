//! What the history database is told and what its rows mean: the SQL text of
//! every statement, the parameters an entry is written with, and how a row
//! read back becomes an entry.
//!
//! Running the statements is the program's business; every statement and
//! parameter list it runs comes from here.
use vstd::prelude::*;

use crate::files::opt_view;
use crate::models::{
    kind_name, kind_named, new_data_kind, opt_string_view, ClipboardEntry, EntryData,
    EntryDataModel, EntryFilter, EntryKind, NewEntry, NewEntryData, SortMode,
};
use crate::text::{chars_of, push_all, string_of, trim, trim_chars};

verus! {

/// Summary rows keep every text column within this many characters.
pub const SUMMARY_TEXT_LIMIT_CHARS: usize = 8192;

/// Inserts an entry, or refreshes the entry with the same content hash.
pub const UPSERT_ENTRY_SQL: &'static str = r#"
            INSERT INTO entries (
              content_hash, kind, mime_type, title, preview_text, text_content,
              file_path, thumb_path, source_app, link_url, link_domain, link_icon,
              color_value, color_format, copied_at, updated_at, size_bytes, deleted
            )
            VALUES (?1, ?2, ?3, ?4, ?5, ?6, ?7, ?8, ?9, ?10, ?11, ?12, ?13, ?14, ?15, ?16, ?17, 0)
            ON CONFLICT(content_hash) DO UPDATE SET
              kind=excluded.kind,
              mime_type=excluded.mime_type,
              title=excluded.title,
              preview_text=excluded.preview_text,
              text_content=excluded.text_content,
              file_path=COALESCE(excluded.file_path, entries.file_path),
              thumb_path=COALESCE(excluded.thumb_path, entries.thumb_path),
              source_app=excluded.source_app,
              link_url=excluded.link_url,
              link_domain=excluded.link_domain,
              link_icon=excluded.link_icon,
              color_value=excluded.color_value,
              color_format=excluded.color_format,
              updated_at=excluded.updated_at,
              size_bytes=excluded.size_bytes,
              deleted=0
            "#;

/// The id of the entry with a content hash.
pub const SELECT_ENTRY_ID_SQL: &'static str = "SELECT id FROM entries WHERE content_hash = ?1";

/// The columns of a complete entry row.
pub const FULL_ENTRY_COLUMNS: &'static str = r#"
          e.id, e.content_hash, e.kind, e.mime_type, e.title, e.preview_text,
          e.text_content, e.file_path, e.thumb_path, e.source_app, e.link_url,
          e.link_domain, e.link_icon, e.color_value, e.color_format, e.pinned,
          e.copied_at, e.updated_at, e.last_used_at, e.use_count, e.size_bytes,
          o.text AS ocr_text
        "#;

/// The columns of a summary row: text columns cut to
/// `SUMMARY_TEXT_LIMIT_CHARS`, and no text payload for text entries.
pub const SUMMARY_ENTRY_COLUMNS: &'static str = r#"
              e.id,
              substr(e.content_hash, 1, 8192) AS content_hash,
              e.kind,
              substr(e.mime_type, 1, 8192) AS mime_type,
              substr(e.title, 1, 8192) AS title,
              substr(e.preview_text, 1, 8192) AS preview_text,
              CASE WHEN e.kind = 'text' THEN NULL
                   ELSE substr(e.text_content, 1, 8192)
              END AS text_content,
              substr(e.file_path, 1, 8192) AS file_path,
              substr(e.thumb_path, 1, 8192) AS thumb_path,
              substr(e.source_app, 1, 8192) AS source_app,
              substr(e.link_url, 1, 8192) AS link_url,
              substr(e.link_domain, 1, 8192) AS link_domain,
              substr(e.link_icon, 1, 8192) AS link_icon,
              substr(e.color_value, 1, 8192) AS color_value,
              substr(e.color_format, 1, 8192) AS color_format,
              e.pinned, e.copied_at, e.updated_at, e.last_used_at, e.use_count,
              e.size_bytes,
              substr(o.text, 1, 8192) AS ocr_text
            "#;

pub const LIST_SQL_HEAD: &'static str = r#"
            SELECT "#;

pub const LIST_SQL_FROM: &'static str = r#"
            FROM entries e
            LEFT JOIN ocr_results o ON o.entry_id = e.id
            WHERE e.deleted = 0
            "#;

pub const COUNT_SQL_HEAD: &'static str = r#"
            SELECT COUNT(*)
            FROM entries e
            LEFT JOIN ocr_results o ON o.entry_id = e.id
            WHERE e.deleted = 0
            "#;

/// Matches the pattern `?1` against every searchable column.
pub const SEARCH_CLAUSE: &'static str = r#"
        AND (
          e.title LIKE ?1 OR e.preview_text LIKE ?1 OR e.text_content LIKE ?1
          OR e.link_url LIKE ?1 OR e.link_domain LIKE ?1 OR e.color_value LIKE ?1
          OR o.text LIKE ?1
        )
        "#;

pub const LINK_DOMAINS_SQL: &'static str = r#"
            SELECT DISTINCT link_domain
            FROM entries
            WHERE deleted = 0
              AND kind = 'link'
              AND link_domain IS NOT NULL
              AND link_domain != ''
            ORDER BY link_domain ASC
            "#;

pub const RECENT_FILE_URI_LIST_SQL: &'static str = r#"
            SELECT EXISTS(
              SELECT 1
                FROM entries
               WHERE deleted = 0
                 AND kind = 'file'
                 AND mime_type = 'text/uri-list'
                 AND text_content = ?1
                 AND updated_at >= ?2
            )
            "#;

pub const GET_ENTRY_SQL: &'static str = r#"
                SELECT
                  e.id, e.content_hash, e.kind, e.mime_type, e.title, e.preview_text,
                  e.text_content, e.file_path, e.thumb_path, e.source_app, e.link_url,
                  e.link_domain, e.link_icon, e.color_value, e.color_format, e.pinned,
                  e.copied_at, e.updated_at, e.last_used_at, e.use_count, e.size_bytes,
                  o.text AS ocr_text
                FROM entries e
                LEFT JOIN ocr_results o ON o.entry_id = e.id
                WHERE e.id = ?1 AND e.deleted = 0
                "#;

pub const SET_PINNED_SQL: &'static str = "UPDATE entries SET pinned = ?2, updated_at = ?3 WHERE id = ?1";

pub const DELETE_ENTRY_SQL: &'static str = "UPDATE entries SET deleted = 1, updated_at = ?2 WHERE id = ?1";

pub const TOUCH_USED_SQL: &'static str = "UPDATE entries SET last_used_at = ?2, use_count = use_count + 1 WHERE id = ?1";

pub const CLEANUP_SQL: &'static str = r#"
            UPDATE entries
               SET deleted = 1, updated_at = ?2
             WHERE deleted = 0
               AND pinned = 0
               AND updated_at < ?1
            "#;

/// Records the OCR text of an entry, replacing an earlier result.
pub const SAVE_OCR_RESULT_SQL: &'static str = r#"
            INSERT INTO ocr_results (entry_id, status, text, language, created_at, updated_at)
            VALUES (?1, 'done', ?2, ?3, ?4, ?4)
            ON CONFLICT(entry_id) DO UPDATE SET
              status = 'done',
              text = excluded.text,
              language = excluded.language,
              updated_at = excluded.updated_at
            "#;

pub const CREATE_TABLES_SQL: &'static str = r#"
            CREATE TABLE IF NOT EXISTS entries (
              id INTEGER PRIMARY KEY AUTOINCREMENT,
              content_hash TEXT NOT NULL,
              kind TEXT NOT NULL,
              mime_type TEXT NOT NULL,
              title TEXT NOT NULL,
              preview_text TEXT,
              text_content TEXT,
              file_path TEXT,
              thumb_path TEXT,
              source_app TEXT,
              link_url TEXT,
              link_domain TEXT,
              link_icon TEXT,
              color_value TEXT,
              color_format TEXT,
              pinned INTEGER NOT NULL DEFAULT 0,
              copied_at INTEGER NOT NULL,
              updated_at INTEGER NOT NULL,
              last_used_at INTEGER,
              use_count INTEGER NOT NULL DEFAULT 0,
              size_bytes INTEGER NOT NULL DEFAULT 0,
              deleted INTEGER NOT NULL DEFAULT 0
            );

            CREATE TABLE IF NOT EXISTS ocr_results (
              entry_id INTEGER PRIMARY KEY,
              status TEXT NOT NULL,
              text TEXT,
              language TEXT,
              created_at INTEGER NOT NULL,
              updated_at INTEGER NOT NULL,
              FOREIGN KEY(entry_id) REFERENCES entries(id)
            );

            CREATE TABLE IF NOT EXISTS secrets (
              id INTEGER PRIMARY KEY AUTOINCREMENT,
              source_entry_id INTEGER UNIQUE,
              alias TEXT NOT NULL,
              value TEXT NOT NULL,
              created_at INTEGER NOT NULL,
              updated_at INTEGER NOT NULL,
              last_used_at INTEGER,
              use_count INTEGER NOT NULL DEFAULT 0,
              deleted INTEGER NOT NULL DEFAULT 0,
              FOREIGN KEY(source_entry_id) REFERENCES entries(id)
            );

            CREATE INDEX IF NOT EXISTS idx_secrets_updated_at ON secrets(updated_at DESC);
            CREATE INDEX IF NOT EXISTS idx_secrets_alias ON secrets(alias);
            "#;

/// Indexes, and the repair of rows once stored as links although their text
/// does not start with `http://` or `https://`.
pub const INDEXES_AND_REPAIR_SQL: &'static str = r#"
            CREATE UNIQUE INDEX IF NOT EXISTS idx_entries_hash ON entries(content_hash);
            CREATE INDEX IF NOT EXISTS idx_entries_copied_at ON entries(copied_at DESC);
            CREATE INDEX IF NOT EXISTS idx_entries_pinned ON entries(pinned DESC, updated_at DESC);
            CREATE INDEX IF NOT EXISTS idx_entries_kind ON entries(kind);
            CREATE INDEX IF NOT EXISTS idx_entries_domain ON entries(link_domain);

            UPDATE entries
               SET kind = 'text',
                   title = substr(text_content, 1, 96),
                   preview_text = text_content,
                   link_url = NULL,
                   link_domain = NULL,
                   link_icon = NULL
             WHERE kind = 'link'
               AND text_content IS NOT NULL
               AND trim(text_content) != ''
               AND lower(trim(text_content)) NOT LIKE 'http://%'
               AND lower(trim(text_content)) NOT LIKE 'https://%';
            "#;

/// A value bound to a statement parameter.
#[derive(Clone, Debug, PartialEq, Eq)]
pub enum SqlValue {
    Null,
    Integer(i64),
    Text(String),
}

/// The content of a `SqlValue`.
pub enum SqlValueModel {
    Null,
    Integer(int),
    Text(Seq<char>),
}

impl View for SqlValue {
    type V = SqlValueModel;

    open spec fn view(&self) -> SqlValueModel {
        match self {
            SqlValue::Null => SqlValueModel::Null,
            SqlValue::Integer(i) => SqlValueModel::Integer(*i as int),
            SqlValue::Text(s) => SqlValueModel::Text(s@),
        }
    }
}

/// Text, or `NULL` when absent.
pub open spec fn text_or_null(o: Option<Seq<char>>) -> SqlValueModel {
    match o {
        Some(t) => SqlValueModel::Text(t),
        None => SqlValueModel::Null,
    }
}

fn text_value(s: &String) -> (r: SqlValue)
    ensures
        r@ == SqlValueModel::Text(s@),
{
    SqlValue::Text(string_of(&chars_of(s.as_str())))
}

fn optional_text_value(o: &Option<String>) -> (r: SqlValue)
    ensures
        r@ == text_or_null(opt_view(*o)),
{
    match o {
        Some(s) => text_value(s),
        None => SqlValue::Null,
    }
}

/// The kind-specific columns of an entry.
#[derive(Clone, Debug)]
pub struct DataColumns {
    pub file_path: Option<String>,
    pub thumb_path: Option<String>,
    pub source_app: Option<String>,
    pub link_url: Option<String>,
    pub link_domain: Option<String>,
    pub link_icon: Option<String>,
    pub color_value: Option<String>,
    pub color_format: Option<String>,
}

/// The content of `DataColumns`.
pub struct ColumnsModel {
    pub file_path: Option<Seq<char>>,
    pub thumb_path: Option<Seq<char>>,
    pub source_app: Option<Seq<char>>,
    pub link_url: Option<Seq<char>>,
    pub link_domain: Option<Seq<char>>,
    pub link_icon: Option<Seq<char>>,
    pub color_value: Option<Seq<char>>,
    pub color_format: Option<Seq<char>>,
}

impl View for DataColumns {
    type V = ColumnsModel;

    open spec fn view(&self) -> ColumnsModel {
        ColumnsModel {
            file_path: opt_view(self.file_path),
            thumb_path: opt_view(self.thumb_path),
            source_app: opt_view(self.source_app),
            link_url: opt_view(self.link_url),
            link_domain: opt_view(self.link_domain),
            link_icon: opt_view(self.link_icon),
            color_value: opt_view(self.color_value),
            color_format: opt_view(self.color_format),
        }
    }
}

/// Which columns hold an entry's kind-specific data: image paths, the source
/// application of files, the parts of a link, the value and format of a colour.
/// The OCR text of an image is kept elsewhere.
pub open spec fn columns_of(data: NewEntryData) -> ColumnsModel {
    let none = ColumnsModel {
        file_path: None,
        thumb_path: None,
        source_app: None,
        link_url: None,
        link_domain: None,
        link_icon: None,
        color_value: None,
        color_format: None,
    };
    match data {
        NewEntryData::Image { file_path, thumb_path, .. } => ColumnsModel {
            file_path: opt_view(file_path),
            thumb_path: opt_view(thumb_path),
            ..none
        },
        NewEntryData::Link { url, domain, icon } => ColumnsModel {
            link_url: Some(url@),
            link_domain: Some(domain@),
            link_icon: Some(icon@),
            ..none
        },
        NewEntryData::Color { value, format } => ColumnsModel {
            color_value: Some(value@),
            color_format: Some(format@),
            ..none
        },
        NewEntryData::File { source_app } => ColumnsModel {
            source_app: opt_view(source_app),
            ..none
        },
        _ => none,
    }
}

fn copy_optional(o: &Option<String>) -> (r: Option<String>)
    ensures
        opt_view(r) == opt_view(*o),
{
    match o {
        Some(s) => Some(string_of(&chars_of(s.as_str()))),
        None => None,
    }
}

fn copied(s: &String) -> (r: Option<String>)
    ensures
        opt_view(r) == Some(s@),
{
    Some(string_of(&chars_of(s.as_str())))
}

/// The kind-specific columns an entry is stored with.
pub fn data_columns(data: &NewEntryData) -> (r: DataColumns)
    ensures
        r@ == columns_of(*data),
{
    let mut c = DataColumns {
        file_path: None,
        thumb_path: None,
        source_app: None,
        link_url: None,
        link_domain: None,
        link_icon: None,
        color_value: None,
        color_format: None,
    };
    match data {
        NewEntryData::Image { file_path, thumb_path, .. } => {
            c.file_path = copy_optional(file_path);
            c.thumb_path = copy_optional(thumb_path);
        },
        NewEntryData::Link { url, domain, icon } => {
            c.link_url = copied(url);
            c.link_domain = copied(domain);
            c.link_icon = copied(icon);
        },
        NewEntryData::Color { value, format } => {
            c.color_value = copied(value);
            c.color_format = copied(format);
        },
        NewEntryData::File { source_app } => {
            c.source_app = copy_optional(source_app);
        },
        _ => {},
    }
    c
}

/// The parameters `?1` to `?17` of `UPSERT_ENTRY_SQL` for an entry written at
/// time `now`: hash, kind, MIME type, title, preview, text, the kind-specific
/// columns, `now` twice (copied and updated), and the size.
pub open spec fn upsert_parameters(entry: NewEntry, now: i64) -> Seq<SqlValueModel> {
    let c = columns_of(entry.data);
    seq![
        SqlValueModel::Text(entry.content_hash@),
        SqlValueModel::Text(kind_name(new_data_kind(entry.data))),
        SqlValueModel::Text(entry.mime_type@),
        SqlValueModel::Text(entry.title@),
        text_or_null(opt_view(entry.preview_text)),
        text_or_null(opt_view(entry.text_content)),
        text_or_null(c.file_path),
        text_or_null(c.thumb_path),
        text_or_null(c.source_app),
        text_or_null(c.link_url),
        text_or_null(c.link_domain),
        text_or_null(c.link_icon),
        text_or_null(c.color_value),
        text_or_null(c.color_format),
        SqlValueModel::Integer(now as int),
        SqlValueModel::Integer(now as int),
        SqlValueModel::Integer(entry.size_bytes as int),
    ]
}

/// The views of a list of parameters.
pub open spec fn values_view(v: Seq<SqlValue>) -> Seq<SqlValueModel> {
    v.map_values(|x: SqlValue| x@)
}

/// The parameters an entry is upserted with at time `now`.
pub fn upsert_params(entry: &NewEntry, now: i64) -> (r: Vec<SqlValue>)
    ensures
        values_view(r@) == upsert_parameters(*entry, now),
{
    let columns = data_columns(&entry.data);
    let kind = entry.data.kind();
    let v = vec![
        text_value(&entry.content_hash),
        SqlValue::Text(string_of(&chars_of(kind.as_str()))),
        text_value(&entry.mime_type),
        text_value(&entry.title),
        optional_text_value(&entry.preview_text),
        optional_text_value(&entry.text_content),
        optional_text_value(&columns.file_path),
        optional_text_value(&columns.thumb_path),
        optional_text_value(&columns.source_app),
        optional_text_value(&columns.link_url),
        optional_text_value(&columns.link_domain),
        optional_text_value(&columns.link_icon),
        optional_text_value(&columns.color_value),
        optional_text_value(&columns.color_format),
        SqlValue::Integer(now),
        SqlValue::Integer(now),
        SqlValue::Integer(entry.size_bytes),
    ];
    assert(values_view(v@) =~= upsert_parameters(*entry, now));
    v
}

/// The condition a filter adds to a listing.
pub open spec fn filter_clause(filter: EntryFilter) -> Seq<char> {
    match filter {
        EntryFilter::All => ""@,
        EntryFilter::Text => " AND e.kind = 'text'"@,
        EntryFilter::Images => " AND e.kind = 'image'"@,
        EntryFilter::Files => " AND e.kind = 'file'"@,
        EntryFilter::Links => " AND e.kind = 'link'"@,
        EntryFilter::Colors => " AND e.kind = 'color'"@,
        EntryFilter::Pinned => " AND e.pinned = 1"@,
    }
}

/// The condition a filter adds to a listing.
pub fn entry_filter_clause(filter: EntryFilter) -> (r: &'static str)
    ensures
        r@ == filter_clause(filter),
{
    match filter {
        EntryFilter::All => "",
        EntryFilter::Text => " AND e.kind = 'text'",
        EntryFilter::Images => " AND e.kind = 'image'",
        EntryFilter::Files => " AND e.kind = 'file'",
        EntryFilter::Links => " AND e.kind = 'link'",
        EntryFilter::Colors => " AND e.kind = 'color'",
        EntryFilter::Pinned => " AND e.pinned = 1",
    }
}

/// The order clause of a listing: pinned entries first by default, then the
/// most recently updated.
pub open spec fn order_clause(sort: SortMode) -> Seq<char> {
    match sort {
        SortMode::Default => " ORDER BY e.pinned DESC, e.updated_at DESC"@,
        SortMode::Recent => " ORDER BY e.updated_at DESC"@,
        SortMode::Oldest => " ORDER BY e.updated_at ASC"@,
        SortMode::Type => " ORDER BY e.kind ASC, e.updated_at DESC"@,
        SortMode::MostUsed => " ORDER BY e.use_count DESC, e.updated_at DESC"@,
    }
}

/// The order clause of a listing.
pub fn entry_order(sort: SortMode) -> (r: &'static str)
    ensures
        r@ == order_clause(sort),
{
    match sort {
        SortMode::Default => " ORDER BY e.pinned DESC, e.updated_at DESC",
        SortMode::Recent => " ORDER BY e.updated_at DESC",
        SortMode::Oldest => " ORDER BY e.updated_at ASC",
        SortMode::Type => " ORDER BY e.kind ASC, e.updated_at DESC",
        SortMode::MostUsed => " ORDER BY e.use_count DESC, e.updated_at DESC",
    }
}

/// The columns a listing selects.
pub fn entry_select_columns(include_text_payload: bool) -> (r: &'static str)
    ensures
        r@ == (if include_text_payload {
            FULL_ENTRY_COLUMNS@
        } else {
            SUMMARY_ENTRY_COLUMNS@
        }),
{
    if include_text_payload {
        FULL_ENTRY_COLUMNS
    } else {
        SUMMARY_ENTRY_COLUMNS
    }
}

/// The text of a listing: the selected columns, the filter, the search when
/// there is a query, the order, and the page bounds (`?1`/`?2`, or `?2`/`?3`
/// after the search pattern).
pub open spec fn list_sql(
    filter: EntryFilter,
    sort: SortMode,
    has_query: bool,
    include_text_payload: bool,
) -> Seq<char> {
    LIST_SQL_HEAD@ + (if include_text_payload {
        FULL_ENTRY_COLUMNS@
    } else {
        SUMMARY_ENTRY_COLUMNS@
    }) + LIST_SQL_FROM@ + filter_clause(filter) + (if has_query {
        SEARCH_CLAUSE@
    } else {
        ""@
    }) + order_clause(sort) + (if has_query {
        " LIMIT ?2 OFFSET ?3"@
    } else {
        " LIMIT ?1 OFFSET ?2"@
    })
}

/// The text of a listing query.
pub fn list_entries_sql(
    filter: EntryFilter,
    sort: SortMode,
    has_query: bool,
    include_text_payload: bool,
) -> (r: String)
    ensures
        r@ == list_sql(filter, sort, has_query, include_text_payload),
{
    let mut v = chars_of(LIST_SQL_HEAD);
    push_all(&mut v, &chars_of(entry_select_columns(include_text_payload)));
    push_all(&mut v, &chars_of(LIST_SQL_FROM));
    push_all(&mut v, &chars_of(entry_filter_clause(filter)));
    if has_query {
        push_all(&mut v, &chars_of(SEARCH_CLAUSE));
    } else {
        push_all(&mut v, &chars_of(""));
    }
    push_all(&mut v, &chars_of(entry_order(sort)));
    if has_query {
        push_all(&mut v, &chars_of(" LIMIT ?2 OFFSET ?3"));
    } else {
        push_all(&mut v, &chars_of(" LIMIT ?1 OFFSET ?2"));
    }
    string_of(&v)
}

/// The text of a count: the filter, and the search when there is a query.
pub open spec fn count_sql(filter: EntryFilter, has_query: bool) -> Seq<char> {
    COUNT_SQL_HEAD@ + filter_clause(filter) + (if has_query {
        SEARCH_CLAUSE@
    } else {
        ""@
    })
}

/// The text of a count query.
pub fn count_entries_sql(filter: EntryFilter, has_query: bool) -> (r: String)
    ensures
        r@ == count_sql(filter, has_query),
{
    let mut v = chars_of(COUNT_SQL_HEAD);
    push_all(&mut v, &chars_of(entry_filter_clause(filter)));
    if has_query {
        push_all(&mut v, &chars_of(SEARCH_CLAUSE));
    } else {
        push_all(&mut v, &chars_of(""));
    }
    string_of(&v)
}

/// The `LIKE` pattern of a query: the trimmed query between `%` signs, or
/// `None` for a blank query (which lists everything).
pub open spec fn search_pattern_text(query: Seq<char>) -> Option<Seq<char>> {
    if trim(query).len() == 0 {
        None
    } else {
        Some(seq!['%'] + trim(query) + seq!['%'])
    }
}

/// The `LIKE` pattern of a query, if the query is not blank.
pub fn search_pattern(query: &str) -> (r: Option<String>)
    ensures
        opt_view(r) == search_pattern_text(query@),
{
    let t = trim_chars(&chars_of(query));
    if t.len() == 0 {
        return None;
    }
    let mut v: Vec<char> = Vec::new();
    v.push('%');
    push_all(&mut v, &t);
    v.push('%');
    assert(v@ =~= seq!['%'] + trim(query@) + seq!['%']);
    Some(string_of(&v))
}

/// The parameters of a listing: the pattern when there is one, then the
/// page's size and offset (as SQLite integers).
pub fn list_params(pattern: &Option<String>, limit: usize, offset: usize) -> (r: Vec<SqlValue>)
    ensures
        values_view(r@) == (match pattern {
            Some(p) => seq![
                SqlValueModel::Text(p@),
                SqlValueModel::Integer((limit as i64) as int),
                SqlValueModel::Integer((offset as i64) as int),
            ],
            None => seq![
                SqlValueModel::Integer((limit as i64) as int),
                SqlValueModel::Integer((offset as i64) as int),
            ],
        }),
{
    let mut v: Vec<SqlValue> = Vec::new();
    if let Some(p) = pattern {
        v.push(text_value(p));
    }
    v.push(SqlValue::Integer(limit as i64));
    v.push(SqlValue::Integer(offset as i64));
    assert(values_view(v@) =~= (match pattern {
        Some(p) => seq![
            SqlValueModel::Text(p@),
            SqlValueModel::Integer((limit as i64) as int),
            SqlValueModel::Integer((offset as i64) as int),
        ],
        None => seq![
            SqlValueModel::Integer((limit as i64) as int),
            SqlValueModel::Integer((offset as i64) as int),
        ],
    }));
    v
}

/// A count read from SQLite as a number of rows (negative counts read as zero).
pub fn row_count(count: i64) -> (r: usize)
    ensures
        r == (if count < 0 {
            0
        } else {
            count
        }) as usize,
{
    if count < 0 {
        0
    } else {
        count as usize
    }
}

/// The time before which unpinned entries are removed, `days` days before
/// `now`; `None` when the clean-up is switched off (zero days).
pub fn cleanup_cutoff(now: i64, days: u32) -> (r: Option<i64>)
    requires
        days > 0 ==> now - days * 86400 >= i64::MIN,
    ensures
        r == (if days == 0 {
            None
        } else {
            Some((now - days * 86400) as i64)
        }),
{
    if days == 0 {
        None
    } else {
        Some(now - (days as i64) * 86400)
    }
}

/// The earliest update time still counted as recent, `window_seconds` (at
/// least zero) before `now`.
pub fn recent_cutoff(now: i64, window_seconds: i64) -> (r: i64)
    requires
        now - (if window_seconds < 0 {
            0
        } else {
            window_seconds
        }) >= i64::MIN,
    ensures
        r == now - (if window_seconds < 0 {
            0
        } else {
            window_seconds
        }),
{
    let window: i64 = if window_seconds < 0 {
        0
    } else {
        window_seconds
    };
    now - window
}

/// A column the migration adds to an older database when it is missing.
#[derive(Clone, Copy, Debug)]
pub struct SchemaColumn {
    pub table: &'static str,
    pub column: &'static str,
    pub definition: &'static str,
}

/// The columns the migration makes sure exist, in order.
pub fn schema_columns() -> (r: Vec<SchemaColumn>)
    ensures
        r@.len() == 18,
{
    vec![
        SchemaColumn { table: "entries", column: "file_path", definition: "TEXT" },
        SchemaColumn { table: "entries", column: "thumb_path", definition: "TEXT" },
        SchemaColumn { table: "entries", column: "source_app", definition: "TEXT" },
        SchemaColumn { table: "entries", column: "link_url", definition: "TEXT" },
        SchemaColumn { table: "entries", column: "link_domain", definition: "TEXT" },
        SchemaColumn { table: "entries", column: "link_icon", definition: "TEXT" },
        SchemaColumn { table: "entries", column: "color_value", definition: "TEXT" },
        SchemaColumn { table: "entries", column: "color_format", definition: "TEXT" },
        SchemaColumn { table: "entries", column: "pinned", definition: "INTEGER NOT NULL DEFAULT 0" },
        SchemaColumn { table: "entries", column: "copied_at", definition: "INTEGER NOT NULL DEFAULT 0" },
        SchemaColumn { table: "entries", column: "updated_at", definition: "INTEGER NOT NULL DEFAULT 0" },
        SchemaColumn { table: "entries", column: "last_used_at", definition: "INTEGER" },
        SchemaColumn { table: "entries", column: "use_count", definition: "INTEGER NOT NULL DEFAULT 0" },
        SchemaColumn { table: "entries", column: "size_bytes", definition: "INTEGER NOT NULL DEFAULT 0" },
        SchemaColumn { table: "entries", column: "deleted", definition: "INTEGER NOT NULL DEFAULT 0" },
        SchemaColumn { table: "secrets", column: "last_used_at", definition: "INTEGER" },
        SchemaColumn { table: "secrets", column: "use_count", definition: "INTEGER NOT NULL DEFAULT 0" },
        SchemaColumn { table: "secrets", column: "deleted", definition: "INTEGER NOT NULL DEFAULT 0" },
    ]
}

/// `PRAGMA table_info(table)`.
pub fn table_info_sql(table: &str) -> (r: String)
    ensures
        r@ == "PRAGMA table_info("@ + table@ + ")"@,
{
    let mut v = chars_of("PRAGMA table_info(");
    push_all(&mut v, &chars_of(table));
    push_all(&mut v, &chars_of(")"));
    string_of(&v)
}

/// `ALTER TABLE table ADD COLUMN column definition`.
pub fn add_column_sql(table: &str, column: &str, definition: &str) -> (r: String)
    ensures
        r@ == "ALTER TABLE "@ + table@ + " ADD COLUMN "@ + column@ + " "@ + definition@,
{
    let mut v = chars_of("ALTER TABLE ");
    push_all(&mut v, &chars_of(table));
    push_all(&mut v, &chars_of(" ADD COLUMN "));
    push_all(&mut v, &chars_of(column));
    push_all(&mut v, &chars_of(" "));
    push_all(&mut v, &chars_of(definition));
    string_of(&v)
}

/// Whether a column is among a table's column names; a missing one is added.
pub fn has_column(names: &Vec<String>, column: &str) -> (r: bool)
    ensures
        r == (exists|i: int| 0 <= i < names@.len() && (#[trigger] names@[i])@ == column@),
{
    let c = chars_of(column);
    let mut i: usize = 0;
    while i < names.len()
        invariant
            i <= names@.len(),
            c@ == column@,
            forall|j: int| 0 <= j < i ==> (#[trigger] names@[j])@ != column@,
        decreases names.len() - i,
    {
        if crate::text::chars_eq(&chars_of(names[i].as_str()), &c) {
            return true;
        }
        i = i + 1;
    }
    false
}

/// The columns of an entry row, as read.
#[derive(Clone, Debug)]
pub struct EntryRow {
    pub id: i64,
    pub content_hash: String,
    pub kind: String,
    pub mime_type: String,
    pub title: String,
    pub preview_text: Option<String>,
    pub text_content: Option<String>,
    pub columns: DataColumns,
    pub pinned: bool,
    pub copied_at: i64,
    pub updated_at: i64,
    pub last_used_at: Option<i64>,
    pub use_count: i64,
    pub size_bytes: i64,
    pub ocr_text: Option<String>,
}

/// A column's text, or empty when it is `NULL`.
pub open spec fn or_empty(o: Option<Seq<char>>) -> Seq<char> {
    match o {
        Some(t) => t,
        None => Seq::empty(),
    }
}

/// The entry data a row holds, by its stored kind: an image's paths and OCR
/// text, a link's parts, a colour's value and format, a file list's source
/// application. A missing required column reads as empty text.
pub open spec fn data_from_columns(
    kind: Seq<char>,
    c: ColumnsModel,
    ocr_text: Option<Seq<char>>,
) -> EntryDataModel {
    match kind_named(kind) {
        EntryKind::Text => EntryDataModel::Text,
        EntryKind::Image => EntryDataModel::Image {
            file_path: or_empty(c.file_path),
            thumb_path: c.thumb_path,
            ocr_text,
        },
        EntryKind::Link => EntryDataModel::Link {
            url: or_empty(c.link_url),
            domain: or_empty(c.link_domain),
            icon: or_empty(c.link_icon),
        },
        EntryKind::Color => EntryDataModel::Color {
            value: or_empty(c.color_value),
            format: or_empty(c.color_format),
        },
        EntryKind::File => EntryDataModel::File { source_app: c.source_app },
        EntryKind::Unknown => EntryDataModel::Unknown,
    }
}

fn text_or_empty(o: &Option<String>) -> (r: String)
    ensures
        r@ == or_empty(opt_view(*o)),
{
    match o {
        Some(s) => string_of(&chars_of(s.as_str())),
        None => String::new(),
    }
}

/// The entry a row describes.
pub fn entry_from_row(row: &EntryRow) -> (r: ClipboardEntry)
    ensures
        r.id == row.id,
        r.content_hash@ == row.content_hash@,
        r.kind == kind_named(row.kind@),
        r.mime_type@ == row.mime_type@,
        r.title@ == row.title@,
        opt_string_view(r.preview_text) == opt_view(row.preview_text),
        opt_string_view(r.text_content) == opt_view(row.text_content),
        r.data@ == data_from_columns(row.kind@, row.columns@, opt_view(row.ocr_text)),
        r.pinned == row.pinned,
        r.copied_at == row.copied_at,
        r.updated_at == row.updated_at,
        r.last_used_at == row.last_used_at,
        r.use_count == row.use_count,
        r.size_bytes == row.size_bytes,
{
    let kind = EntryKind::from_name(row.kind.as_str());
    let c = &row.columns;
    let data = match kind {
        EntryKind::Text => EntryData::Text,
        EntryKind::Image => EntryData::Image {
            file_path: text_or_empty(&c.file_path),
            thumb_path: copy_optional(&c.thumb_path),
            ocr_text: copy_optional(&row.ocr_text),
        },
        EntryKind::Link => EntryData::Link {
            url: text_or_empty(&c.link_url),
            domain: text_or_empty(&c.link_domain),
            icon: text_or_empty(&c.link_icon),
        },
        EntryKind::Color => EntryData::Color {
            value: text_or_empty(&c.color_value),
            format: text_or_empty(&c.color_format),
        },
        EntryKind::File => EntryData::File { source_app: copy_optional(&c.source_app) },
        EntryKind::Unknown => EntryData::Unknown,
    };
    ClipboardEntry {
        id: row.id,
        content_hash: string_of(&chars_of(row.content_hash.as_str())),
        kind,
        mime_type: string_of(&chars_of(row.mime_type.as_str())),
        title: string_of(&chars_of(row.title.as_str())),
        preview_text: copy_optional(&row.preview_text),
        text_content: copy_optional(&row.text_content),
        data,
        pinned: row.pinned,
        copied_at: row.copied_at,
        updated_at: row.updated_at,
        last_used_at: row.last_used_at,
        use_count: row.use_count,
        size_bytes: row.size_bytes,
    }
}

/// The data an entry written with `data` reads back as (before any OCR text
/// is saved for it): an image without a stored path reads with an empty path.
pub open spec fn written_data(data: NewEntryData) -> EntryDataModel {
    match data {
        NewEntryData::Text => EntryDataModel::Text,
        NewEntryData::Image { file_path, thumb_path, .. } => EntryDataModel::Image {
            file_path: or_empty(opt_view(file_path)),
            thumb_path: opt_view(thumb_path),
            ocr_text: None,
        },
        NewEntryData::Link { url, domain, icon } => EntryDataModel::Link {
            url: url@,
            domain: domain@,
            icon: icon@,
        },
        NewEntryData::Color { value, format } => EntryDataModel::Color {
            value: value@,
            format: format@,
        },
        NewEntryData::File { source_app } => EntryDataModel::File {
            source_app: opt_view(source_app),
        },
        NewEntryData::Unknown => EntryDataModel::Unknown,
    }
}

/// What a write stores, a read gives back: the kind an entry is written under
/// and the columns its data is written to read back as the same kind and data.
pub proof fn lemma_written_data_reads_back(data: NewEntryData)
    ensures
        kind_named(kind_name(new_data_kind(data))) == new_data_kind(data),
        data_from_columns(kind_name(new_data_kind(data)), columns_of(data), None)
            == written_data(data),
{
    crate::models::lemma_kind_name_round_trip(new_data_kind(data));
}


/// The kind of entry a filter keeps, for the filters that keep one kind.
pub open spec fn filter_kind(filter: EntryFilter) -> Option<EntryKind> {
    match filter {
        EntryFilter::Text => Some(EntryKind::Text),
        EntryFilter::Images => Some(EntryKind::Image),
        EntryFilter::Files => Some(EntryKind::File),
        EntryFilter::Links => Some(EntryKind::Link),
        EntryFilter::Colors => Some(EntryKind::Color),
        _ => None,
    }
}

/// A filter by kind keeps exactly the rows stored under that kind's name (the
/// name `upsert_params` writes to the `kind` column); different filters add
/// different conditions, `All` adds none, and `Pinned` keeps pinned rows.
pub proof fn lemma_filters_select_their_kind(filter: EntryFilter, other: EntryFilter)
    ensures
        filter_kind(filter) matches Some(kind) ==> filter_clause(filter) == " AND e.kind = '"@
            + kind_name(kind) + "'"@,
        filter == EntryFilter::All ==> filter_clause(filter).len() == 0,
        filter == EntryFilter::Pinned ==> filter_clause(filter) == " AND e.pinned = 1"@,
        filter != other ==> filter_clause(filter) != filter_clause(other),
{
    reveal_strlit(" AND e.kind = '");
    reveal_strlit("'");
    reveal_strlit("text");
    reveal_strlit("image");
    reveal_strlit("file");
    reveal_strlit("link");
    reveal_strlit("color");
    reveal_strlit("");
    reveal_strlit(" AND e.kind = 'text'");
    reveal_strlit(" AND e.kind = 'image'");
    reveal_strlit(" AND e.kind = 'file'");
    reveal_strlit(" AND e.kind = 'link'");
    reveal_strlit(" AND e.kind = 'color'");
    reveal_strlit(" AND e.pinned = 1");
    assert(" AND e.kind = 'text'"@ =~= " AND e.kind = '"@ + "text"@ + "'"@);
    assert(" AND e.kind = 'image'"@ =~= " AND e.kind = '"@ + "image"@ + "'"@);
    assert(" AND e.kind = 'file'"@ =~= " AND e.kind = '"@ + "file"@ + "'"@);
    assert(" AND e.kind = 'link'"@ =~= " AND e.kind = '"@ + "link"@ + "'"@);
    assert(" AND e.kind = 'color'"@ =~= " AND e.kind = '"@ + "color"@ + "'"@);
    if filter != other {
        let a = filter_clause(filter);
        let b = filter_clause(other);
        if a.len() == b.len() && a.len() > 15 {
            assert(a[15] != b[15] || a[16] != b[16]);
        }
        assert(a != b) by {
            if a.len() == b.len() && a.len() > 15 {
                if a[15] != b[15] {
                    assert(a[15] != b[15]);
                } else {
                    assert(a[16] != b[16]);
                }
            }
        }
    }
}

/// An `ORDER BY` clause over the given columns, each sorted descending when
/// its flag is set and ascending otherwise.
pub open spec fn order_by(keys: Seq<(Seq<char>, bool)>) -> Seq<char> {
    " ORDER BY "@ + sort_keys_text(keys)
}

/// The sort keys joined with `, `.
pub open spec fn sort_keys_text(keys: Seq<(Seq<char>, bool)>) -> Seq<char>
    decreases keys.len(),
{
    if keys.len() == 0 {
        Seq::empty()
    } else {
        let key = keys.last().0 + if keys.last().1 {
            " DESC"@
        } else {
            " ASC"@
        };
        if keys.len() == 1 {
            key
        } else {
            sort_keys_text(keys.drop_last()) + ", "@ + key
        }
    }
}

/// What each listing order sorts by: the default shows pinned entries first
/// and then the newest; `recent` the newest first; `oldest` the oldest
/// first; `type` groups by kind and `most-used` by use count, each newest
/// first within a group.
pub open spec fn sort_keys(sort: SortMode) -> Seq<(Seq<char>, bool)> {
    let newest = ("e.updated_at"@, true);
    match sort {
        SortMode::Default => seq![("e.pinned"@, true), newest],
        SortMode::Recent => seq![newest],
        SortMode::Oldest => seq![("e.updated_at"@, false)],
        SortMode::Type => seq![("e.kind"@, false), newest],
        SortMode::MostUsed => seq![("e.use_count"@, true), newest],
    }
}

/// Every listing order is the `ORDER BY` clause of its sort keys. In
/// particular `recent` and `oldest` sort the same column in opposite
/// directions, the default order is `recent` with pinned entries first, and
/// no two orders are the same.
pub proof fn lemma_orders_sort_by_their_keys(sort: SortMode, other: SortMode)
    ensures
        order_clause(sort) == order_by(sort_keys(sort)),
        order_clause(SortMode::Default) == " ORDER BY e.pinned DESC, "@ + order_clause(
            SortMode::Recent,
        ).skip(10),
        order_clause(SortMode::Recent).take(order_clause(SortMode::Recent).len() - 4)
            == order_clause(SortMode::Oldest).take(order_clause(SortMode::Oldest).len() - 3),
        order_clause(SortMode::Recent).skip(order_clause(SortMode::Recent).len() - 4) == "DESC"@,
        order_clause(SortMode::Oldest).skip(order_clause(SortMode::Oldest).len() - 3) == "ASC"@,
        sort != other ==> order_clause(sort) != order_clause(other),
{
    reveal_strlit(" ORDER BY ");
    reveal_strlit(" DESC");
    reveal_strlit(" ASC");
    reveal_strlit(", ");
    reveal_strlit("DESC");
    reveal_strlit("ASC");
    reveal_strlit("e.updated_at");
    reveal_strlit("e.pinned");
    reveal_strlit("e.kind");
    reveal_strlit("e.use_count");
    reveal_strlit(" ORDER BY e.pinned DESC, ");
    reveal_strlit(" ORDER BY e.pinned DESC, e.updated_at DESC");
    reveal_strlit(" ORDER BY e.updated_at DESC");
    reveal_strlit(" ORDER BY e.updated_at ASC");
    reveal_strlit(" ORDER BY e.kind ASC, e.updated_at DESC");
    reveal_strlit(" ORDER BY e.use_count DESC, e.updated_at DESC");
    let newest = ("e.updated_at"@, true);
    assert(sort_keys_text(seq![newest]) =~= "e.updated_at DESC"@) by {
        reveal_strlit("e.updated_at DESC");
    }
    assert(seq![("e.pinned"@, true), newest].drop_last() =~= seq![("e.pinned"@, true)]);
    assert(seq![("e.kind"@, false), newest].drop_last() =~= seq![("e.kind"@, false)]);
    assert(seq![("e.use_count"@, true), newest].drop_last() =~= seq![("e.use_count"@, true)]);
    assert(sort_keys_text(seq![("e.pinned"@, true)]) =~= "e.pinned"@ + " DESC"@);
    assert(sort_keys_text(seq![("e.kind"@, false)]) =~= "e.kind"@ + " ASC"@);
    assert(sort_keys_text(sort_keys(SortMode::Default)) =~= "e.pinned"@ + " DESC"@ + ", "@
        + "e.updated_at"@ + " DESC"@);
    assert(sort_keys_text(sort_keys(SortMode::Type)) =~= "e.kind"@ + " ASC"@ + ", "@
        + "e.updated_at"@ + " DESC"@);
    assert(sort_keys_text(seq![("e.use_count"@, true)]) =~= "e.use_count"@ + " DESC"@);
    assert(sort_keys_text(sort_keys(SortMode::MostUsed)) =~= "e.use_count"@ + " DESC"@ + ", "@
        + "e.updated_at"@ + " DESC"@);
    assert(order_by(sort_keys(SortMode::Default)) =~= order_clause(SortMode::Default));
    assert(order_by(sort_keys(SortMode::Recent)) =~= order_clause(SortMode::Recent));
    assert(order_by(sort_keys(SortMode::Oldest)) =~= order_clause(SortMode::Oldest));
    assert(order_by(sort_keys(SortMode::Type)) =~= order_clause(SortMode::Type));
    assert(order_by(sort_keys(SortMode::MostUsed)) =~= order_clause(SortMode::MostUsed));
    assert(order_clause(SortMode::Default) =~= " ORDER BY e.pinned DESC, "@ + order_clause(
        SortMode::Recent,
    ).skip(10));
    assert(order_clause(SortMode::Recent).take(order_clause(SortMode::Recent).len() - 4)
        =~= order_clause(SortMode::Oldest).take(order_clause(SortMode::Oldest).len() - 3));
    assert(order_clause(SortMode::Recent).skip(order_clause(SortMode::Recent).len() - 4) =~= "DESC"@);
    assert(order_clause(SortMode::Oldest).skip(order_clause(SortMode::Oldest).len() - 3) =~= "ASC"@);
    if sort != other {
        let a = order_clause(sort);
        let b = order_clause(other);
        assert(a != b) by {
            if a.len() == b.len() {
                assert(a[12] != b[12] || a[a.len() - 2] != b[b.len() - 2]);
            }
        }
    }
}
} // verus!
