use rsclip_core::db::{
    add_column_sql, cleanup_cutoff, count_entries_sql, data_columns, entry_filter_clause,
    entry_from_row, entry_order, has_column, list_entries_sql, list_params, recent_cutoff,
    row_count, schema_columns, search_pattern, table_info_sql, upsert_params, DataColumns,
    EntryRow, SqlValue, COUNT_SQL_HEAD, FULL_ENTRY_COLUMNS, LIST_SQL_FROM, LIST_SQL_HEAD,
    SEARCH_CLAUSE, SUMMARY_ENTRY_COLUMNS, SUMMARY_TEXT_LIMIT_CHARS, UPSERT_ENTRY_SQL,
};
use rsclip_core::models::{
    EntryData, EntryFilter, EntryKind, NewEntry, NewEntryData, SortMode,
};

fn text(s: &str) -> SqlValue {
    SqlValue::Text(s.to_string())
}

fn no_columns() -> DataColumns {
    DataColumns {
        file_path: None,
        thumb_path: None,
        source_app: None,
        link_url: None,
        link_domain: None,
        link_icon: None,
        color_value: None,
        color_format: None,
    }
}

fn row(kind: &str, columns: DataColumns, ocr_text: Option<&str>) -> EntryRow {
    EntryRow {
        id: 7,
        content_hash: "hash".to_string(),
        kind: kind.to_string(),
        mime_type: "text/plain".to_string(),
        title: "title".to_string(),
        preview_text: Some("preview".to_string()),
        text_content: None,
        columns,
        pinned: true,
        copied_at: 1,
        updated_at: 2,
        last_used_at: Some(3),
        use_count: 4,
        size_bytes: 5,
        ocr_text: ocr_text.map(|s| s.to_string()),
    }
}

#[test]
fn link_entries_bind_their_parts() {
    let mut entry = NewEntry::new("h".into(), "text/plain".into(), "t".into());
    entry.text_content = Some("https://example.com".into());
    entry.size_bytes = 19;
    entry.data = NewEntryData::Link {
        url: "https://example.com".into(),
        domain: "example.com".into(),
        icon: "link".into(),
    };
    let params = upsert_params(&entry, 1_700_000_000);
    assert_eq!(
        params,
        vec![
            text("h"),
            text("link"),
            text("text/plain"),
            text("t"),
            SqlValue::Null,
            text("https://example.com"),
            SqlValue::Null,
            SqlValue::Null,
            SqlValue::Null,
            text("https://example.com"),
            text("example.com"),
            text("link"),
            SqlValue::Null,
            SqlValue::Null,
            SqlValue::Integer(1_700_000_000),
            SqlValue::Integer(1_700_000_000),
            SqlValue::Integer(19),
        ]
    );
    assert_eq!(UPSERT_ENTRY_SQL.matches('?').count(), 17);
}

#[test]
fn image_ocr_text_is_not_a_column() {
    let data = NewEntryData::Image {
        file_path: Some("/tmp/a.png".into()),
        thumb_path: None,
        ocr_text: Some("words".into()),
    };
    let c = data_columns(&data);
    assert_eq!(c.file_path.as_deref(), Some("/tmp/a.png"));
    assert!(c.thumb_path.is_none() && c.link_url.is_none() && c.color_value.is_none());
}

#[test]
fn rows_read_back_by_kind() {
    let mut c = no_columns();
    c.file_path = Some("/tmp/a.png".into());
    let e = entry_from_row(&row("image", c, Some("ocr")));
    assert_eq!(e.kind, EntryKind::Image);
    assert!(matches!(
        e.data,
        EntryData::Image { ref file_path, thumb_path: None, ocr_text: Some(ref o) }
            if file_path == "/tmp/a.png" && o == "ocr"
    ));
    assert_eq!((e.id, e.pinned, e.copied_at, e.updated_at), (7, true, 1, 2));
    assert_eq!((e.last_used_at, e.use_count, e.size_bytes), (Some(3), 4, 5));
    assert_eq!(e.preview_text.as_deref(), Some("preview"));

    let mut c = no_columns();
    c.color_value = Some("#ffffff".into());
    let e = entry_from_row(&row("color", c, None));
    assert!(matches!(e.data, EntryData::Color { ref value, ref format } if value == "#ffffff" && format.is_empty()));

    let e = entry_from_row(&row("something-else", no_columns(), None));
    assert_eq!(e.kind, EntryKind::Unknown);
    assert!(matches!(e.data, EntryData::Unknown));

    let e = entry_from_row(&row("text", no_columns(), None));
    assert!(matches!(e.data, EntryData::Text));
}

#[test]
fn written_entries_read_back_as_written() {
    let datas = vec![
        NewEntryData::Text,
        NewEntryData::Image { file_path: None, thumb_path: Some("/t.png".into()), ocr_text: None },
        NewEntryData::Link { url: "u".into(), domain: "d".into(), icon: "i".into() },
        NewEntryData::Color { value: "#000000".into(), format: "hex".into() },
        NewEntryData::File { source_app: Some("files".into()) },
        NewEntryData::Unknown,
    ];
    for data in datas {
        let kind = data.kind();
        let e = entry_from_row(&row(kind.as_str(), data_columns(&data), None));
        assert_eq!(e.kind, kind);
        match (&data, &e.data) {
            (NewEntryData::Text, EntryData::Text) | (NewEntryData::Unknown, EntryData::Unknown) => {}
            (NewEntryData::Image { thumb_path, .. }, EntryData::Image { file_path, thumb_path: t, ocr_text }) => {
                assert_eq!(file_path, "");
                assert_eq!(t, thumb_path);
                assert!(ocr_text.is_none());
            }
            (NewEntryData::Link { url, domain, icon }, EntryData::Link { url: u, domain: d, icon: i }) => {
                assert_eq!((url, domain, icon), (u, d, i));
            }
            (NewEntryData::Color { value, format }, EntryData::Color { value: v, format: f }) => {
                assert_eq!((value, format), (v, f));
            }
            (NewEntryData::File { source_app }, EntryData::File { source_app: s }) => {
                assert_eq!(source_app, s);
            }
            other => panic!("mismatch {other:?}"),
        }
    }
}

#[test]
fn listing_sql_is_assembled_in_order() {
    let sql = list_entries_sql(EntryFilter::Links, SortMode::MostUsed, true, false);
    let expected = format!(
        "{LIST_SQL_HEAD}{SUMMARY_ENTRY_COLUMNS}{LIST_SQL_FROM} AND e.kind = 'link'{SEARCH_CLAUSE} ORDER BY e.use_count DESC, e.updated_at DESC LIMIT ?2 OFFSET ?3"
    );
    assert_eq!(sql, expected);
    let sql = list_entries_sql(EntryFilter::All, SortMode::Default, false, true);
    let expected = format!(
        "{LIST_SQL_HEAD}{FULL_ENTRY_COLUMNS}{LIST_SQL_FROM} ORDER BY e.pinned DESC, e.updated_at DESC LIMIT ?1 OFFSET ?2"
    );
    assert_eq!(sql, expected);
    assert!(SUMMARY_ENTRY_COLUMNS.contains(&format!("substr(e.title, 1, {SUMMARY_TEXT_LIMIT_CHARS})")));
    assert_eq!(
        count_entries_sql(EntryFilter::Pinned, false),
        format!("{COUNT_SQL_HEAD} AND e.pinned = 1")
    );
}

#[test]
fn filter_and_order_clauses() {
    assert_eq!(entry_filter_clause(EntryFilter::All), "");
    assert_eq!(entry_filter_clause(EntryFilter::Images), " AND e.kind = 'image'");
    assert_eq!(entry_order(SortMode::Oldest), " ORDER BY e.updated_at ASC");
    assert_eq!(entry_order(SortMode::Type), " ORDER BY e.kind ASC, e.updated_at DESC");
}

#[test]
fn search_patterns_and_parameters() {
    assert_eq!(search_pattern("   "), None);
    assert_eq!(search_pattern("  needle "), Some("%needle%".to_string()));
    let p = search_pattern("x");
    assert_eq!(
        list_params(&p, 20, 40),
        vec![text("%x%"), SqlValue::Integer(20), SqlValue::Integer(40)]
    );
    assert_eq!(list_params(&None, 20, 0), vec![SqlValue::Integer(20), SqlValue::Integer(0)]);
}

#[test]
fn counts_and_cutoffs() {
    assert_eq!(row_count(-5), 0);
    assert_eq!(row_count(12), 12);
    assert_eq!(cleanup_cutoff(1_000_000, 0), None);
    assert_eq!(cleanup_cutoff(1_000_000, 2), Some(1_000_000 - 2 * 86_400));
    assert_eq!(recent_cutoff(100, 5), 95);
    assert_eq!(recent_cutoff(100, -5), 100);
}

#[test]
fn migration_statements() {
    assert_eq!(table_info_sql("entries"), "PRAGMA table_info(entries)");
    assert_eq!(
        add_column_sql("entries", "pinned", "INTEGER NOT NULL DEFAULT 0"),
        "ALTER TABLE entries ADD COLUMN pinned INTEGER NOT NULL DEFAULT 0"
    );
    let names = vec!["id".to_string(), "title".to_string()];
    assert!(has_column(&names, "title"));
    assert!(!has_column(&names, "pinned"));
    let columns = schema_columns();
    assert_eq!(columns.len(), 18);
    assert_eq!(columns[0].column, "file_path");
    assert_eq!(columns[17].table, "secrets");
}
