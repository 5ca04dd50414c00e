use rsclip_core::files::{
    normalize_path_or_uri_list, normalize_uri_list, parse_uri_list, uri_list_preview,
    uri_list_title,
};

#[test]
fn parses_lf_and_crlf_uri_lists() {
    let payload = "file:///tmp/a.txt\nfile:///tmp/b.txt\r\nfile:///tmp/c.txt\r\n";
    let files = parse_uri_list(payload);

    assert_eq!(files.len(), 3);
    assert_eq!(files[0].path, "/tmp/a.txt");
    assert_eq!(files[1].path, "/tmp/b.txt");
    assert_eq!(files[2].path, "/tmp/c.txt");
}

#[test]
fn ignores_comments_and_blank_lines() {
    let payload = "\n# copied files\nfile:///tmp/a.txt\n\n# trailing\n";
    let files = parse_uri_list(payload);

    assert_eq!(files.len(), 1);
    assert_eq!(files[0].path, "/tmp/a.txt");
}

#[test]
fn percent_decodes_paths() {
    let payload = "file:///tmp/a%20b%23c.txt\r\n";
    let files = parse_uri_list(payload);

    assert_eq!(files.len(), 1);
    assert_eq!(files[0].path, "/tmp/a b#c.txt");
}

#[test]
fn rejects_non_file_uris() {
    let payload = "https://example.com/a.txt\nfile:///tmp/a.txt\ntrash:///tmp/b.txt\n";
    let files = parse_uri_list(payload);

    assert_eq!(files.len(), 1);
    assert_eq!(files[0].path, "/tmp/a.txt");
}

#[test]
fn normalizes_to_crlf_file_uri_lines() {
    let payload = "# comment\nfile:///tmp/a%20b.txt\nfile:///tmp/c.txt";

    assert_eq!(
        normalize_uri_list(payload),
        "file:///tmp/a%20b.txt\r\nfile:///tmp/c.txt\r\n"
    );
}

#[test]
fn produces_single_and_multi_file_titles() {
    assert_eq!(uri_list_title("file:///tmp/a.txt"), "a.txt");
    assert_eq!(
        uri_list_title("file:///tmp/a.txt\nfile:///tmp/b.txt\nfile:///tmp/c.txt"),
        "a.txt + 2 more"
    );
}

#[test]
fn previews_newline_separated_paths() {
    assert_eq!(
        uri_list_preview("file:///tmp/a.txt\r\nfile:///tmp/b.txt\r\n"),
        "/tmp/a.txt\n/tmp/b.txt"
    );
}

#[test]
fn normalizes_plain_absolute_paths_or_file_uris() {
    assert_eq!(
        normalize_path_or_uri_list("/tmp/a b.txt\nfile:///tmp/c.txt").unwrap(),
        "file:///tmp/a%20b.txt\r\nfile:///tmp/c.txt\r\n"
    );
    assert_eq!(normalize_path_or_uri_list("not a path"), None);
}

#[test]
fn non_utf8_paths_keep_their_exact_uri() {
    let files = parse_uri_list("file:///tmp/a%FFb\r\n");
    assert_eq!(files.len(), 1);
    assert_eq!(files[0].uri, "file:///tmp/a%FFb");
    assert_eq!(files[0].path, "/tmp/a\u{FFFD}b");
    assert_eq!(normalize_uri_list("file:///tmp/a%FFb\n"), "file:///tmp/a%FFb\r\n");
}

#[test]
fn normalizing_a_uri_list_twice_changes_nothing() {
    let payload = "# copied\nfile:///tmp/a%20b.txt\r\n\nfile:///home/u/c\nhttps://example.com/x\n";
    let once = normalize_uri_list(payload);
    assert_eq!(once, "file:///tmp/a%20b.txt\r\nfile:///home/u/c\r\n");
    assert_eq!(normalize_uri_list(&once), once);
    assert_eq!(parse_uri_list(&once), parse_uri_list(payload));
    assert_eq!(normalize_uri_list("https://example.com/x\n"), "");
}
