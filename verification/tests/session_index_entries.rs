use codex_session_visibility::index_entries::{
    build_session_index_entry_from_thread, build_updated_session_index_entry, parsed_line_id,
    plan_session_index_reconcile, read_session_index_map, rewrite_session_index_lines,
    session_index_checks,
};
use codex_session_visibility::json::{json_equal, JsonValue};
use codex_session_visibility::session_index::{
    count_session_index_entries_to_repair_for_options, IndexedEntry,
};
use codex_session_visibility::timestamps::{
    format_thread_updated_at_iso_ms, parse_rollout_line_timestamp_ms,
    parse_session_index_updated_at_ms, parse_timestamp_ms, SqliteThreadIndexRow,
};

fn text(s: &str) -> JsonValue {
    JsonValue::Text(s.to_string())
}

fn object(members: Vec<(&str, JsonValue)>) -> JsonValue {
    JsonValue::Object(members.into_iter().map(|(k, v)| (k.to_string(), v)).collect())
}

fn row(id: &str, title: &str, updated_at_ms: Option<i64>) -> SqliteThreadIndexRow {
    SqliteThreadIndexRow {
        id: id.to_string(),
        title: title.to_string(),
        updated_at: None,
        updated_at_ms,
        rollout_path: None,
    }
}

const MS: i64 = 1_700_000_000_000;

#[test]
fn index_time_text_has_microsecond_precision() {
    assert_eq!(format_thread_updated_at_iso_ms(Some(MS as i128), 0), "2023-11-14T22:13:20.000000Z");
    assert_eq!(format_thread_updated_at_iso_ms(None, MS), "2023-11-14T22:13:20.000000Z");
    assert_eq!(
        format_thread_updated_at_iso_ms(Some(i128::MAX), MS),
        "2023-11-14T22:13:20.000000Z"
    );
}

#[test]
fn timestamps_parse_integers_rfc3339_and_digit_strings() {
    assert_eq!(parse_timestamp_ms(&JsonValue::Number(Some(1_700_000_000), "1700000000".into())), Some(MS as i128));
    assert_eq!(parse_timestamp_ms(&JsonValue::Number(Some(MS), MS.to_string())), Some(MS as i128));
    assert_eq!(parse_timestamp_ms(&text("2023-11-14T22:13:20Z")), Some(MS as i128));
    assert_eq!(parse_timestamp_ms(&text("1700000000")), Some(MS as i128));
    assert_eq!(parse_timestamp_ms(&text("soon")), None);
    assert_eq!(parse_timestamp_ms(&JsonValue::Number(None, "1.5".into())), None);
    assert_eq!(parse_timestamp_ms(&JsonValue::Null), None);
}

#[test]
fn session_index_time_takes_the_first_member_that_parses() {
    let e = object(vec![("updated_at", text("bad")), ("updatedAt", text("2023-11-14T22:13:20Z"))]);
    assert_eq!(parse_session_index_updated_at_ms(&e), Some(MS as i128));
    let e = object(vec![("lastUpdatedAt", JsonValue::Number(Some(1_700_000_000), "1700000000".into()))]);
    assert_eq!(parse_session_index_updated_at_ms(&e), Some(MS as i128));
    assert_eq!(parse_session_index_updated_at_ms(&text("x")), None);
}

#[test]
fn rollout_line_time_falls_back_to_the_payload() {
    let top = object(vec![("timestamp", text("2023-11-14T22:13:20Z")), ("payload", object(vec![("time", text("1"))]))]);
    assert_eq!(parse_rollout_line_timestamp_ms(&top), Some(MS as i128));
    let nested = object(vec![("type", text("x")), ("payload", object(vec![("createdAt", text("1700000000"))]))]);
    assert_eq!(parse_rollout_line_timestamp_ms(&nested), Some(MS as i128));
    let first_present_wins = object(vec![("timestamp", text("bad")), ("time", text("1700000000"))]);
    assert_eq!(parse_rollout_line_timestamp_ms(&first_present_wins), None);
}

#[test]
fn session_index_map_keeps_the_last_entry_per_id() {
    let lines = vec![
        Some(object(vec![("id", text("a")), ("thread_name", text("x"))])),
        None,
        Some(object(vec![("id", text("a")), ("thread_name", text("y"))])),
        Some(object(vec![("no", text("id"))])),
        Some(object(vec![("id", JsonValue::Number(Some(1), "1".into()))])),
    ];
    let map = read_session_index_map(&lines);
    assert_eq!(map.len(), 1);
    assert_eq!(map[0].0, "a");
    assert!(json_equal(&map[0].1, &object(vec![("id", text("a")), ("thread_name", text("y"))])));
    assert_eq!(parsed_line_id(&lines[0]).as_deref(), Some("a"));
    assert_eq!(parsed_line_id(&lines[1]), None);
    assert_eq!(parsed_line_id(&lines[4]), None);
}

#[test]
fn new_entries_name_blank_titles_untitled() {
    let e = build_session_index_entry_from_thread(&row("t", "  ", Some(MS)), Some(MS as i128), 0);
    assert!(json_equal(
        &e,
        &object(vec![
            ("id", text("t")),
            ("thread_name", text("Untitled")),
            ("updated_at", text("2023-11-14T22:13:20.000000Z")),
        ])
    ));
}

#[test]
fn updated_entries_keep_other_members() {
    let existing = object(vec![("id", text("t")), ("thread_name", text("old")), ("x", JsonValue::Bool(true))]);
    let e = build_updated_session_index_entry(&existing, &row("t", "", None), Some(MS as i128), 0);
    assert!(json_equal(
        &e,
        &object(vec![
            ("id", text("t")),
            ("thread_name", text("old")),
            ("updated_at", text("2023-11-14T22:13:20.000000Z")),
            ("x", JsonValue::Bool(true)),
        ])
    ));
    let e = build_updated_session_index_entry(&text("junk"), &row("t", "New", None), Some(MS as i128), 0);
    assert!(json_equal(
        &e,
        &object(vec![
            ("id", text("t")),
            ("thread_name", text("New")),
            ("updated_at", text("2023-11-14T22:13:20.000000Z")),
        ])
    ));
}

#[test]
fn reconcile_adds_missing_and_refreshes_stale_entries() {
    let index = read_session_index_map(&vec![
        Some(object(vec![("id", text("a")), ("updated_at", text("2023-11-14T22:13:20Z"))])),
        Some(object(vec![("id", text("c")), ("updated_at", text("2020-01-01T00:00:00Z"))])),
    ]);
    let rows = vec![row("a", "A", Some(MS)), row("b", "B", Some(MS)), row("c", "C", Some(MS))];
    let activity = vec![None, None, None];

    let checks = session_index_checks(&index, &rows, &activity);
    assert!(matches!(checks[0].entry, IndexedEntry::Present(Some(_))));
    assert!(matches!(checks[1].entry, IndexedEntry::Missing));
    let scan = count_session_index_entries_to_repair_for_options(&checks, true);
    assert_eq!((scan.entries_to_add, scan.entries_to_update), (1, 1));
    let scan = count_session_index_entries_to_repair_for_options(&checks, false);
    assert_eq!((scan.entries_to_add, scan.entries_to_update), (1, 0));

    let plan = plan_session_index_reconcile(&index, &rows, &activity, true, 0);
    assert_eq!(plan.entries_to_add.len(), 1);
    assert!(json_equal(
        &plan.entries_to_add[0],
        &object(vec![
            ("id", text("b")),
            ("thread_name", text("B")),
            ("updated_at", text("2023-11-14T22:13:20.000000Z")),
        ])
    ));
    assert_eq!(plan.entries_to_update.len(), 1);
    assert_eq!(plan.entries_to_update[0].0, "c");
    assert!(json_equal(
        &plan.entries_to_update[0].1,
        &object(vec![
            ("id", text("c")),
            ("thread_name", text("C")),
            ("updated_at", text("2023-11-14T22:13:20.000000Z")),
        ])
    ));

    let plan = plan_session_index_reconcile(&index, &rows, &activity, false, 0);
    assert!(plan.entries_to_update.is_empty());
}

#[test]
fn index_lines_are_rewritten_in_place_and_appended() {
    let lines = vec![
        r#"{"id":"a"}"#.to_string(),
        r#"{"id":"c"}"#.to_string(),
        "".to_string(),
        "   ".to_string(),
    ];
    let parsed = vec![
        Some(object(vec![("id", text("a"))])),
        Some(object(vec![("id", text("c"))])),
        None,
        None,
    ];
    let updates = vec![("c".to_string(), "C2".to_string()), ("z".to_string(), "Z".to_string())];
    let additions = vec!["B".to_string()];
    let (content, updated) = rewrite_session_index_lines(&lines, &parsed, &updates, &additions);
    assert_eq!(content, "{\"id\":\"a\"}\nC2\nB\n");
    assert_eq!(updated, 1);

    let (content, updated) = rewrite_session_index_lines(&vec![], &vec![], &vec![], &vec!["X".to_string()]);
    assert_eq!(content, "X\n");
    assert_eq!(updated, 0);
}
