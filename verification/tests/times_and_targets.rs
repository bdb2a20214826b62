use codex_session_visibility::backups::{backup_db_target, backup_file_target};
use codex_session_visibility::catalog::changed_catalog_rows;
use codex_session_visibility::selection::RepairTargetSelection;
use codex_session_visibility::session_index::{
    plan_sqlite_thread_timestamp_repair, thread_index_query, timestamp_repair_query, timestamp_row_in_range,
    timestamp_update_statement, ThreadTimestampRow,
};
use codex_session_visibility::timestamps::{resolve_target_modified_at_ms, rollout_file_activity_ms, time_in_range};

fn names(v: &[&str]) -> Vec<String> {
    v.iter().map(|s| s.to_string()).collect()
}

fn row(id: &str, updated_at: Option<i64>, updated_at_ms: Option<i64>, activity_ms: Option<i128>) -> ThreadTimestampRow {
    ThreadTimestampRow { id: id.to_string(), updated_at, updated_at_ms, activity_ms }
}

#[test]
fn timestamp_repair_moves_times_that_drift_more_than_a_second() {
    let rows = vec![
        row("a", Some(100), None, Some(200_500)),
        row("b", None, Some(199_500), Some(200_400)),
        row("c", Some(5), Some(5_000), None),
        row("d", None, None, Some(5_000)),
    ];
    let all = RepairTargetSelection::from_inputs(None, None, None).unwrap();
    let updates = plan_sqlite_thread_timestamp_repair(&rows, &all);
    let got: Vec<(String, i64, i64)> =
        updates.iter().map(|u| (u.id.clone(), u.updated_at_seconds, u.updated_at_ms)).collect();
    assert_eq!(got, vec![("a".to_string(), 200, 200_000), ("d".to_string(), 5, 5_000)]);

    let only_a = RepairTargetSelection::from_inputs(None, Some(vec!["a".to_string()]), None).unwrap();
    let updates = plan_sqlite_thread_timestamp_repair(&rows, &only_a);
    assert_eq!(updates.len(), 1);
    assert_eq!(updates[0].id, "a");
}

#[test]
fn timestamp_rows_out_of_range_are_recognized() {
    assert!(timestamp_row_in_range(&row("a", Some(100), None, Some(200_500))));
    assert!(timestamp_row_in_range(&row("a", Some(i64::MAX), None, None)));
    assert!(!timestamp_row_in_range(&row("a", Some(i64::MAX), None, Some(0))));
}

#[test]
fn timestamp_queries_follow_the_columns() {
    let q = timestamp_repair_query(&names(&["id", "rollout_path", "updated_at"])).unwrap();
    assert_eq!(
        q.sql,
        "SELECT id, rollout_path, updated_at, NULL FROM threads WHERE rollout_path IS NOT NULL AND rollout_path <> ''"
    );
    assert!(q.has_updated_at && !q.has_updated_at_ms);
    assert!(timestamp_repair_query(&names(&["id", "rollout_path"])).is_none());
    assert!(timestamp_repair_query(&names(&["id", "updated_at"])).is_none());
    assert_eq!(
        timestamp_update_statement(true, true).as_deref(),
        Some("UPDATE threads SET updated_at = ?1, updated_at_ms = ?2 WHERE id = ?3")
    );
    assert_eq!(
        timestamp_update_statement(false, true).as_deref(),
        Some("UPDATE threads SET updated_at_ms = ?1 WHERE id = ?2")
    );
    assert!(timestamp_update_statement(false, false).is_none());
}

#[test]
fn thread_index_query_fills_missing_columns_with_null() {
    assert_eq!(
        thread_index_query(&names(&["id", "title", "updated_at", "rollout_path"])).as_deref(),
        Some("SELECT id, COALESCE(title, ''), updated_at, NULL, rollout_path FROM threads ORDER BY updated_at DESC")
    );
    assert_eq!(
        thread_index_query(&names(&["id"])).as_deref(),
        Some("SELECT id, '', NULL, NULL, NULL FROM threads ORDER BY id ASC")
    );
    assert!(thread_index_query(&names(&["title"])).is_none());
}

#[test]
fn target_time_prefers_the_index_unless_activity_drifts_an_hour() {
    let base: i128 = 1_700_000_000_000;
    assert_eq!(resolve_target_modified_at_ms(Some(base), Some(base + 3_600_001), Some(1)), Some(base + 3_600_001));
    assert_eq!(resolve_target_modified_at_ms(Some(base), Some(base + 3_600_000), Some(1)), Some(base));
    assert_eq!(resolve_target_modified_at_ms(Some(base), None, Some(1)), Some(base));
    assert_eq!(resolve_target_modified_at_ms(None, Some(5), Some(1)), Some(5));
    assert_eq!(resolve_target_modified_at_ms(None, None, Some(7)), Some(7));
    assert_eq!(resolve_target_modified_at_ms(None, None, None), None);
}

#[test]
fn rollout_activity_is_the_latest_line_time() {
    assert_eq!(rollout_file_activity_ms(&vec![Some(3), None, Some(9), Some(4)]), Some(9));
    assert_eq!(rollout_file_activity_ms(&vec![None, None]), None);
    assert_eq!(rollout_file_activity_ms(&vec![]), None);
    assert!(time_in_range(Some(1_700_000_000_000)));
    assert!(time_in_range(None));
    assert!(!time_in_range(Some(i128::MAX)));
}

#[test]
fn backup_targets_and_catalog_row_counts() {
    assert_eq!(backup_file_target("/b", "sessions/x.jsonl"), "/b/files/sessions/x.jsonl");
    assert_eq!(backup_db_target("/b", "state_5.sqlite"), "/b/db/state_5.sqlite");
    assert_eq!(changed_catalog_rows(5, 8), 3);
    assert_eq!(changed_catalog_rows(8, 5), 0);
}
