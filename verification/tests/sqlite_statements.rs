use codex_session_visibility::referenced::{
    collect_referenced_rollout_paths_for_db, collect_sqlite_cwd_normalizations,
    cwd_select_statement, referenced_rollouts_query, ReferencedRolloutRow, RolloutCandidate,
};
use codex_session_visibility::selection::RepairTargetSelection;
use codex_session_visibility::threads_sql::{
    build_threads_repair_set_clause, build_threads_repair_where_clause,
    collect_eligible_thread_ids_for_repair, format_sqlite_open_error, format_sqlite_read_error,
    format_sqlite_write_error, is_missing_threads_table_error, provider_repair_strategy,
    read_threads_table_columns, sqlite_provider_ids_query, sqlite_text_expr, sqlite_time_expr,
    table_info_query, thread_fact_statement, threads_repair_statement, ProviderRepairStrategy,
    ThreadFactStatement, ThreadsRepairStatement,
};

fn names(v: &[&str]) -> Vec<String> {
    v.iter().map(|s| s.to_string()).collect()
}

fn all_sessions() -> RepairTargetSelection {
    RepairTargetSelection::from_inputs(None, None, None).unwrap()
}

#[test]
fn provider_only_schema_repairs_by_provider_alone() {
    let columns = read_threads_table_columns(&names(&["id", "model_provider"])).unwrap();
    assert!(columns.id && columns.model_provider && !columns.preview);
    assert_eq!(
        build_threads_repair_where_clause(columns, false).as_deref(),
        Some("(COALESCE(model_provider, '') <> ?1)")
    );
    assert_eq!(
        build_threads_repair_where_clause(columns, true).as_deref(),
        Some("(COALESCE(model_provider, '') <> ?1)")
    );
    assert_eq!(build_threads_repair_set_clause(columns), "model_provider = ?1");
    assert!(read_threads_table_columns(&vec![]).is_none());
}

#[test]
fn full_schema_sidebar_clause_lists_every_condition() {
    let columns = read_threads_table_columns(&names(&[
        "id", "model_provider", "has_user_event", "first_user_message", "thread_source", "cwd",
        "archived", "preview", "rollout_path", "source",
    ]))
    .unwrap();
    let expected = "(COALESCE(model_provider, '') <> ?1 OR (COALESCE(first_user_message, '') <> '' AND COALESCE(has_user_event, 0) <> 1) OR (COALESCE(first_user_message, '') <> '' AND COALESCE(thread_source, '') = '') OR (COALESCE(preview, '') = '' AND COALESCE(first_user_message, '') <> '')) AND (COALESCE(archived, 0) = 0 AND (COALESCE(preview, '') <> '' OR COALESCE(first_user_message, '') <> '') AND COALESCE(rollout_path, '') <> '' AND LOWER(COALESCE(source, '')) NOT LIKE '%subagent%' AND LOWER(COALESCE(source, '')) NOT LIKE '%internal%' AND COALESCE(thread_source, '') <> 'ambient_suggestions')";
    assert_eq!(build_threads_repair_where_clause(columns, true).as_deref(), Some(expected));
    assert_eq!(
        build_threads_repair_set_clause(columns),
        "model_provider = ?1, has_user_event = CASE WHEN COALESCE(first_user_message, '') <> '' THEN 1 ELSE has_user_event END, thread_source = CASE WHEN COALESCE(thread_source, '') = '' AND COALESCE(first_user_message, '') <> '' THEN 'user' ELSE thread_source END, preview = CASE WHEN COALESCE(preview, '') = '' THEN first_user_message ELSE preview END"
    );
}

#[test]
fn table_without_repair_columns_has_no_clause() {
    let columns = read_threads_table_columns(&names(&["id", "title"])).unwrap();
    assert_eq!(build_threads_repair_where_clause(columns, true), None);
    assert_eq!(build_threads_repair_set_clause(columns), "");
}

#[test]
fn repair_statements_place_the_thread_id_after_the_provider() {
    assert_eq!(
        threads_repair_statement(ThreadsRepairStatement::CountOne, "W", "S", true),
        "SELECT COUNT(*) FROM threads WHERE (W) AND id = ?2"
    );
    assert_eq!(
        threads_repair_statement(ThreadsRepairStatement::UpdateOne, "W", "S", false),
        "UPDATE threads SET S WHERE (W) AND id = ?1"
    );
    assert_eq!(threads_repair_statement(ThreadsRepairStatement::UpdatePicked, "W", "S", true), "UPDATE threads SET S WHERE id = ?2");
    assert_eq!(threads_repair_statement(ThreadsRepairStatement::CountAll, "W", "S", true), "SELECT COUNT(*) FROM threads WHERE W");
    assert_eq!(threads_repair_statement(ThreadsRepairStatement::UpdateAll, "W", "S", true), "UPDATE threads SET S WHERE W");
    assert_eq!(threads_repair_statement(ThreadsRepairStatement::SelectIds, "W", "S", true), "SELECT id FROM threads WHERE W");
}

#[test]
fn repair_strategy_prefers_facts_then_sessions() {
    assert_eq!(provider_repair_strategy(false, true, true), ProviderRepairStrategy::Skip);
    assert_eq!(provider_repair_strategy(true, true, true), ProviderRepairStrategy::PickedThreads);
    assert_eq!(provider_repair_strategy(true, false, true), ProviderRepairStrategy::SelectedSessions);
    assert_eq!(provider_repair_strategy(true, false, false), ProviderRepairStrategy::AllRows);
}

#[test]
fn eligible_threads_skip_subagents_and_unselected_sessions() {
    let columns = read_threads_table_columns(&names(&["id", "model_provider"])).unwrap();
    let selection = RepairTargetSelection::from_inputs(None, Some(names(&["a", "b", "c"])), None).unwrap();
    let ids = collect_eligible_thread_ids_for_repair(columns, &names(&["a", "b", "d", "c"]), &selection, &names(&["b"]));
    assert_eq!(ids, names(&["a", "c"]));
    let no_id = read_threads_table_columns(&names(&["model_provider"])).unwrap();
    assert!(collect_eligible_thread_ids_for_repair(no_id, &names(&["a"]), &all_sessions(), &vec![]).is_empty());
}

#[test]
fn fact_statements_and_queries() {
    assert_eq!(
        thread_fact_statement(ThreadFactStatement::UpdateCwd),
        "UPDATE threads SET cwd = ?1 WHERE id = ?2 AND COALESCE(cwd, '') <> ?1"
    );
    assert_eq!(
        thread_fact_statement(ThreadFactStatement::CountUserEvent),
        "SELECT COUNT(*) FROM threads WHERE id = ?1 AND COALESCE(has_user_event, 0) <> 1"
    );
    assert_eq!(
        sqlite_provider_ids_query("threads"),
        "SELECT DISTINCT model_provider FROM threads WHERE COALESCE(model_provider, '') <> ''"
    );
    assert_eq!(table_info_query("a\"b"), "PRAGMA table_info(\"a\"\"b\")");
    assert_eq!(cwd_select_statement(), "SELECT id, cwd FROM threads WHERE COALESCE(cwd, '') <> ''");
}

#[test]
fn text_and_time_expressions_fall_back_when_columns_are_missing() {
    let cols = names(&["title", "updated_at"]);
    assert_eq!(sqlite_text_expr(&cols, "title", "''"), "COALESCE(title, '')");
    assert_eq!(sqlite_text_expr(&cols, "cwd", "''"), "''");
    assert_eq!(
        sqlite_time_expr(&cols, "updated_at", "updated_at_ms"),
        "CASE WHEN COALESCE(updated_at, 0) > 9999999999 THEN updated_at / 1000.0 ELSE COALESCE(updated_at, 0) END"
    );
    assert_eq!(
        sqlite_time_expr(&names(&["updated_at_ms"]), "updated_at", "updated_at_ms"),
        "COALESCE(updated_at_ms / 1000.0, 0)"
    );
    assert_eq!(sqlite_time_expr(&vec![], "updated_at", "updated_at_ms"), "0");
}

#[test]
fn database_error_texts() {
    assert!(is_missing_threads_table_error("No such table: threads"));
    assert!(!is_missing_threads_table_error("no such table: thread_spawn_edges"));
    assert_eq!(format_sqlite_read_error("/db", "读取失败", "boom"), "读取失败 (/db): boom");
    assert_eq!(
        format_sqlite_write_error("/db", "Database is locked"),
        "Codex SQLite 会话库当前被占用，请关闭 Codex / Codex App 后重试 (/db): Database is locked"
    );
    assert_eq!(format_sqlite_write_error("/db", "disk full"), "更新 SQLite 会话可见性失败 (/db): disk full");
    assert_eq!(format_sqlite_open_error("/db", "bad"), "打开实例数据库失败 (/db): bad");
}

#[test]
fn referenced_rollout_query_for_sidebar_rows() {
    let cols = names(&[
        "id", "rollout_path", "updated_at", "model_provider", "archived", "preview",
        "first_user_message", "source", "thread_source",
    ]);
    let q = referenced_rollouts_query(&cols, true).unwrap();
    assert!(q.binds_provider);
    assert_eq!(
        q.sql,
        "SELECT id, rollout_path, updated_at, NULL FROM threads WHERE rollout_path IS NOT NULL AND rollout_path <> '' AND (?1 IS NULL OR COALESCE(model_provider, '') <> ?1) AND COALESCE(archived, 0) = 0 AND (COALESCE(preview, '') <> '' OR COALESCE(first_user_message, '') <> '') AND LOWER(COALESCE(source, '')) NOT LIKE '%subagent%' AND LOWER(COALESCE(source, '')) NOT LIKE '%internal%' AND COALESCE(thread_source, '') <> 'ambient_suggestions'"
    );
    let q = referenced_rollouts_query(&cols, false).unwrap();
    assert!(!q.binds_provider);
    assert_eq!(
        q.sql,
        "SELECT id, rollout_path, updated_at, NULL FROM threads WHERE rollout_path IS NOT NULL AND rollout_path <> '' AND ?1 IS NULL"
    );
    assert!(referenced_rollouts_query(&names(&["rollout_path"]), true).is_none());
}

#[test]
fn referenced_rollouts_merge_into_one_candidate_per_file() {
    let selection = RepairTargetSelection::from_inputs(None, Some(names(&["t1", "t2", "t3", "t5"])), None).unwrap();
    let rows = vec![
        ReferencedRolloutRow { thread_id: "t1".into(), rollout_path: "sessions/a.jsonl".into(), updated_at: Some(10), updated_at_ms: None },
        ReferencedRolloutRow { thread_id: "t2".into(), rollout_path: " sessions/a.jsonl ".into(), updated_at: None, updated_at_ms: Some(5) },
        ReferencedRolloutRow { thread_id: "t3".into(), rollout_path: "/abs/b.jsonl".into(), updated_at: None, updated_at_ms: None },
        ReferencedRolloutRow { thread_id: "t4".into(), rollout_path: "/abs/c.jsonl".into(), updated_at: None, updated_at_ms: Some(1) },
    ];
    let mut candidates: Vec<RolloutCandidate> = Vec::new();
    collect_referenced_rollout_paths_for_db("/data", &rows, &selection, &mut candidates);
    let seen: Vec<(String, Option<i128>)> = candidates.iter().map(|c| (c.path.clone(), c.target_modified_ms)).collect();
    assert_eq!(
        seen,
        vec![("/data/sessions/a.jsonl".to_string(), Some(10_000)), ("/abs/b.jsonl".to_string(), None)]
    );
    let more = vec![ReferencedRolloutRow { thread_id: "t5".into(), rollout_path: r"\\?\/abs/b.jsonl".into(), updated_at: None, updated_at_ms: Some(7) }];
    collect_referenced_rollout_paths_for_db("/data", &more, &selection, &mut candidates);
    assert_eq!(candidates.len(), 2);
    assert_eq!(candidates[1].target_modified_ms, Some(7));
}

#[test]
fn windows_extended_cwds_are_normalized_for_selected_threads() {
    let rows = vec![
        ("drive".to_string(), r"\\?\D:\Andrew\Code\pxread\".to_string()),
        ("unc".to_string(), r"\\?\UNC\server\share\repo\".to_string()),
        ("posix".to_string(), "/Users/demo/project/".to_string()),
        ("ok".to_string(), r"C:\ok".to_string()),
    ];
    let out = collect_sqlite_cwd_normalizations(&rows, &all_sessions());
    assert_eq!(
        out,
        vec![
            ("drive".to_string(), r"D:\Andrew\Code\pxread".to_string()),
            ("unc".to_string(), r"\\server\share\repo".to_string()),
        ]
    );
    let only_unc = RepairTargetSelection::from_inputs(None, Some(names(&["unc"])), None).unwrap();
    assert_eq!(collect_sqlite_cwd_normalizations(&rows, &only_unc).len(), 1);
}
