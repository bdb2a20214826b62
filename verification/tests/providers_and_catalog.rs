use codex_session_visibility::backups::{
    backup_dir_name, backup_manifest_json, parse_session_visibility_repair_backup_timestamp,
    portable_relative_path, prune_instance_session_visibility_repair_backups, BackupManifest,
    InstanceDirEntry,
};
use codex_session_visibility::catalog::{
    catalog_candidates_query, catalog_has_required_columns, catalog_insert_column_list,
    catalog_insert_statement, catalog_statement, catalog_update_statement,
    collect_catalog_thread_records, collect_non_root_thread_ids, local_catalog_host_id,
    local_catalog_host_query, sync_state_insert_statement, sync_state_update_statement,
    CatalogStatement, CatalogThreadCandidate, SyncStateValue, ThreadKindRow,
};
use codex_session_visibility::facts::RolloutThreadFacts;
use codex_session_visibility::json::{json_equal, JsonValue};
use codex_session_visibility::paths::{
    is_plain_rollout_file, is_sqlite_candidate, join_path, official_state_db_candidate_paths,
    order_sqlite_dir_session_dbs, relative_to_instance_root, resolve_rollout_path, sqlite_sidecar_paths,
};
use codex_session_visibility::providers::{
    list_configured_provider_ids, list_session_visibility_repair_instances,
    list_session_visibility_repair_providers, read_history_visibility_provider_for_dir,
    read_target_provider, resolve_session_visibility_target_provider_from_instance_id,
    CodexConfigProviders, CodexConfigRead, CodexSessionVisibilityRepairProviderSource,
    InstanceProviderSources,
};
use codex_session_visibility::requests::{
    collect_instances, is_instance_running, repair_session_visibility_across_instances,
    repair_session_visibility_across_instances_with_options,
    repair_session_visibility_across_instances_with_target, repair_session_visibility_quick_for_instance,
    StoredCodexInstance,
};
use codex_session_visibility::modes::CodexSessionVisibilityRepairMode;
use codex_session_visibility::run::CodexSyncInstance;
use codex_session_visibility::selection::{validate_provider_id, RepairTargetSelection};

fn names(v: &[&str]) -> Vec<String> {
    v.iter().map(|s| s.to_string()).collect()
}

fn loaded(model_provider: Option<&str>, ids: &[&str]) -> CodexConfigRead {
    CodexConfigRead::Loaded(
        "model_provider = \"x\"".to_string(),
        Ok(CodexConfigProviders { model_provider: model_provider.map(|s| s.to_string()), model_provider_ids: names(ids) }),
    )
}

fn instance(id: &str) -> CodexSyncInstance {
    CodexSyncInstance { id: id.to_string(), name: format!("{id} name"), data_dir: format!("/data/{id}"), last_pid: Some(7) }
}

#[test]
fn config_selects_the_target_provider() {
    assert_eq!(read_target_provider("/c", &CodexConfigRead::Missing), Ok("openai".to_string()));
    assert_eq!(read_target_provider("/c", &loaded(Some("  relay "), &[])), Ok("relay".to_string()));
    assert_eq!(read_target_provider("/c", &loaded(Some(" "), &[])), Ok("openai".to_string()));
    assert_eq!(read_target_provider("/c", &CodexConfigRead::Loaded("  \n".to_string(), Err("bad".to_string()))), Ok("openai".to_string()));
    assert_eq!(
        read_target_provider("/c", &CodexConfigRead::Loaded("x".to_string(), Err("bad".to_string()))),
        Err("解析 config.toml 失败 (/c): bad".to_string())
    );
    assert_eq!(
        read_target_provider("/c", &CodexConfigRead::ReadFailed("denied".to_string())),
        Err("读取 config.toml 失败 (/c): denied".to_string())
    );
}

#[test]
fn relay_base_url_keeps_history_on_the_builtin_provider() {
    let config = CodexConfigRead::Loaded(
        "openai_base_url = \"https://relay.example.com/v1\"\n".to_string(),
        Ok(CodexConfigProviders { model_provider: None, model_provider_ids: vec![] }),
    );
    assert_eq!(read_history_visibility_provider_for_dir("/c", &config), Ok("openai".to_string()));
}

#[test]
fn configured_provider_ids_are_sorted_and_distinct() {
    assert_eq!(list_configured_provider_ids("/c", &loaded(Some("relay"), &["alt", " relay "])), Ok(names(&["alt", "relay"])));
    assert_eq!(list_configured_provider_ids("/c", &CodexConfigRead::Missing), Ok(names(&["openai"])));
    assert_eq!(list_configured_provider_ids("/c", &loaded(None, &[])), Ok(names(&["openai"])));
}

#[test]
fn provider_list_puts_the_default_first() {
    let sources = vec![InstanceProviderSources {
        configured: Ok(names(&["alt", "relay"])),
        sqlite: vec![Ok(names(&["legacy", "relay"])), Err("locked".to_string())],
    }];
    let list = list_session_visibility_repair_providers(&Some(Ok("relay".to_string())), &sources).unwrap();
    assert_eq!(list.default_provider, "relay");
    let ids: Vec<&str> = list.providers.iter().map(|p| p.id.as_str()).collect();
    assert_eq!(ids, vec!["relay", "alt", "legacy"]);
    assert!(list.providers[0].is_default);
    assert_eq!(
        list.providers[0].sources,
        vec![CodexSessionVisibilityRepairProviderSource::Config, CodexSessionVisibilityRepairProviderSource::Sqlite]
    );
    assert_eq!(list.providers[2].sources, vec![CodexSessionVisibilityRepairProviderSource::Sqlite]);
    assert_eq!(
        list_session_visibility_repair_providers(&Some(Err("bad config".to_string())), &sources).err().as_deref(),
        Some("bad config")
    );
    let none = list_session_visibility_repair_providers(&None, &vec![]).unwrap();
    assert_eq!(none.default_provider, "openai");
    assert_eq!(none.providers.len(), 1);
}

#[test]
fn instances_are_listed_with_provider_and_state() {
    let instances = vec![instance("__default__"), instance("work")];
    let list = list_session_visibility_repair_instances(&instances, |i| Ok(format!("p-{}", i.id)), |i| i.id == "work").unwrap();
    assert_eq!(list.default_instance_id, "__default__");
    assert!(list.instances[0].is_default && !list.instances[1].is_default);
    assert_eq!(list.instances[1].current_provider, "p-work");
    assert!(list.instances[1].running && !list.instances[0].running);
    let failed = list_session_visibility_repair_instances(&instances, |_| Err("no config".to_string()), |_| false);
    assert_eq!(failed.err().as_deref(), Some("no config"));
}

#[test]
fn target_provider_from_instance_id() {
    let instances = vec![instance("a"), instance("b")];
    let read = |i: &CodexSyncInstance| Ok(format!("p-{}", i.id));
    assert_eq!(resolve_session_visibility_target_provider_from_instance_id(" b ", &instances, read), Ok("p-b".to_string()));
    assert_eq!(resolve_session_visibility_target_provider_from_instance_id("  ", &instances, read), Err("目标实例不能为空".to_string()));
    assert_eq!(resolve_session_visibility_target_provider_from_instance_id("c", &instances, read), Err("目标实例不存在: c".to_string()));
}

#[test]
fn provider_ids_are_validated() {
    assert_eq!(validate_provider_id("relay"), Ok(()));
    assert_eq!(validate_provider_id("   "), Err("provider 不能为空".to_string()));
    assert_eq!(validate_provider_id("a\u{7}b"), Err("provider 包含非法字符".to_string()));
    assert_eq!(validate_provider_id(&"x".repeat(201)), Err("provider 包含非法字符".to_string()));
    assert_eq!(validate_provider_id(&"x".repeat(200)), Ok(()));
}

#[test]
fn selections_trim_and_limit_ids() {
    let s = RepairTargetSelection::from_inputs(Some("  relay ".to_string()), Some(names(&[" t1 ", "", "t1"])), Some(vec![])).unwrap();
    assert_eq!(s.target_provider.as_deref(), Some("relay"));
    assert!(s.includes_session_id("t1") && !s.includes_session_id("t2"));
    assert!(s.has_session_filter());
    assert!(s.includes_instance_id("anything"));
    assert_eq!(s.session_ids().map(|v| v.len()), Some(1));
    assert!(RepairTargetSelection::from_inputs(Some("bad\u{1}".to_string()), None, None).is_err());
    let blank = RepairTargetSelection::from_inputs(Some(" ".to_string()), None, None).unwrap();
    assert_eq!(blank.target_provider, None);
    assert_eq!(blank.target_provider_for(|| Ok("cfg".to_string())), Ok("cfg".to_string()));
    assert_eq!(s.target_provider_for(|| Ok("cfg".to_string())), Ok("relay".to_string()));
}

#[test]
fn requests_pick_their_instances() {
    let discovered = vec![instance("a"), instance("b")];
    let all = repair_session_visibility_across_instances();
    assert_eq!(all.options.mode, CodexSessionVisibilityRepairMode::Quick);
    assert_eq!(repair_session_visibility_across_instances_with_options(&all, &discovered).len(), 2);
    let only_b = repair_session_visibility_across_instances_with_target(
        CodexSessionVisibilityRepairMode::Deep, None, None, None, Some(names(&["b"])), true,
    ).unwrap();
    assert!(only_b.options.dry_run);
    let picked = repair_session_visibility_across_instances_with_options(&only_b, &discovered);
    assert_eq!(picked.len(), 1);
    assert_eq!(picked[0].id, "b");
    let launch = repair_session_visibility_quick_for_instance("target-instance", "Target instance", "/t");
    let picked = repair_session_visibility_across_instances_with_options(&launch, &discovered);
    assert_eq!(picked.len(), 1);
    assert_eq!(picked[0].data_dir, "/t");
    assert!(repair_session_visibility_across_instances_with_target(
        CodexSessionVisibilityRepairMode::Quick, None, Some("\u{0}".to_string()), None, None, false
    ).is_err());
}

#[test]
fn stored_instances_without_a_directory_are_skipped() {
    let stored = vec![
        StoredCodexInstance { id: "a".into(), name: "A".into(), user_data_dir: " /a ".into(), last_pid: Some(3) },
        StoredCodexInstance { id: "b".into(), name: "B".into(), user_data_dir: "  ".into(), last_pid: None },
    ];
    let all = collect_instances("/home/.codex", None, &stored);
    assert_eq!(all.len(), 2);
    assert_eq!(all[0].id, "__default__");
    assert_eq!(all[0].name, "默认实例");
    assert_eq!(all[1].data_dir, "/a");
    assert_eq!(all[1].last_pid, Some(3));
}

#[test]
fn running_check_matches_on_the_codex_home() {
    assert!(is_instance_running(&instance("work"), |pid, home| pid == Some(7) && home.as_deref() == Some("/data/work")));
    assert!(is_instance_running(&instance("__default__"), |_, home| home.is_none()));
}

#[test]
fn backup_names_and_pruning_keep_the_newest() {
    assert_eq!(backup_dir_name("20240102-030405"), "backup-20240102-030405-session-visibility-repair");
    assert_eq!(
        parse_session_visibility_repair_backup_timestamp("backup-20240102-030405-session-visibility-repair").as_deref(),
        Some("20240102-030405")
    );
    assert_eq!(parse_session_visibility_repair_backup_timestamp("backup-2024-session-visibility-repair"), None);
    assert_eq!(parse_session_visibility_repair_backup_timestamp("backup-20240102x030405-session-visibility-repair"), None);
    let entries = vec![
        InstanceDirEntry { name: "backup-20240101-000000-session-visibility-repair".into(), path: "/i/old".into() },
        InstanceDirEntry { name: "sessions".into(), path: "/i/sessions".into() },
        InstanceDirEntry { name: "backup-20240301-000000-session-visibility-repair".into(), path: "/i/new".into() },
        InstanceDirEntry { name: "backup-20240201-000000-session-visibility-repair".into(), path: "/i/mid".into() },
    ];
    assert_eq!(prune_instance_session_visibility_repair_backups(&entries), names(&["/i/mid", "/i/old"]));
    assert!(prune_instance_session_visibility_repair_backups(&entries[..2].to_vec()).is_empty());
}

#[test]
fn backup_manifest_lists_what_was_saved() {
    assert_eq!(portable_relative_path(r"sqlite\state_5.sqlite"), "sqlite/state_5.sqlite");
    let m = BackupManifest {
        instance_id: "i".into(),
        instance_root: "/data".into(),
        target_provider: "relay".into(),
        created_at: "now".into(),
        sqlite_files: names(&["state_5.sqlite"]),
        has_session_index_backup: false,
        has_global_state_backup: true,
        rollout_files: vec![],
    };
    let t = |s: &str| JsonValue::Text(s.to_string());
    let expected = JsonValue::Object(vec![
        ("createdAt".into(), t("now")),
        ("hasGlobalStateBackup".into(), JsonValue::Bool(true)),
        ("hasSessionIndexBackup".into(), JsonValue::Bool(false)),
        ("hasSqliteBackup".into(), JsonValue::Bool(true)),
        ("instanceId".into(), t("i")),
        ("instanceRoot".into(), t("/data")),
        ("rolloutFiles".into(), JsonValue::Array(vec![])),
        ("sqliteFiles".into(), JsonValue::Array(vec![t("state_5.sqlite")])),
        ("targetProvider".into(), t("relay")),
    ]);
    assert!(json_equal(&backup_manifest_json(&m), &expected));
}

#[test]
fn instance_paths() {
    assert_eq!(join_path("/data", "sessions/a.jsonl"), "/data/sessions/a.jsonl");
    assert_eq!(resolve_rollout_path("/data", " /abs/x.jsonl "), "/abs/x.jsonl");
    assert_eq!(resolve_rollout_path("/data", "rel/x.jsonl"), "/data/rel/x.jsonl");
    assert_eq!(relative_to_instance_root("/data", "/data/sqlite/state_5.sqlite"), "sqlite/state_5.sqlite");
    assert_eq!(sqlite_sidecar_paths("/d/s.sqlite"), names(&["/d/s.sqlite-wal", "/d/s.sqlite-shm"]));
    assert!(is_plain_rollout_file("/s/rollout-1.jsonl"));
    assert!(!is_plain_rollout_file("/s/rollout-1.jsonl.zst"));
    assert!(is_sqlite_candidate("codex-dev.db"));
    assert!(is_sqlite_candidate("x.sqlite"));
    assert!(!is_sqlite_candidate("x.txt"));
    assert_eq!(order_sqlite_dir_session_dbs(&names(&["b.db", "codex-dev.db", "a.sqlite"])), names(&["codex-dev.db", "a.sqlite", "b.db"]));
    assert_eq!(official_state_db_candidate_paths("/data"), names(&["/data/sqlite/state_5.sqlite", "/data/state_5.sqlite"]));
}

fn kind(id: &str, thread_source: Option<&str>, source: &str) -> ThreadKindRow {
    ThreadKindRow { thread_id: id.into(), source: source.into(), source_json: None, thread_source: thread_source.map(|s| s.to_string()) }
}

#[test]
fn catalog_keeps_the_newest_row_of_user_threads() {
    let all = RepairTargetSelection::from_inputs(None, None, None).unwrap();
    let candidates = vec![
        CatalogThreadCandidate { kind: kind("user-1", None, "vscode"), updated_key: 5 },
        CatalogThreadCandidate { kind: kind("user-1", None, "vscode"), updated_key: 9 },
        CatalogThreadCandidate { kind: kind("child-1", None, "vscode"), updated_key: 1 },
        CatalogThreadCandidate { kind: kind("sub", Some("subagent"), "x"), updated_key: 1 },
    ];
    let r = collect_catalog_thread_records(&candidates, &all, &names(&["child-1"]));
    assert_eq!(r.records.len(), 1);
    assert_eq!(r.records[0].id, "user-1");
    assert_eq!(r.records[0].row, 1);
    let mut non_root = r.non_root_ids.clone();
    non_root.sort();
    assert_eq!(non_root, names(&["child-1", "sub"]));
    let rows = vec![kind("a", Some("user"), ""), kind("b", None, "subagent")];
    assert_eq!(collect_non_root_thread_ids(&names(&["c"]), &rows).len(), 2);
}

#[test]
fn catalog_statements_follow_the_columns() {
    let required = names(&[
        "host_id", "thread_id", "display_title", "source_created_at", "source_updated_at", "cwd",
        "source_kind", "model_provider", "observation_sequence",
    ]);
    assert!(catalog_has_required_columns(&required));
    assert!(!catalog_has_required_columns(&names(&["host_id"])));
    assert_eq!(
        catalog_update_statement(&required),
        "UPDATE local_thread_catalog SET model_provider = ?1 WHERE host_id = ?2 AND thread_id = ?3 AND (COALESCE(model_provider, '') <> ?1)"
    );
    let mut with_extra = required.clone();
    with_extra.push("pending_observed_title".into());
    with_extra.push("git_branch".into());
    assert_eq!(
        catalog_insert_column_list(&with_extra).len(),
        11
    );
    assert_eq!(
        catalog_insert_statement(&required),
        "INSERT OR IGNORE INTO local_thread_catalog (host_id, thread_id, display_title, source_created_at, source_updated_at, cwd, source_kind, model_provider, observation_sequence) VALUES (?, ?, ?, ?, ?, ?, ?, ?, ?)"
    );
    assert_eq!(local_catalog_host_query(&names(&["x"])), None);
    assert_eq!(local_catalog_host_id(&names(&["x"]), None).as_deref(), Some("local"));
    assert_eq!(local_catalog_host_id(&names(&["host_id"]), Some(" ".into())), None);
    assert_eq!(local_catalog_host_id(&names(&["host_id"]), Some("h1".into())).as_deref(), Some("h1"));
    assert_eq!(
        local_catalog_host_query(&names(&["host_id"])).as_deref(),
        Some("SELECT host_id FROM local_thread_catalog_hosts WHERE host_id = 'local' LIMIT 1")
    );
    assert_eq!(
        catalog_candidates_query(&names(&["id", "title", "updated_at_ms"])).as_deref(),
        Some("SELECT id, COALESCE(title, ''), 0, COALESCE(updated_at_ms / 1000.0, 0), '', '', NULL, NULL, NULL FROM threads WHERE COALESCE(id, '') <> ''")
    );
    assert_eq!(catalog_candidates_query(&names(&["title"])), None);
    let upd = sync_state_update_statement(&names(&["host_id", "observation_sequence"])).unwrap();
    assert_eq!(upd.sql, "UPDATE local_thread_catalog_sync_state SET observation_sequence = MAX(COALESCE(observation_sequence, 0), ?) WHERE host_id = ?");
    assert_eq!(upd.values, vec![SyncStateValue::ObservationSequence, SyncStateValue::HostId]);
    assert!(sync_state_update_statement(&names(&["host_id"])).is_none());
    let ins = sync_state_insert_statement(&names(&["host_id", "initial_build_complete", "watermark_updated_at"]));
    assert_eq!(ins.sql, "INSERT INTO local_thread_catalog_sync_state (host_id, watermark_updated_at, initial_build_complete) VALUES (?, ?, ?)");
    assert_eq!(ins.values, vec![SyncStateValue::HostId, SyncStateValue::WatermarkUpdatedAt, SyncStateValue::One]);
    assert_eq!(catalog_statement(CatalogStatement::DeleteThread), "DELETE FROM local_thread_catalog WHERE host_id = ?1 AND thread_id = ?2");
}

#[test]
fn rollout_facts_collect_subagents_user_input_and_workspaces() {
    let all = RepairTargetSelection::from_inputs(None, None, None).unwrap();
    let t = |s: &str| JsonValue::Text(s.to_string());
    let meta = |id: &str, extra: Vec<(String, JsonValue)>| {
        let mut payload = vec![("id".to_string(), t(id)), ("model_provider".to_string(), t("old"))];
        payload.extend(extra);
        JsonValue::Object(vec![("payload".into(), JsonValue::Object(payload)), ("type".into(), t("session_meta"))])
    };
    let mut facts = RolloutThreadFacts::new();
    let user = meta("user-1", vec![("cwd".into(), t(r"\\?\C:\repo\"))]);
    facts.add_file("{\"type\":\"user_message\"} encrypted_content", &vec![Some(user)], &all, &vec![]);
    let child = meta("child-1", vec![("source".into(), t("subagent"))]);
    facts.add_file("{}", &vec![Some(child)], &all, &vec![]);
    facts.finish(&names(&["gone"]));
    let mut subs = facts.subagent_thread_ids.clone();
    subs.sort();
    assert_eq!(subs, names(&["child-1", "gone"]));
    assert_eq!(facts.user_event_thread_ids, names(&["user-1"]));
    assert_eq!(facts.cwd_by_thread_id, vec![("user-1".to_string(), r"C:\repo".to_string())]);
    assert_eq!(facts.encrypted_content_counts.len(), 1);
    assert_eq!(facts.encrypted_content_counts[0].provider, "old");
}
