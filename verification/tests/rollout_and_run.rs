use codex_session_visibility::json::{json_equal, JsonValue};
use codex_session_visibility::messages::{
    build_dry_run_summary_message, build_encrypted_content_warning, build_repair_failure_message,
    build_running_refusal_message, build_summary_message, ProviderCount,
};
use codex_session_visibility::modes::{CodexSessionVisibilityRepairMode, CodexSessionVisibilityRepairOptions};
use codex_session_visibility::rollout::{
    assemble_rollout_content, referenced_change_is_kept, rewrite_rollout_first_session_meta_provider,
    rewrite_rollout_session_meta_providers, split_line_ending, split_rollout_lines,
};
use codex_session_visibility::run::{
    instance_repair_steps, instance_scan_plan, repair_progress, CatalogRepairCounts, CodexSyncInstance,
    InstanceAction, InstanceRepairStep, InstanceScan, RepairRun, RepairSingleInstanceResult,
    RolloutScan, SessionIndexReconcileResult,
};

fn text(s: &str) -> JsonValue {
    JsonValue::Text(s.to_string())
}

fn object(members: Vec<(&str, JsonValue)>) -> JsonValue {
    JsonValue::Object(members.into_iter().map(|(k, v)| (k.to_string(), v)).collect())
}

fn meta(id: &str, provider: &str) -> JsonValue {
    object(vec![
        ("payload", object(vec![("id", text(id)), ("model_provider", text(provider))])),
        ("type", text("session_meta")),
    ])
}

fn instance(id: &str) -> CodexSyncInstance {
    CodexSyncInstance { id: id.to_string(), name: format!("{id} name"), data_dir: format!("/data/{id}"), last_pid: None }
}

#[test]
fn rollout_lines_keep_their_endings() {
    let parts = split_rollout_lines("a\r\nb\nc");
    assert_eq!(
        parts,
        vec![("a".to_string(), "\r\n".to_string()), ("b".to_string(), "\n".to_string()), ("c".to_string(), "".to_string())]
    );
    assert_eq!(split_line_ending("x\r\n"), ("x".to_string(), "\r\n".to_string()));
    let rebuilt = assemble_rollout_content("a\r\nb\nc", &parts, &vec![None, Some("B".to_string()), None]);
    assert_eq!(rebuilt, "a\r\nB\nc");
}

#[test]
fn every_session_meta_record_moves_to_the_target() {
    let records = vec![Some(meta("t1", "old")), None, Some(object(vec![("type", text("event"))])), Some(meta("t1", "relay"))];
    let r = rewrite_rollout_session_meta_providers(records, "relay");
    assert!(r.rewrite_needed);
    assert_eq!(r.session_meta_count, 2);
    assert_eq!(r.thread_id.as_deref(), Some("t1"));
    assert!(!r.non_root_agent);
    assert!(json_equal(r.edited[0].as_ref().unwrap(), &meta("t1", "relay")));
    assert!(r.edited[1].is_none() && r.edited[2].is_none() && r.edited[3].is_none());

    let again = rewrite_rollout_session_meta_providers(vec![Some(meta("t1", "relay"))], "relay");
    assert!(!again.rewrite_needed);
    let back = rewrite_rollout_session_meta_providers(vec![Some(meta("t1", "relay"))], "openai");
    assert!(back.rewrite_needed);
    assert!(json_equal(back.edited[0].as_ref().unwrap(), &meta("t1", "openai")));
}

#[test]
fn first_line_rewrite_is_idempotent() {
    let first = rewrite_rollout_first_session_meta_provider(Some(meta("t2", "old")), "relay");
    assert!(first.rewrite_needed);
    assert_eq!(first.session_meta_count, 1);
    let updated = first.updated.expect("rewritten record");
    assert!(json_equal(&updated, &meta("t2", "relay")));
    let second = rewrite_rollout_first_session_meta_provider(Some(updated), "relay");
    assert!(!second.rewrite_needed);
    assert!(second.updated.is_none());
    let none = rewrite_rollout_first_session_meta_provider(Some(text("not a record")), "relay");
    assert_eq!(none.session_meta_count, 0);
}

#[test]
fn subagent_rollouts_are_marked_non_root() {
    let sub = object(vec![
        ("payload", object(vec![("id", text("c1")), ("source", object(vec![("subagent", text("x"))]))])),
        ("type", text("session_meta")),
    ]);
    let r = rewrite_rollout_session_meta_providers(vec![Some(sub)], "relay");
    assert!(r.non_root_agent);
    assert!(!referenced_change_is_kept(r.session_meta_count, r.rewrite_needed, r.non_root_agent));
    assert!(referenced_change_is_kept(1, true, false));
    assert!(!referenced_change_is_kept(1, false, false));
}

#[test]
fn scan_plan_follows_the_profile() {
    let quick = instance_scan_plan(CodexSessionVisibilityRepairOptions::for_mode(CodexSessionVisibilityRepairMode::Quick));
    assert_eq!(quick.rollouts, RolloutScan::Referenced);
    assert!(!quick.count_catalog && !quick.count_global_state && !quick.collect_rollout_thread_facts);
    let deep = instance_scan_plan(CodexSessionVisibilityRepairOptions::for_mode(CodexSessionVisibilityRepairMode::Deep));
    assert_eq!(deep.rollouts, RolloutScan::AllFiles);
    assert!(deep.count_catalog && deep.count_global_state && deep.collect_rollout_thread_facts);
}

#[test]
fn repair_steps_run_in_order() {
    let deep = CodexSessionVisibilityRepairOptions::for_mode(CodexSessionVisibilityRepairMode::Deep);
    assert_eq!(
        instance_repair_steps(deep, true, false, true, 2),
        vec![
            InstanceRepairStep::CollectFacts,
            InstanceRepairStep::WriteSqliteProvider,
            InstanceRepairStep::RepairCatalog,
            InstanceRepairStep::WriteRolloutFile(0),
            InstanceRepairStep::WriteRolloutFile(1),
            InstanceRepairStep::WriteSessionIndex,
            InstanceRepairStep::NormalizeGlobalState,
        ]
    );
    let quick = CodexSessionVisibilityRepairOptions::for_mode(CodexSessionVisibilityRepairMode::Quick);
    assert_eq!(instance_repair_steps(quick, false, true, false, 0), vec![InstanceRepairStep::WriteSqliteTimestamps]);
}

#[test]
fn a_run_needs_an_instance() {
    let quick = CodexSessionVisibilityRepairOptions::for_mode(CodexSessionVisibilityRepairMode::Quick);
    assert_eq!(RepairRun::start(quick, 0).err().as_deref(), Some("未找到要修复的 Codex 实例"));
}

#[test]
fn dry_run_records_plans_and_reports_a_preview() {
    let options = CodexSessionVisibilityRepairOptions::for_mode(CodexSessionVisibilityRepairMode::Deep).with_dry_run(true);
    let mut run = RepairRun::start(options, 1).unwrap();
    let scan = InstanceScan { rollout_change_count: 1, sqlite_rows_to_update: 2, ..Default::default() };
    assert!(scan.fits());
    assert_eq!(run.decide(&scan, true), InstanceAction::RecordPlan);
    let inst = instance("dry-run-instance");
    let item = RepairRun::planned_item_for(&inst, "relay".to_string(), &scan, true);
    assert!(run.can_absorb(&item));
    run.record_plan(&inst, "relay".to_string(), &scan, true);
    let summary = run.finish();
    assert_eq!(summary.instance_count, 1);
    assert_eq!(summary.mutated_instance_count, 1);
    assert_eq!(summary.changed_rollout_file_count, 1);
    assert_eq!(summary.updated_sqlite_row_count, 2);
    assert!(summary.backup_dirs.is_empty());
    assert!(summary.message.starts_with("预览将"));
    assert_eq!(
        summary.message,
        "预览将为 1 个实例修复历史会话：校正 1 个会话文件，更新 2 条 SQLite 记录，校正 0 条 SQLite 时间记录。包含运行中的实例；完整修复前需要先完全退出对应 Codex App/ChatGPT 实例"
    );
}

#[test]
fn deep_repair_refuses_running_instances_with_changes() {
    let options = CodexSessionVisibilityRepairOptions::for_mode(CodexSessionVisibilityRepairMode::Deep);
    let run = RepairRun::start(options, 1).unwrap();
    let scan = InstanceScan { sqlite_rows_to_update: 1, ..Default::default() };
    assert_eq!(run.decide(&scan, true), InstanceAction::RefuseRunning);
    assert_eq!(run.decide(&scan, false), InstanceAction::Repair);
    assert_eq!(run.decide(&InstanceScan::default(), true), InstanceAction::NothingToRepair);
    assert_eq!(
        run.refusal(&instance("busy")),
        build_running_refusal_message("busy name")
    );
    let quick = RepairRun::start(CodexSessionVisibilityRepairOptions::for_mode(CodexSessionVisibilityRepairMode::Quick), 1).unwrap();
    assert_eq!(quick.decide(&scan, true), InstanceAction::Repair);
}

#[test]
fn repaired_and_unchanged_instances_add_up() {
    let options = CodexSessionVisibilityRepairOptions::for_mode(CodexSessionVisibilityRepairMode::Deep);
    let mut run = RepairRun::start(options, 2).unwrap();
    let scan = InstanceScan { rollout_change_count: 3, sqlite_rows_to_update: 1, ..Default::default() };
    let result = RepairSingleInstanceResult::from_parts(
        1,
        CatalogRepairCounts { inserted_rows: 2, removed_rows: 1, updated_rows: 4 },
        0,
        SessionIndexReconcileResult { added_entries: 1, updated_entries: 0 },
        1,
        1,
    );
    assert_eq!(result.updated_sqlite_rows, 5);
    assert!(run.needs_metadata_rebuild(&scan, &result));
    run.record_repaired(&instance("a"), "relay".to_string(), &scan, &result, "/backups/a".to_string(), false, true);
    run.record_unchanged(&instance("b"), "relay".to_string(), &InstanceScan::default(), false, false);
    run.add_encrypted_content_counts(&vec![ProviderCount { provider: "old".to_string(), count: 2 }]);
    let summary = run.finish();
    assert_eq!(summary.instance_count, 2);
    assert_eq!(summary.mutated_instance_count, 1);
    assert_eq!(summary.changed_rollout_file_count, 2);
    assert_eq!(summary.skipped_rollout_file_count, 1);
    assert_eq!(summary.updated_sqlite_row_count, 5);
    assert_eq!(summary.inserted_catalog_row_count, 2);
    assert_eq!(summary.removed_catalog_row_count, 1);
    assert_eq!(summary.added_session_index_entry_count, 1);
    assert_eq!(summary.updated_global_state_entry_count, 1);
    assert_eq!(summary.metadata_rebuild_failed_count, 1);
    assert_eq!(summary.backup_dirs, vec!["/backups/a".to_string()]);
    assert_eq!(summary.items[1].backup_dir, None);
    assert_eq!(
        summary.message,
        "已为 1 个实例修复历史会话：校正 2 个会话文件，更新 5 条 SQLite 记录，校正 0 条 SQLite 时间记录，补写 1 条 session_index 记录，补齐 2 条本地会话目录、移除 1 条子 Agent 目录记录，规范化 1 项全局工作区状态；1 个实例的官方侧边栏索引重建未完成，重启 Codex 后会重新加载；1 个会话文件在扫描后发生变化，已安全跳过"
    );
    assert!(summary.encrypted_content_warning.unwrap().starts_with("检测到 2 个会话文件包含来自 old 的 encrypted_content"));
}

#[test]
fn summary_messages_for_consistent_instances() {
    assert_eq!(
        build_summary_message(0, 0, 0, 0, 0, 0, 0, 0, 0, 0, 0, 0, 0),
        "所有 Codex 实例的会话文件与 SQLite 可见性记录均一致"
    );
    assert_eq!(
        build_summary_message(0, 0, 0, 0, 0, 0, 0, 0, 0, 0, 0, 0, 2),
        "所有 Codex 实例的会话文件与 SQLite 可见性记录均一致；2 个实例的官方侧边栏状态刷新未完成，重启 Codex 后会重新加载"
    );
    assert_eq!(build_dry_run_summary_message(0, 0, 0, 0, 0, 0, 0, 0, 0, 0, 0), "预览未发现需要写入的会话可见性差异");
    assert_eq!(
        build_summary_message(2, 1, 0, 3, 0, 4, 0, 0, 0, 0, 1, 0, 0),
        "已为 2 个实例修复历史会话：校正 1 个会话文件，更新 0 条 SQLite 记录，校正 3 条 SQLite 时间记录，刷新 4 条 session_index 记录。运行中的实例可能需要重启后完全刷新"
    );
}

#[test]
fn encrypted_content_warning_names_other_providers_once() {
    let counts = vec![
        ProviderCount { provider: "b".to_string(), count: 1 },
        ProviderCount { provider: "relay".to_string(), count: 2 },
        ProviderCount { provider: "a".to_string(), count: 1 },
        ProviderCount { provider: "b".to_string(), count: 1 },
        ProviderCount { provider: "z".to_string(), count: 0 },
    ];
    assert_eq!(
        build_encrypted_content_warning(&counts, "relay").as_deref(),
        Some("检测到 5 个会话文件包含来自 a、b 的 encrypted_content。会话元数据可以迁移到 relay，但继续或压缩这些历史时仍可能出现 invalid_encrypted_content；需要可靠续聊时请切回原 Provider/账号或开启新会话。")
    );
    assert_eq!(build_encrypted_content_warning(&vec![ProviderCount { provider: "relay".to_string(), count: 3 }], "relay"), None);
}

#[test]
fn failure_and_progress_reports() {
    let msg = build_repair_failure_message("inst", "boom", None, "/b");
    assert!(msg.contains("inst") && msg.contains("boom"));
    let quick = CodexSessionVisibilityRepairOptions::for_mode(CodexSessionVisibilityRepairMode::Quick);
    let inst = instance("p");
    let p = repair_progress(&Some("run-1".to_string()), quick, "scan", 150, 1, 2, Some(&inst));
    assert_eq!(p.percent, 100);
    assert_eq!(p.stage, "scan");
    assert_eq!(p.instance_name.as_deref(), Some("p name"));
    assert_eq!(p.run_id.as_deref(), Some("run-1"));
}

#[test]
fn repaired_rollout_records_need_no_second_repair() {
    let records = || vec![Some(meta("t1", "old")), None, Some(meta("t1", "relay")), Some(meta("t1", "other"))];
    let r = rewrite_rollout_session_meta_providers(records(), "relay");
    let after: Vec<Option<JsonValue>> = records()
        .into_iter()
        .zip(r.edited.into_iter())
        .map(|(record, edit)| if edit.is_some() { edit } else { record })
        .collect();
    let again = rewrite_rollout_session_meta_providers(after, "relay");
    assert!(!again.rewrite_needed);
    assert!(again.edited.iter().all(|e| e.is_none()));
    assert_eq!(again.session_meta_count, 3);
}
