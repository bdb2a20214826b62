use codex_session_visibility::modes::{
    CodexSessionVisibilityAutoRepairMode, CodexSessionVisibilityRepairMode,
    CodexSessionVisibilityRepairOptions, SqliteRepairScope,
};
use codex_session_visibility::workspace_path::{
    is_windows_workspace_path, normalized_workspace_paths, to_desktop_workspace_path,
    trim_safe_windows_trailing_separators,
};

#[test]
fn desktop_workspace_path_normalizes_windows_extended_paths() {
    assert_eq!(
        to_desktop_workspace_path(r"\\?\D:\Andrew\Code\pxread\").as_deref(),
        Some(r"D:\Andrew\Code\pxread")
    );
    assert_eq!(
        to_desktop_workspace_path(r"\\?\UNC\server\share\repo\").as_deref(),
        Some(r"\\server\share\repo")
    );
    assert_eq!(
        to_desktop_workspace_path(r"\\?\C:\").as_deref(),
        Some(r"C:\")
    );
    assert_eq!(
        to_desktop_workspace_path("/Users/demo/project/").as_deref(),
        Some("/Users/demo/project/")
    );
}

#[test]
fn auto_repair_mode_stays_on_official_state_db_only() {
    let options = CodexSessionVisibilityRepairOptions::for_auto_repair_mode(
        CodexSessionVisibilityAutoRepairMode::Current,
    );
    assert_eq!(options.mode, CodexSessionVisibilityRepairMode::Quick);
    assert_eq!(options.sqlite_scope, SqliteRepairScope::OfficialStateDbs);
    assert!(!options.repair_rollout);
    assert!(options.repair_referenced_rollouts);
    assert!(!options.rewrite_all_session_meta);
    assert!(!options.repair_session_index);
    assert!(!options.rebuild_metadata);
}

#[test]
fn every_auto_repair_label_runs_the_quick_profile() {
    let quick = CodexSessionVisibilityRepairOptions::for_mode(CodexSessionVisibilityRepairMode::Quick);
    for mode in [
        CodexSessionVisibilityAutoRepairMode::LegacyBefore4eb75d96,
        CodexSessionVisibilityAutoRepairMode::Legacy4eb75d96,
        CodexSessionVisibilityAutoRepairMode::Current,
    ] {
        assert_eq!(CodexSessionVisibilityRepairOptions::for_auto_repair_mode(mode), quick);
    }
    assert_eq!(CodexSessionVisibilityAutoRepairMode::default(), CodexSessionVisibilityAutoRepairMode::Current);
}

#[test]
fn auto_repair_labels_are_stable() {
    assert_eq!(CodexSessionVisibilityAutoRepairMode::LegacyBefore4eb75d96.label(), "legacy_before_4eb75d96");
    assert_eq!(CodexSessionVisibilityAutoRepairMode::Legacy4eb75d96.label(), "legacy_4eb75d96");
    assert_eq!(CodexSessionVisibilityAutoRepairMode::Current.label(), "current");
}

#[test]
fn deep_mode_is_the_full_provider_migration() {
    let deep = CodexSessionVisibilityRepairOptions::for_mode(CodexSessionVisibilityRepairMode::Deep);
    assert_eq!(deep, CodexSessionVisibilityRepairOptions::full_provider_migration());
    assert_eq!(deep.sqlite_scope, SqliteRepairScope::AllSessionDbs);
    assert!(deep.repair_rollout);
    assert!(!deep.repair_referenced_rollouts);
    assert!(deep.rewrite_all_session_meta);
    assert!(deep.rebuild_metadata);
    assert!(deep.repair_local_thread_catalog);
    assert!(deep.normalize_global_state);
    assert!(deep.require_stopped_instances);
    assert!(!deep.sidebar_visible_only);
    assert!(!deep.dry_run);
}

#[test]
fn deep_official_state_profile_rewrites_every_session_meta() {
    let p = CodexSessionVisibilityRepairOptions::official_state_db_only(CodexSessionVisibilityRepairMode::Deep);
    assert_eq!(p.mode, CodexSessionVisibilityRepairMode::Deep);
    assert!(p.rewrite_all_session_meta);
    assert!(p.sidebar_visible_only);
    assert!(!p.require_stopped_instances);
}

#[test]
fn with_dry_run_only_sets_the_flag() {
    let quick = CodexSessionVisibilityRepairOptions::for_mode(CodexSessionVisibilityRepairMode::Quick);
    let dry = quick.with_dry_run(true);
    assert!(dry.dry_run);
    assert_eq!(dry.with_dry_run(false), quick);
    assert_eq!(quick.with_dry_run(true).with_dry_run(false).with_dry_run(true), dry);
}

#[test]
fn windows_workspace_paths_are_recognized() {
    assert!(is_windows_workspace_path(r"C:\repo"));
    assert!(is_windows_workspace_path(r"\\server\share"));
    assert!(is_windows_workspace_path("//server/share"));
    assert!(!is_windows_workspace_path("/Users/demo"));
    assert!(!is_windows_workspace_path("C"));
}

#[test]
fn desktop_paths_trim_only_safe_separators() {
    assert_eq!(to_desktop_workspace_path("   ").as_deref(), None);
    assert_eq!(to_desktop_workspace_path("  C:\\repo\\\\  ").as_deref(), Some("C:\\repo"));
    assert_eq!(to_desktop_workspace_path(r"\\server\share\").as_deref(), Some(r"\\server\share"));
    assert_eq!(to_desktop_workspace_path(r"\\server\").as_deref(), Some(r"\\server\"));
    assert_eq!(to_desktop_workspace_path(r"\\server\share\repo\").as_deref(), Some(r"\\server\share\repo"));
    assert_eq!(to_desktop_workspace_path("C:/").as_deref(), Some("C:/"));
    let mut s = String::from("D:/work//");
    trim_safe_windows_trailing_separators(&mut s);
    assert_eq!(s, "D:/work");
}

#[test]
fn workspace_path_lists_drop_blanks_and_repeats() {
    let values = vec![
        r"\\?\C:\repo\".to_string(),
        "  ".to_string(),
        "c:/REPO".to_string(),
        r"C:\other".to_string(),
    ];
    assert_eq!(
        normalized_workspace_paths(&values),
        vec![r"C:\repo".to_string(), r"C:\other".to_string()]
    );
}
