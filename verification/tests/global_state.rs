use codex_session_visibility::global_state::{
    load_projectless_thread_ids, member_lookup, normalize_global_state,
    normalized_global_state_entries, remap_workspace_keys, sorted_copy,
};
use codex_session_visibility::json::{json_equal, JsonValue};

fn text(s: &str) -> JsonValue {
    JsonValue::Text(s.to_string())
}

fn array(items: &[&str]) -> JsonValue {
    JsonValue::Array(items.iter().map(|s| text(s)).collect())
}

fn object(members: Vec<(&str, JsonValue)>) -> JsonValue {
    JsonValue::Object(members.into_iter().map(|(k, v)| (k.to_string(), v)).collect())
}

fn members(v: JsonValue) -> Vec<(String, JsonValue)> {
    match v {
        JsonValue::Object(m) => m,
        _ => panic!("not an object"),
    }
}

fn keys(m: &[(String, JsonValue)]) -> Vec<&str> {
    m.iter().map(|(k, _)| k.as_str()).collect()
}

#[test]
fn project_order_with_extended_prefix_is_normalized() {
    let state = members(object(vec![(
        "project-order",
        array(&[r"\\?\C:\repo\", r"C:\repo"]),
    )]));
    let entries = normalized_global_state_entries(&state);
    assert_eq!(keys(&entries), vec!["project-order"]);
    assert!(json_equal(&entries[0].1, &array(&[r"C:\repo"])));

    let plan = normalize_global_state(&state, false);
    assert_eq!(plan.changed, 1);
    let rewritten = plan.rewritten.expect("state to write back");
    assert_eq!(keys(&rewritten), vec!["project-order"]);
    assert!(json_equal(&rewritten[0].1, &array(&[r"C:\repo"])));
}

#[test]
fn dry_run_counts_changes_without_rewriting() {
    let state = members(object(vec![(
        "electron-saved-workspace-roots",
        array(&[r"\\?\D:\work\"]),
    )]));
    let plan = normalize_global_state(&state, true);
    assert_eq!(plan.changed, 1);
    assert!(plan.rewritten.is_none());
}

#[test]
fn normalized_state_reports_no_change_and_is_stable() {
    let state = members(object(vec![
        ("active-workspace-roots", array(&[r"C:\repo"])),
        ("other", JsonValue::Bool(true)),
        ("project-order", array(&[r"C:\repo", "/home/me/app"])),
    ]));
    let plan = normalize_global_state(&state, false);
    assert_eq!(plan.changed, 0);
    assert!(plan.rewritten.is_none());
}

#[test]
fn active_root_string_becomes_its_first_desktop_path() {
    let state = members(object(vec![("active-workspace-roots", text(r"\\?\E:\proj\"))]));
    let entries = normalized_global_state_entries(&state);
    assert!(json_equal(&entries[0].1, &text(r"E:\proj")));

    let blank = members(object(vec![("active-workspace-roots", text("   "))]));
    let entries = normalized_global_state_entries(&blank);
    assert!(json_equal(&entries[0].1, &text("   ")));

    let number = members(object(vec![("active-workspace-roots", JsonValue::Number(Some(3), "3".to_string()))]));
    let entries = normalized_global_state_entries(&number);
    assert!(json_equal(&entries[0].1, &JsonValue::Number(Some(3), "3".to_string())));
}

#[test]
fn saved_roots_that_are_not_arrays_become_lists() {
    let state = members(object(vec![("electron-saved-workspace-roots", text(r"C:\a\"))]));
    let entries = normalized_global_state_entries(&state);
    assert!(json_equal(&entries[0].1, &array(&[r"C:\a"])));
    let state = members(object(vec![("project-order", JsonValue::Null)]));
    let entries = normalized_global_state_entries(&state);
    assert!(json_equal(&entries[0].1, &array(&[])));
}

#[test]
fn labels_and_per_path_preferences_are_filed_under_desktop_paths() {
    let state = members(object(vec![
        (
            "electron-workspace-root-labels",
            object(vec![(r"\\?\C:\repo\", text("Repo")), ("", text("blank"))]),
        ),
        (
            "open-in-target-preferences",
            object(vec![
                ("default", text("vscode")),
                ("perPath", object(vec![(r"\\?\UNC\srv\share\x\", text("cursor"))])),
            ]),
        ),
    ]));
    let entries = normalized_global_state_entries(&state);
    assert_eq!(keys(&entries), vec!["electron-workspace-root-labels", "open-in-target-preferences"]);
    assert!(json_equal(
        &entries[0].1,
        &object(vec![("", text("blank")), (r"C:\repo", text("Repo"))])
    ));
    assert!(json_equal(
        &entries[1].1,
        &object(vec![
            ("default", text("vscode")),
            ("perPath", object(vec![(r"\\srv\share\x", text("cursor"))])),
        ])
    ));
    let plan = normalize_global_state(&state, false);
    assert_eq!(plan.changed, 2);
}

#[test]
fn labels_that_are_not_objects_are_left_alone() {
    let state = members(object(vec![
        ("electron-workspace-root-labels", array(&["x"])),
        ("open-in-target-preferences", text("none")),
    ]));
    assert!(normalized_global_state_entries(&state).is_empty());
    assert_eq!(normalize_global_state(&state, false).changed, 0);
}

#[test]
fn rewritten_state_keeps_other_entries_in_key_order() {
    let state = members(object(vec![
        ("zeta", JsonValue::Bool(false)),
        ("project-order", array(&[r"\\?\C:\x\"])),
        ("alpha", JsonValue::Null),
    ]));
    let plan = normalize_global_state(&state, false);
    let rewritten = plan.rewritten.expect("rewrite");
    assert_eq!(keys(&rewritten), vec!["alpha", "project-order", "zeta"]);
    assert!(json_equal(&rewritten[1].1, &array(&[r"C:\x"])));
}

#[test]
fn remapped_keys_collide_later_member_wins() {
    let m = members(object(vec![(r"\\?\C:\a\", text("first")), (r"C:\a", text("second"))]));
    let r = remap_workspace_keys(&m);
    assert_eq!(r.len(), 1);
    assert_eq!(r[0].0, r"C:\a");
    assert!(json_equal(&r[0].1, &text("second")));
}

#[test]
fn sorted_copy_orders_keys_and_lookup_sees_the_last_member() {
    let m = members(object(vec![("b", text("1")), ("a", text("2")), ("b", text("3"))]));
    let sorted = sorted_copy(&m);
    assert_eq!(keys(&sorted), vec!["a", "b"]);
    assert!(json_equal(&sorted[1].1, &text("3")));
    assert!(json_equal(member_lookup(&m, "b").unwrap(), &text("3")));
    assert!(member_lookup(&m, "c").is_none());
}

#[test]
fn projectless_thread_ids_are_trimmed_non_blank_strings() {
    let state = members(object(vec![(
        "projectless-thread-ids",
        JsonValue::Array(vec![text(" t1 "), text(""), JsonValue::Null, text("t2")]),
    )]));
    assert_eq!(load_projectless_thread_ids(&state), vec!["t1".to_string(), "t2".to_string()]);
    let none = members(object(vec![("projectless-thread-ids", text("t1"))]));
    assert!(load_projectless_thread_ids(&none).is_empty());
}
