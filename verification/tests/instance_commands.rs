use codex_session_visibility::instance_commands::{
    codex_delete_instance, codex_multi_instance_unsupported, require_default_instance, resolve_default_account_id,
};

#[test]
fn only_the_default_instance_is_supported() {
    assert_eq!(require_default_instance(&"__default__".to_string()), Ok(()));
    assert_eq!(
        require_default_instance(&"work".to_string()),
        Err(codex_multi_instance_unsupported())
    );
    assert!(codex_multi_instance_unsupported().starts_with("Codex 多开实例暂不支持"));
}

#[test]
fn deleting_an_instance_always_fails() {
    assert_eq!(codex_delete_instance("__default__".to_string()), Err("默认实例不可删除".to_string()));
    assert_eq!(codex_delete_instance("work".to_string()), Err(codex_multi_instance_unsupported()));
}

#[test]
fn default_account_follows_the_local_account_or_the_binding() {
    let bound = Some("bound".to_string());
    assert_eq!(resolve_default_account_id(true, &bound, Some("local".to_string())), Some("local".to_string()));
    assert_eq!(resolve_default_account_id(true, &bound, None), None);
    assert_eq!(resolve_default_account_id(false, &bound, Some("local".to_string())), Some("bound".to_string()));
    assert_eq!(resolve_default_account_id(false, &None, Some("local".to_string())), None);
}
