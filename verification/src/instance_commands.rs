//! The decisions of the Codex instance commands: only the default instance is
//! supported, it cannot be deleted, and which account it is bound to.
use vstd::prelude::*;
use crate::providers::{default_instance_id, is_default_instance_id};

verus! {

/// Why every instance but the default one is refused.
pub open spec fn multi_instance_unsupported_reason() -> Seq<char> {
    "Codex 多开实例暂不支持：官方桌面包主进程存在单实例锁限制。当前仅支持单实例启动、关闭与重启（先关闭再打开）。"@
}

/// Why the default instance cannot be deleted.
pub open spec fn default_instance_undeletable_reason() -> Seq<char> {
    "默认实例不可删除"@
}

/// The message that refuses an instance other than the default one.
pub fn codex_multi_instance_unsupported() -> (r: String)
    ensures
        r@ == multi_instance_unsupported_reason(),
{
    "Codex 多开实例暂不支持：官方桌面包主进程存在单实例锁限制。当前仅支持单实例启动、关闭与重启（先关闭再打开）。".to_string()
}

/// Lets a command go on only for the default instance; any other id gets the
/// refusal of `codex_multi_instance_unsupported`.
pub fn require_default_instance(instance_id: &String) -> (r: Result<(), String>)
    ensures
        r is Ok <==> instance_id@ == default_instance_id(),
        r matches Err(e) ==> e@ == multi_instance_unsupported_reason(),
{
    if is_default_instance_id(instance_id) {
        Ok(())
    } else {
        Err(codex_multi_instance_unsupported())
    }
}

/// Deleting an instance always fails: the default instance cannot be deleted,
/// and no other instance is supported.
pub fn codex_delete_instance(instance_id: String) -> (r: Result<(), String>)
    ensures
        r matches Err(e) && e@ == (if instance_id@ == default_instance_id() {
            default_instance_undeletable_reason()
        } else {
            multi_instance_unsupported_reason()
        }),
{
    if is_default_instance_id(&instance_id) {
        return Err("默认实例不可删除".to_string());
    }
    Err(codex_multi_instance_unsupported())
}

/// The account the default instance is bound to: the local account when it
/// follows it (`local_account_id` is that account's id, if there is one), else
/// the account its settings bind.
pub fn resolve_default_account_id(
    follow_local_account: bool,
    bind_account_id: &Option<String>,
    local_account_id: Option<String>,
) -> (r: Option<String>)
    ensures
        follow_local_account ==> r == local_account_id,
        !follow_local_account ==> match (r, *bind_account_id) {
            (Some(a), Some(b)) => a@ == b@,
            (None, None) => true,
            _ => false,
        },
{
    if follow_local_account {
        local_account_id
    } else {
        match bind_account_id {
            Some(id) => Some(id.clone()),
            None => None,
        }
    }
}

} // verus!
