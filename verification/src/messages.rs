//! The user-facing texts of a repair run: the summary sentence, the preview
//! sentence, the refusal and failure texts, and the encrypted-history warning.
use vstd::prelude::*;
use crate::text::{decimal, push_decimal, push_str};
use crate::order::{sorted_distinct, sorted_of};
use crate::workspace_path::views;

verus! {

/// `Some` text when `cond` holds, the empty text otherwise.
pub open spec fn when(cond: bool, s: Seq<char>) -> Seq<char> {
    if cond {
        s
    } else {
        seq![]
    }
}

/// The sentence that reports a finished repair.
pub open spec fn summary_message(
    mutated_instance_count: nat,
    changed_rollout_file_count: nat,
    updated_sqlite_row_count: nat,
    updated_sqlite_timestamp_row_count: nat,
    added_session_index_entry_count: nat,
    updated_session_index_entry_count: nat,
    inserted_catalog_row_count: nat,
    removed_catalog_row_count: nat,
    updated_global_state_entry_count: nat,
    skipped_rollout_file_count: nat,
    mutated_running_instance_count: nat,
    metadata_rebuild_failed_count: nat,
) -> Seq<char> {
    if mutated_instance_count == 0 {
        if metadata_rebuild_failed_count > 0 {
            "所有 Codex 实例的会话文件与 SQLite 可见性记录均一致；"@ + decimal(
                metadata_rebuild_failed_count,
            ) + " 个实例的官方侧边栏状态刷新未完成，重启 Codex 后会重新加载"@
        } else {
            "所有 Codex 实例的会话文件与 SQLite 可见性记录均一致"@
        }
    } else {
        "已为 "@ + decimal(mutated_instance_count) + " 个实例修复历史会话：校正 "@ + decimal(
            changed_rollout_file_count,
        ) + " 个会话文件，更新 "@ + decimal(updated_sqlite_row_count) + " 条 SQLite 记录，校正 "@
            + decimal(updated_sqlite_timestamp_row_count) + " 条 SQLite 时间记录"@ + when(
            added_session_index_entry_count > 0,
            "，补写 "@ + decimal(added_session_index_entry_count) + " 条 session_index 记录"@,
        ) + when(
            updated_session_index_entry_count > 0,
            "，刷新 "@ + decimal(updated_session_index_entry_count) + " 条 session_index 记录"@,
        ) + when(
            inserted_catalog_row_count > 0 || removed_catalog_row_count > 0,
            "，补齐 "@ + decimal(inserted_catalog_row_count) + " 条本地会话目录、移除 "@ + decimal(
                removed_catalog_row_count,
            ) + " 条子 Agent 目录记录"@,
        ) + when(
            updated_global_state_entry_count > 0,
            "，规范化 "@ + decimal(updated_global_state_entry_count) + " 项全局工作区状态"@,
        ) + when(mutated_running_instance_count > 0, "。运行中的实例可能需要重启后完全刷新"@)
            + when(
            metadata_rebuild_failed_count > 0,
            "；"@ + decimal(metadata_rebuild_failed_count)
                + " 个实例的官方侧边栏索引重建未完成，重启 Codex 后会重新加载"@,
        ) + when(
            skipped_rollout_file_count > 0,
            "；"@ + decimal(skipped_rollout_file_count) + " 个会话文件在扫描后发生变化，已安全跳过"@,
        )
    }
}

/// The sentence that reports what a dry run would change.
pub open spec fn dry_run_summary_message(
    mutated_instance_count: nat,
    changed_rollout_file_count: nat,
    updated_sqlite_row_count: nat,
    updated_sqlite_timestamp_row_count: nat,
    added_session_index_entry_count: nat,
    updated_session_index_entry_count: nat,
    inserted_catalog_row_count: nat,
    removed_catalog_row_count: nat,
    updated_global_state_entry_count: nat,
    mutated_running_instance_count: nat,
) -> Seq<char> {
    if mutated_instance_count == 0 {
        "预览未发现需要写入的会话可见性差异"@
    } else {
        "预览将为 "@ + decimal(mutated_instance_count) + " 个实例修复历史会话：校正 "@ + decimal(
            changed_rollout_file_count,
        ) + " 个会话文件，更新 "@ + decimal(updated_sqlite_row_count) + " 条 SQLite 记录，校正 "@
            + decimal(updated_sqlite_timestamp_row_count) + " 条 SQLite 时间记录"@ + when(
            added_session_index_entry_count > 0,
            "，补写 "@ + decimal(added_session_index_entry_count) + " 条 session_index 记录"@,
        ) + when(
            updated_session_index_entry_count > 0,
            "，刷新 "@ + decimal(updated_session_index_entry_count) + " 条 session_index 记录"@,
        ) + when(
            inserted_catalog_row_count > 0 || removed_catalog_row_count > 0,
            "，补齐 "@ + decimal(inserted_catalog_row_count) + " 条本地会话目录、移除 "@ + decimal(
                removed_catalog_row_count,
            ) + " 条子 Agent 目录记录"@,
        ) + when(
            updated_global_state_entry_count > 0,
            "，规范化 "@ + decimal(updated_global_state_entry_count) + " 项全局工作区状态"@,
        ) + when(
            mutated_running_instance_count > 0,
            "。包含运行中的实例；完整修复前需要先完全退出对应 Codex App/ChatGPT 实例"@,
        )
    }
}

fn push_counted(out: &mut String, cond: bool, before: &str, n: usize, after: &str)
    ensures
        final(out)@ == old(out)@ + when(cond, before@ + decimal(n as nat) + after@),
{
    if cond {
        push_str(out, before);
        push_decimal(out, n);
        push_str(out, after);
    }
}

/// Appends the catalog clause when catalog rows were inserted or removed.
fn push_catalog_clause(out: &mut String, inserted: usize, removed: usize)
    ensures
        final(out)@ == old(out)@ + when(
            inserted > 0 || removed > 0,
            "，补齐 "@ + decimal(inserted as nat) + " 条本地会话目录、移除 "@ + decimal(removed as nat)
                + " 条子 Agent 目录记录"@,
        ),
{
    if inserted > 0 || removed > 0 {
        push_str(out, "，补齐 ");
        push_decimal(out, inserted);
        push_str(out, " 条本地会话目录、移除 ");
        push_decimal(out, removed);
        push_str(out, " 条子 Agent 目录记录");
    }
}

/// The headline "N instances, M files, K rows, T timestamp rows" part.
fn push_headline(out: &mut String, lead: &str, m: usize, c: usize, u: usize, t: usize)
    ensures
        final(out)@ == old(out)@ + lead@ + decimal(m as nat) + " 个实例修复历史会话：校正 "@ + decimal(
            c as nat,
        ) + " 个会话文件，更新 "@ + decimal(u as nat) + " 条 SQLite 记录，校正 "@ + decimal(t as nat)
            + " 条 SQLite 时间记录"@,
{
    push_str(out, lead);
    push_decimal(out, m);
    push_str(out, " 个实例修复历史会话：校正 ");
    push_decimal(out, c);
    push_str(out, " 个会话文件，更新 ");
    push_decimal(out, u);
    push_str(out, " 条 SQLite 记录，校正 ");
    push_decimal(out, t);
    push_str(out, " 条 SQLite 时间记录");
}

/// The sentence that reports a finished repair; the SQLite skip count is not
/// part of it.
pub fn build_summary_message(
    mutated_instance_count: usize,
    changed_rollout_file_count: usize,
    updated_sqlite_row_count: usize,
    updated_sqlite_timestamp_row_count: usize,
    added_session_index_entry_count: usize,
    updated_session_index_entry_count: usize,
    inserted_catalog_row_count: usize,
    removed_catalog_row_count: usize,
    updated_global_state_entry_count: usize,
    skipped_rollout_file_count: usize,
    mutated_running_instance_count: usize,
    _skipped_sqlite_file_count: usize,
    metadata_rebuild_failed_count: usize,
) -> (r: String)
    ensures
        r@ == summary_message(
            mutated_instance_count as nat,
            changed_rollout_file_count as nat,
            updated_sqlite_row_count as nat,
            updated_sqlite_timestamp_row_count as nat,
            added_session_index_entry_count as nat,
            updated_session_index_entry_count as nat,
            inserted_catalog_row_count as nat,
            removed_catalog_row_count as nat,
            updated_global_state_entry_count as nat,
            skipped_rollout_file_count as nat,
            mutated_running_instance_count as nat,
            metadata_rebuild_failed_count as nat,
        ),
{
    let mut out = String::new();
    if mutated_instance_count == 0 {
        if metadata_rebuild_failed_count > 0 {
            push_str(&mut out, "所有 Codex 实例的会话文件与 SQLite 可见性记录均一致；");
            push_decimal(&mut out, metadata_rebuild_failed_count);
            push_str(&mut out, " 个实例的官方侧边栏状态刷新未完成，重启 Codex 后会重新加载");
        } else {
            push_str(&mut out, "所有 Codex 实例的会话文件与 SQLite 可见性记录均一致");
        }
        return out;
    }
    push_headline(
        &mut out,
        "已为 ",
        mutated_instance_count,
        changed_rollout_file_count,
        updated_sqlite_row_count,
        updated_sqlite_timestamp_row_count,
    );
    push_counted(
        &mut out,
        added_session_index_entry_count > 0,
        "，补写 ",
        added_session_index_entry_count,
        " 条 session_index 记录",
    );
    push_counted(
        &mut out,
        updated_session_index_entry_count > 0,
        "，刷新 ",
        updated_session_index_entry_count,
        " 条 session_index 记录",
    );
    push_catalog_clause(&mut out, inserted_catalog_row_count, removed_catalog_row_count);
    push_counted(
        &mut out,
        updated_global_state_entry_count > 0,
        "，规范化 ",
        updated_global_state_entry_count,
        " 项全局工作区状态",
    );
    if mutated_running_instance_count > 0 {
        push_str(&mut out, "。运行中的实例可能需要重启后完全刷新");
    }
    push_counted(
        &mut out,
        metadata_rebuild_failed_count > 0,
        "；",
        metadata_rebuild_failed_count,
        " 个实例的官方侧边栏索引重建未完成，重启 Codex 后会重新加载",
    );
    push_counted(
        &mut out,
        skipped_rollout_file_count > 0,
        "；",
        skipped_rollout_file_count,
        " 个会话文件在扫描后发生变化，已安全跳过",
    );
    out
}

/// The sentence that reports what a dry run would change.
pub fn build_dry_run_summary_message(
    mutated_instance_count: usize,
    changed_rollout_file_count: usize,
    updated_sqlite_row_count: usize,
    updated_sqlite_timestamp_row_count: usize,
    added_session_index_entry_count: usize,
    updated_session_index_entry_count: usize,
    inserted_catalog_row_count: usize,
    removed_catalog_row_count: usize,
    updated_global_state_entry_count: usize,
    _skipped_rollout_file_count: usize,
    mutated_running_instance_count: usize,
) -> (r: String)
    ensures
        r@ == dry_run_summary_message(
            mutated_instance_count as nat,
            changed_rollout_file_count as nat,
            updated_sqlite_row_count as nat,
            updated_sqlite_timestamp_row_count as nat,
            added_session_index_entry_count as nat,
            updated_session_index_entry_count as nat,
            inserted_catalog_row_count as nat,
            removed_catalog_row_count as nat,
            updated_global_state_entry_count as nat,
            mutated_running_instance_count as nat,
        ),
{
    let mut out = String::new();
    if mutated_instance_count == 0 {
        push_str(&mut out, "预览未发现需要写入的会话可见性差异");
        return out;
    }
    push_headline(
        &mut out,
        "预览将为 ",
        mutated_instance_count,
        changed_rollout_file_count,
        updated_sqlite_row_count,
        updated_sqlite_timestamp_row_count,
    );
    push_counted(
        &mut out,
        added_session_index_entry_count > 0,
        "，补写 ",
        added_session_index_entry_count,
        " 条 session_index 记录",
    );
    push_counted(
        &mut out,
        updated_session_index_entry_count > 0,
        "，刷新 ",
        updated_session_index_entry_count,
        " 条 session_index 记录",
    );
    push_catalog_clause(&mut out, inserted_catalog_row_count, removed_catalog_row_count);
    push_counted(
        &mut out,
        updated_global_state_entry_count > 0,
        "，规范化 ",
        updated_global_state_entry_count,
        " 项全局工作区状态",
    );
    if mutated_running_instance_count > 0 {
        push_str(&mut out, "。包含运行中的实例；完整修复前需要先完全退出对应 Codex App/ChatGPT 实例");
    }
    out
}

/// The text that refuses a full repair of a running instance.
pub open spec fn running_refusal_message(instance_name: Seq<char>) -> Seq<char> {
    instance_name
        + " 正在运行；完整历史会话修复需要先完全退出对应 Codex App/ChatGPT 实例，避免会话文件或 SQLite 在修复过程中继续变化"@
}

/// The text that refuses a full repair of a running instance.
pub fn build_running_refusal_message(instance_name: &str) -> (r: String)
    ensures
        r@ == running_refusal_message(instance_name@),
{
    let mut out = String::new();
    push_str(&mut out, instance_name);
    push_str(
        &mut out,
        " 正在运行；完整历史会话修复需要先完全退出对应 Codex App/ChatGPT 实例，避免会话文件或 SQLite 在修复过程中继续变化",
    );
    out
}

/// The text that reports a failed instance repair, after the rollback was
/// tried; `restore_error` is the rollback's own failure, if any.
pub open spec fn repair_failure_message(
    instance_name: Seq<char>,
    error: Seq<char>,
    restore_error: Option<Seq<char>>,
    backup_dir: Seq<char>,
) -> Seq<char> {
    match restore_error {
        Some(restore) => "修复实例历史会话可见性失败 ("@ + instance_name + "): "@ + error
            + "；自动回滚也失败: "@ + restore + "；备份目录: "@ + backup_dir,
        None => "修复实例历史会话可见性失败 ("@ + instance_name + "): "@ + error
            + "；已自动回滚，备份目录: "@ + backup_dir,
    }
}

/// The text that reports a failed instance repair.
pub fn build_repair_failure_message(
    instance_name: &str,
    error: &str,
    restore_error: Option<&str>,
    backup_dir: &str,
) -> (r: String)
    ensures
        r@ == repair_failure_message(
            instance_name@,
            error@,
            match restore_error {
                Some(e) => Some(e@),
                None => None,
            },
            backup_dir@,
        ),
{
    let mut out = String::new();
    push_str(&mut out, "修复实例历史会话可见性失败 (");
    push_str(&mut out, instance_name);
    push_str(&mut out, "): ");
    push_str(&mut out, error);
    match restore_error {
        Some(restore) => {
            push_str(&mut out, "；自动回滚也失败: ");
            push_str(&mut out, restore);
            push_str(&mut out, "；备份目录: ");
        },
        None => {
            push_str(&mut out, "；已自动回滚，备份目录: ");
        },
    }
    push_str(&mut out, backup_dir);
    out
}

/// How many session files of one provider hold `encrypted_content`.
#[derive(Debug, Clone)]
pub struct ProviderCount {
    pub provider: String,
    pub count: usize,
}

/// The sum of all counts.
pub open spec fn total_count(counts: Seq<ProviderCount>) -> nat
    decreases counts.len(),
{
    if counts.len() == 0 {
        0
    } else {
        total_count(counts.drop_last()) + counts.last().count as nat
    }
}

/// The providers, other than `target`, with a positive count.
pub open spec fn foreign_encrypted_providers(counts: Seq<ProviderCount>, target: Seq<char>) -> Set<
    Seq<char>,
> {
    Set::new(
        |p: Seq<char>|
            exists|i: int|
                0 <= i < counts.len() && counts[i].count > 0 && #[trigger] counts[i].provider@
                    == p && p != target,
    )
}

/// `parts` joined with `sep` between neighbours.
pub open spec fn join(parts: Seq<Seq<char>>, sep: Seq<char>) -> Seq<char>
    decreases parts.len(),
{
    if parts.len() == 0 {
        seq![]
    } else if parts.len() == 1 {
        parts[0]
    } else {
        join(parts.drop_last(), sep) + sep + parts.last()
    }
}

/// The warning about history whose encrypted content came from other
/// providers; `None` when there is no such history.
pub open spec fn encrypted_content_warning(counts: Seq<ProviderCount>, target: Seq<char>) -> Option<
    Seq<char>,
> {
    let providers = foreign_encrypted_providers(counts, target);
    if providers.len() == 0 && providers.finite() {
        None
    } else {
        Some(
            "检测到 "@ + decimal(total_count(counts)) + " 个会话文件包含来自 "@ + join(
                sorted_of(providers),
                "、"@,
            ) + " 的 encrypted_content。会话元数据可以迁移到 "@ + target
                + "，但继续或压缩这些历史时仍可能出现 invalid_encrypted_content；需要可靠续聊时请切回原 Provider/账号或开启新会话。"@,
        )
    }
}

/// The strings of `parts` joined with `sep` between neighbours.
pub fn join_strings(parts: &Vec<String>, sep: &str) -> (r: String)
    ensures
        r@ == join(views(parts@), sep@),
{
    let mut out = String::new();
    let mut i: usize = 0;
    while i < parts.len()
        invariant
            i <= parts.len(),
            out@ == join(views(parts@.subrange(0, i as int)), sep@),
        decreases parts.len() - i,
    {
        let ghost prev = views(parts@.subrange(0, i as int));
        assert(views(parts@.subrange(0, i + 1)) == prev.push(parts@[i as int]@));
        assert(prev.push(parts@[i as int]@).drop_last() == prev);
        if i > 0 {
            push_str(&mut out, sep);
        } else {
            assert(prev.len() == 0);
        }
        push_str(&mut out, parts[i].as_str());
        i = i + 1;
    }
    assert(parts@.subrange(0, parts.len() as int) == parts@);
    out
}

/// The warning about history whose encrypted content came from other
/// providers than `target_provider`; `None` when there is none.
pub fn build_encrypted_content_warning(counts: &Vec<ProviderCount>, target_provider: &str) -> (r:
    Option<String>)
    requires
        total_count(counts@) <= usize::MAX,
    ensures
        match r {
            Some(s) => encrypted_content_warning(counts@, target_provider@) == Some(s@),
            None => encrypted_content_warning(counts@, target_provider@) is None,
        },
{
    let target = target_provider.to_string();
    let mut providers: Vec<String> = Vec::new();
    let mut total: usize = 0;
    let mut i: usize = 0;
    while i < counts.len()
        invariant
            i <= counts.len(),
            target@ == target_provider@,
            total == total_count(counts@.subrange(0, i as int)),
            total_count(counts@) <= usize::MAX,
            views(providers@).to_set() == foreign_encrypted_providers(
                counts@.subrange(0, i as int),
                target@,
            ),
        decreases counts.len() - i,
    {
        proof {
            lemma_total_count_prefix(counts@, i as int + 1);
            assert(counts@.subrange(0, i + 1).drop_last() == counts@.subrange(0, i as int));
        }
        total = total + counts[i].count;
        let keep = counts[i].count > 0 && counts[i].provider != target;
        proof {
            let pre = counts@.subrange(0, i as int);
            let post = counts@.subrange(0, i + 1);
            let x = counts@[i as int];
            if keep {
                views(providers@).lemma_push_to_set_commute(x.provider@);
                assert(views(providers@.push(x.provider)) == views(providers@).push(x.provider@));
                assert(foreign_encrypted_providers(post, target@) =~= foreign_encrypted_providers(
                    pre,
                    target@,
                ).insert(x.provider@)) by {
                    assert(post[i as int] == x);
                    assert forall|p: Seq<char>|
                        foreign_encrypted_providers(post, target@).contains(p) implies foreign_encrypted_providers(
                    pre, target@).insert(x.provider@).contains(p) by {
                        let k = choose|k: int|
                            0 <= k < post.len() && post[k].count > 0 && #[trigger] post[k].provider@
                                == p && p != target@;
                        if k < i {
                            assert(pre[k] == post[k]);
                        }
                    }
                    assert forall|p: Seq<char>|
                        foreign_encrypted_providers(pre, target@).contains(p) implies foreign_encrypted_providers(
                    post, target@).contains(p) by {
                        let k = choose|k: int|
                            0 <= k < pre.len() && pre[k].count > 0 && #[trigger] pre[k].provider@
                                == p && p != target@;
                        assert(post[k] == pre[k]);
                    }
                }
            } else {
                assert(foreign_encrypted_providers(post, target@) =~= foreign_encrypted_providers(
                    pre,
                    target@,
                )) by {
                    assert forall|p: Seq<char>|
                        foreign_encrypted_providers(post, target@).contains(p) implies foreign_encrypted_providers(
                    pre, target@).contains(p) by {
                        let k = choose|k: int|
                            0 <= k < post.len() && post[k].count > 0 && #[trigger] post[k].provider@
                                == p && p != target@;
                        if k < i {
                            assert(pre[k] == post[k]);
                        }
                    }
                    assert forall|p: Seq<char>|
                        foreign_encrypted_providers(pre, target@).contains(p) implies foreign_encrypted_providers(
                    post, target@).contains(p) by {
                        let k = choose|k: int|
                            0 <= k < pre.len() && pre[k].count > 0 && #[trigger] pre[k].provider@
                                == p && p != target@;
                        assert(post[k] == pre[k]);
                    }
                }
            }
        }
        if keep {
            providers.push(counts[i].provider.clone());
        }
        i = i + 1;
    }
    assert(counts@.subrange(0, counts.len() as int) == counts@);
    let sorted = sorted_distinct(&providers);
    if sorted.len() == 0 {
        assert(views(sorted@).to_set() =~= Set::empty());
        return None;
    }
    proof {
        assert(views(sorted@).to_set().contains(views(sorted@)[0]));
        views(sorted@).lemma_cardinality_of_set();
    }
    let mut out = String::new();
    push_str(&mut out, "检测到 ");
    push_decimal(&mut out, total);
    push_str(&mut out, " 个会话文件包含来自 ");
    let joined = join_strings(&sorted, "、");
    push_str(&mut out, joined.as_str());
    push_str(&mut out, " 的 encrypted_content。会话元数据可以迁移到 ");
    push_str(&mut out, target_provider);
    push_str(
        &mut out,
        "，但继续或压缩这些历史时仍可能出现 invalid_encrypted_content；需要可靠续聊时请切回原 Provider/账号或开启新会话。",
    );
    Some(out)
}

/// A prefix's total never exceeds the whole total.
pub proof fn lemma_total_count_prefix(counts: Seq<ProviderCount>, n: int)
    requires
        0 <= n <= counts.len(),
    ensures
        total_count(counts.subrange(0, n)) <= total_count(counts),
    decreases counts.len() - n,
{
    if n < counts.len() {
        lemma_total_count_prefix(counts, n + 1);
        assert(counts.subrange(0, n + 1).drop_last() == counts.subrange(0, n));
    } else {
        assert(counts.subrange(0, n) == counts);
    }
}

} // verus!
