//! The SQL that repairs the `threads` table of a Codex state database: which
//! rows need repair, how they are repaired, and the queries built from the
//! columns the table has; plus the texts of database errors.
use vstd::prelude::*;
use crate::messages::{join, join_strings};
use crate::selection::{selection_includes_session, RepairTargetSelection};
use crate::text::{chars_of, contains_infix, has_infix, lower_chars, lower_seq, push_str};
use crate::workspace_path::views;

verus! {

/// The columns of the `threads` table that the repair reads or writes.
#[derive(Debug, Clone, Copy, PartialEq, Eq, Structural)]
pub struct ThreadsTableColumns {
    pub id: bool,
    pub model_provider: bool,
    pub has_user_event: bool,
    pub first_user_message: bool,
    pub thread_source: bool,
    pub cwd: bool,
    pub archived: bool,
    pub preview: bool,
    pub rollout_path: bool,
    pub source: bool,
}

/// Whether `names` holds the column name `c`.
pub open spec fn has_column(names: Seq<Seq<char>>, c: Seq<char>) -> bool {
    names.contains(c)
}

/// The repair columns the table has; `None` when it has no column at all
/// (there is no `threads` table).
pub open spec fn columns_of(names: Seq<Seq<char>>) -> Option<ThreadsTableColumns> {
    if names.len() == 0 {
        None
    } else {
        Some(
            ThreadsTableColumns {
                id: has_column(names, "id"@),
                model_provider: has_column(names, "model_provider"@),
                has_user_event: has_column(names, "has_user_event"@),
                first_user_message: has_column(names, "first_user_message"@),
                thread_source: has_column(names, "thread_source"@),
                cwd: has_column(names, "cwd"@),
                archived: has_column(names, "archived"@),
                preview: has_column(names, "preview"@),
                rollout_path: has_column(names, "rollout_path"@),
                source: has_column(names, "source"@),
            },
        )
    }
}

/// Whether `names` holds `c`.
pub fn contains_name(names: &Vec<String>, c: &str) -> (b: bool)
    ensures
        b == views(names@).contains(c@),
{
    let target = chars_of(c);
    let mut i: usize = 0;
    while i < names.len()
        invariant
            i <= names.len(),
            target@ == c@,
            forall|j: int| 0 <= j < i ==> views(names@)[j] != c@,
        decreases names.len() - i,
    {
        if crate::text::chars_eq(&chars_of(names[i].as_str()), &target) {
            assert(views(names@)[i as int] == c@);
            return true;
        }
        i = i + 1;
    }
    false
}

/// The repair columns of a `threads` table, given the names of its columns.
pub fn read_threads_table_columns(names: &Vec<String>) -> (r: Option<ThreadsTableColumns>)
    ensures
        r == columns_of(views(names@)),
{
    if names.len() == 0 {
        return None;
    }
    Some(
        ThreadsTableColumns {
            id: contains_name(names, "id"),
            model_provider: contains_name(names, "model_provider"),
            has_user_event: contains_name(names, "has_user_event"),
            first_user_message: contains_name(names, "first_user_message"),
            thread_source: contains_name(names, "thread_source"),
            cwd: contains_name(names, "cwd"),
            archived: contains_name(names, "archived"),
            preview: contains_name(names, "preview"),
            rollout_path: contains_name(names, "rollout_path"),
            source: contains_name(names, "source"),
        },
    )
}

/// `s` alone when `cond` holds, nothing otherwise.
pub open spec fn when_part(cond: bool, s: Seq<char>) -> Seq<Seq<char>> {
    if cond {
        seq![s]
    } else {
        seq![]
    }
}

/// The conditions under which a row needs repair: another provider, a first
/// user message without the user-event flag, without a thread source, or
/// without a preview; each only where the table has the columns it reads.
pub open spec fn repair_predicates(c: ThreadsTableColumns) -> Seq<Seq<char>> {
    when_part(c.model_provider, "COALESCE(model_provider, '') <> ?1"@) + when_part(
        c.has_user_event && c.first_user_message,
        "(COALESCE(first_user_message, '') <> '' AND COALESCE(has_user_event, 0) <> 1)"@,
    ) + when_part(
        c.thread_source && c.first_user_message,
        "(COALESCE(first_user_message, '') <> '' AND COALESCE(thread_source, '') = '')"@,
    ) + when_part(
        c.preview && c.first_user_message,
        "(COALESCE(preview, '') = '' AND COALESCE(first_user_message, '') <> '')"@,
    )
}

/// The conditions under which a row shows in the official sidebar: not
/// archived, with a preview or first user message, with a rollout file, not
/// from a subagent or internal source, and not an ambient suggestion.
pub open spec fn visibility_predicates(c: ThreadsTableColumns) -> Seq<Seq<char>> {
    when_part(c.archived, "COALESCE(archived, 0) = 0"@) + (if c.preview && c.first_user_message {
        seq!["(COALESCE(preview, '') <> '' OR COALESCE(first_user_message, '') <> '')"@]
    } else if c.preview {
        seq!["COALESCE(preview, '') <> ''"@]
    } else {
        seq![]
    }) + when_part(c.rollout_path, "COALESCE(rollout_path, '') <> ''"@) + when_part(
        c.source,
        "LOWER(COALESCE(source, '')) NOT LIKE '%subagent%' AND LOWER(COALESCE(source, '')) NOT LIKE '%internal%'"@,
    ) + when_part(c.thread_source, "COALESCE(thread_source, '') <> 'ambient_suggestions'"@)
}

/// The `WHERE` condition of the rows to repair: any repair condition, and, when
/// only sidebar rows are repaired, all visibility conditions; `None` when the
/// table has no column a repair condition reads.
pub open spec fn repair_where_clause(c: ThreadsTableColumns, sidebar_visible_only: bool) -> Option<
    Seq<char>,
> {
    let p = repair_predicates(c);
    let v = visibility_predicates(c);
    if p.len() == 0 {
        None
    } else if sidebar_visible_only && v.len() > 0 {
        Some("("@ + join(p, " OR "@) + ")"@ + " AND ("@ + join(v, " AND "@) + ")"@)
    } else {
        Some("("@ + join(p, " OR "@) + ")"@)
    }
}

/// The assignments that repair a row: the target provider, the user-event
/// flag, the thread source and the preview, each where the table has the
/// columns involved.
pub open spec fn repair_assignments(c: ThreadsTableColumns) -> Seq<Seq<char>> {
    when_part(c.model_provider, "model_provider = ?1"@) + when_part(
        c.has_user_event && c.first_user_message,
        "has_user_event = CASE WHEN COALESCE(first_user_message, '') <> '' THEN 1 ELSE has_user_event END"@,
    ) + when_part(
        c.thread_source && c.first_user_message,
        "thread_source = CASE WHEN COALESCE(thread_source, '') = '' AND COALESCE(first_user_message, '') <> '' THEN 'user' ELSE thread_source END"@,
    ) + when_part(
        c.preview && c.first_user_message,
        "preview = CASE WHEN COALESCE(preview, '') = '' THEN first_user_message ELSE preview END"@,
    )
}

fn push_when(v: &mut Vec<String>, cond: bool, s: &str)
    ensures
        views(final(v)@) == views(old(v)@) + when_part(cond, s@),
{
    let ghost before = views(v@);
    if cond {
        v.push(s.to_string());
        proof {
            assert(views(v@) =~= before + seq![s@]);
        }
    } else {
        proof {
            assert(views(v@) =~= before + Seq::<Seq<char>>::empty());
        }
    }
}

fn repair_predicate_list(c: ThreadsTableColumns) -> (v: Vec<String>)
    ensures
        views(v@) == repair_predicates(c),
{
    let mut v: Vec<String> = Vec::new();
    push_when(&mut v, c.model_provider, "COALESCE(model_provider, '') <> ?1");
    push_when(
        &mut v,
        c.has_user_event && c.first_user_message,
        "(COALESCE(first_user_message, '') <> '' AND COALESCE(has_user_event, 0) <> 1)",
    );
    push_when(
        &mut v,
        c.thread_source && c.first_user_message,
        "(COALESCE(first_user_message, '') <> '' AND COALESCE(thread_source, '') = '')",
    );
    push_when(
        &mut v,
        c.preview && c.first_user_message,
        "(COALESCE(preview, '') = '' AND COALESCE(first_user_message, '') <> '')",
    );
    proof {
        assert(views(v@) =~= repair_predicates(c));
    }
    v
}

fn visibility_predicate_list(c: ThreadsTableColumns) -> (v: Vec<String>)
    ensures
        views(v@) == visibility_predicates(c),
{
    let mut v: Vec<String> = Vec::new();
    push_when(&mut v, c.archived, "COALESCE(archived, 0) = 0");
    let ghost after_archived = views(v@);
    if c.preview && c.first_user_message {
        v.push("(COALESCE(preview, '') <> '' OR COALESCE(first_user_message, '') <> '')".to_string());
    } else if c.preview {
        v.push("COALESCE(preview, '') <> ''".to_string());
    }
    proof {
        assert(views(v@) =~= after_archived + (if c.preview && c.first_user_message {
            seq!["(COALESCE(preview, '') <> '' OR COALESCE(first_user_message, '') <> '')"@]
        } else if c.preview {
            seq!["COALESCE(preview, '') <> ''"@]
        } else {
            seq![]
        }));
    }
    push_when(&mut v, c.rollout_path, "COALESCE(rollout_path, '') <> ''");
    push_when(
        &mut v,
        c.source,
        "LOWER(COALESCE(source, '')) NOT LIKE '%subagent%' AND LOWER(COALESCE(source, '')) NOT LIKE '%internal%'",
    );
    push_when(&mut v, c.thread_source, "COALESCE(thread_source, '') <> 'ambient_suggestions'");
    proof {
        assert(views(v@) =~= visibility_predicates(c));
    }
    v
}

/// The `WHERE` condition of the rows to repair (see `repair_where_clause`).
pub fn build_threads_repair_where_clause(columns: ThreadsTableColumns, sidebar_visible_only: bool) -> (r:
    Option<String>)
    ensures
        match r {
            Some(w) => repair_where_clause(columns, sidebar_visible_only) == Some(w@),
            None => repair_where_clause(columns, sidebar_visible_only) is None,
        },
{
    let predicates = repair_predicate_list(columns);
    if predicates.len() == 0 {
        return None;
    }
    let mut where_clause = "(".to_string();
    push_str(&mut where_clause, join_strings(&predicates, " OR ").as_str());
    push_str(&mut where_clause, ")");
    if sidebar_visible_only {
        let visibility = visibility_predicate_list(columns);
        if visibility.len() > 0 {
            push_str(&mut where_clause, " AND (");
            push_str(&mut where_clause, join_strings(&visibility, " AND ").as_str());
            push_str(&mut where_clause, ")");
        }
    }
    Some(where_clause)
}

/// The assignments that repair a row, comma separated (see `repair_assignments`).
pub fn build_threads_repair_set_clause(columns: ThreadsTableColumns) -> (r: String)
    ensures
        r@ == join(repair_assignments(columns), ", "@),
{
    let mut v: Vec<String> = Vec::new();
    push_when(&mut v, columns.model_provider, "model_provider = ?1");
    push_when(
        &mut v,
        columns.has_user_event && columns.first_user_message,
        "has_user_event = CASE WHEN COALESCE(first_user_message, '') <> '' THEN 1 ELSE has_user_event END",
    );
    push_when(
        &mut v,
        columns.thread_source && columns.first_user_message,
        "thread_source = CASE WHEN COALESCE(thread_source, '') = '' AND COALESCE(first_user_message, '') <> '' THEN 'user' ELSE thread_source END",
    );
    push_when(
        &mut v,
        columns.preview && columns.first_user_message,
        "preview = CASE WHEN COALESCE(preview, '') = '' THEN first_user_message ELSE preview END",
    );
    proof {
        assert(views(v@) =~= repair_assignments(columns));
    }
    join_strings(&v, ", ")
}

/// A text column read with a fallback for `NULL`, or the fallback alone when
/// the table has no such column.
pub open spec fn text_expr(names: Seq<Seq<char>>, column: Seq<char>, fallback: Seq<char>) -> Seq<char> {
    if names.contains(column) {
        "COALESCE("@ + column + ", "@ + fallback + ")"@
    } else {
        fallback
    }
}

/// The SQL for a text column with a fallback (see `text_expr`).
pub fn sqlite_text_expr(columns: &Vec<String>, column: &str, fallback: &str) -> (r: String)
    ensures
        r@ == text_expr(views(columns@), column@, fallback@),
{
    if contains_name(columns, column) {
        let mut r = "COALESCE(".to_string();
        push_str(&mut r, column);
        push_str(&mut r, ", ");
        push_str(&mut r, fallback);
        push_str(&mut r, ")");
        r
    } else {
        fallback.to_string()
    }
}

/// A time in seconds (possibly fractional): the milliseconds column divided by
/// a thousand when the table has it; else the seconds column, divided by a
/// thousand when it holds a value too large to be seconds; else zero.
pub open spec fn time_expr(names: Seq<Seq<char>>, seconds_column: Seq<char>, millis_column: Seq<char>) -> Seq<
    char,
> {
    if names.contains(millis_column) {
        "COALESCE("@ + millis_column + " / 1000.0, 0)"@
    } else if names.contains(seconds_column) {
        "CASE WHEN COALESCE("@ + seconds_column + ", 0) > 9999999999 THEN "@ + seconds_column
            + " / 1000.0 ELSE COALESCE("@ + seconds_column + ", 0) END"@
    } else {
        "0"@
    }
}

/// The SQL for a time in seconds (see `time_expr`).
pub fn sqlite_time_expr(columns: &Vec<String>, seconds_column: &str, millis_column: &str) -> (r:
    String)
    ensures
        r@ == time_expr(views(columns@), seconds_column@, millis_column@),
{
    if contains_name(columns, millis_column) {
        let mut r = "COALESCE(".to_string();
        push_str(&mut r, millis_column);
        push_str(&mut r, " / 1000.0, 0)");
        r
    } else if contains_name(columns, seconds_column) {
        let mut r = "CASE WHEN COALESCE(".to_string();
        push_str(&mut r, seconds_column);
        push_str(&mut r, ", 0) > 9999999999 THEN ");
        push_str(&mut r, seconds_column);
        push_str(&mut r, " / 1000.0 ELSE COALESCE(");
        push_str(&mut r, seconds_column);
        push_str(&mut r, ", 0) END");
        r
    } else {
        "0".to_string()
    }
}

/// The ids, out of those a repair query selected, that are repaired: those the
/// selection includes and that are not excluded (subagent threads), in order;
/// none when the table has no `id` column.
pub open spec fn eligible_ids(
    has_id: bool,
    ids: Seq<Seq<char>>,
    selection: RepairTargetSelection,
    excluded: Seq<Seq<char>>,
) -> Seq<Seq<char>>
    decreases ids.len(),
{
    if !has_id || ids.len() == 0 {
        seq![]
    } else if selection_includes_session(selection, ids.last()) && !excluded.contains(ids.last()) {
        eligible_ids(has_id, ids.drop_last(), selection, excluded).push(ids.last())
    } else {
        eligible_ids(has_id, ids.drop_last(), selection, excluded)
    }
}

/// The threads a repair query selected that are to be repaired (see
/// `eligible_ids`).
pub fn collect_eligible_thread_ids_for_repair(
    columns: ThreadsTableColumns,
    selected_ids: &Vec<String>,
    selection: &RepairTargetSelection,
    excluded_thread_ids: &Vec<String>,
) -> (r: Vec<String>)
    ensures
        views(r@) == eligible_ids(columns.id, views(selected_ids@), *selection, views(excluded_thread_ids@)),
{
    let mut r: Vec<String> = Vec::new();
    if !columns.id {
        return r;
    }
    let mut k: usize = 0;
    while k < selected_ids.len()
        invariant
            k <= selected_ids.len(),
            columns.id,
            views(r@) == eligible_ids(
                true,
                views(selected_ids@).subrange(0, k as int),
                *selection,
                views(excluded_thread_ids@),
            ),
        decreases selected_ids.len() - k,
    {
        let id = &selected_ids[k];
        let keep = selection.includes_session_id(id.as_str()) && !contains_name(
            excluded_thread_ids,
            id.as_str(),
        );
        let ghost before = views(r@);
        proof {
            assert(views(selected_ids@).subrange(0, k + 1).drop_last() =~= views(
                selected_ids@,
            ).subrange(0, k as int));
            assert(views(selected_ids@).subrange(0, k + 1).last() == id@);
        }
        if keep {
            r.push(id.clone());
            proof {
                assert(views(r@) =~= before.push(id@));
            }
        }
        k = k + 1;
    }
    proof {
        assert(views(selected_ids@).subrange(0, selected_ids.len() as int) =~= views(selected_ids@));
    }
    r
}

/// The statements of a provider repair of the `threads` table.
#[derive(Debug, Clone, Copy, PartialEq, Eq, Structural)]
pub enum ThreadsRepairStatement {
    /// Counts all rows that need repair.
    CountAll,
    /// Counts the rows of one thread that need repair.
    CountOne,
    /// Repairs all rows that need it.
    UpdateAll,
    /// Repairs the rows of one thread that need it.
    UpdateOne,
    /// Repairs the rows of one thread picked beforehand.
    UpdatePicked,
    /// Lists the ids of the rows that need repair.
    SelectIds,
}

/// The placeholder of the thread id: the second when the target provider is
/// bound as the first (the table has a `model_provider` column), else the first.
pub open spec fn id_placeholder(provider_bound: bool) -> Seq<char> {
    if provider_bound {
        "?2"@
    } else {
        "?1"@
    }
}

/// The SQL of a provider repair statement over the given condition and assignments.
pub open spec fn repair_statement_sql(
    kind: ThreadsRepairStatement,
    where_clause: Seq<char>,
    set_clause: Seq<char>,
    provider_bound: bool,
) -> Seq<char> {
    match kind {
        ThreadsRepairStatement::CountAll => "SELECT COUNT(*) FROM threads WHERE "@ + where_clause,
        ThreadsRepairStatement::CountOne => "SELECT COUNT(*) FROM threads WHERE ("@ + where_clause
            + ") AND id = "@ + id_placeholder(provider_bound),
        ThreadsRepairStatement::UpdateAll => "UPDATE threads SET "@ + set_clause + " WHERE "@
            + where_clause,
        ThreadsRepairStatement::UpdateOne => "UPDATE threads SET "@ + set_clause + " WHERE ("@
            + where_clause + ") AND id = "@ + id_placeholder(provider_bound),
        ThreadsRepairStatement::UpdatePicked => "UPDATE threads SET "@ + set_clause + " WHERE id = "@
            + id_placeholder(provider_bound),
        ThreadsRepairStatement::SelectIds => "SELECT id FROM threads WHERE "@ + where_clause,
    }
}

/// The SQL of a provider repair statement (see `repair_statement_sql`).
pub fn threads_repair_statement(
    kind: ThreadsRepairStatement,
    where_clause: &str,
    set_clause: &str,
    provider_bound: bool,
) -> (r: String)
    ensures
        r@ == repair_statement_sql(kind, where_clause@, set_clause@, provider_bound),
{
    let placeholder = if provider_bound {
        "?2"
    } else {
        "?1"
    };
    match kind {
        ThreadsRepairStatement::CountAll => {
            let mut r = "SELECT COUNT(*) FROM threads WHERE ".to_string();
            push_str(&mut r, where_clause);
            r
        },
        ThreadsRepairStatement::CountOne => {
            let mut r = "SELECT COUNT(*) FROM threads WHERE (".to_string();
            push_str(&mut r, where_clause);
            push_str(&mut r, ") AND id = ");
            push_str(&mut r, placeholder);
            r
        },
        ThreadsRepairStatement::UpdateAll => {
            let mut r = "UPDATE threads SET ".to_string();
            push_str(&mut r, set_clause);
            push_str(&mut r, " WHERE ");
            push_str(&mut r, where_clause);
            r
        },
        ThreadsRepairStatement::UpdateOne => {
            let mut r = "UPDATE threads SET ".to_string();
            push_str(&mut r, set_clause);
            push_str(&mut r, " WHERE (");
            push_str(&mut r, where_clause);
            push_str(&mut r, ") AND id = ");
            push_str(&mut r, placeholder);
            r
        },
        ThreadsRepairStatement::UpdatePicked => {
            let mut r = "UPDATE threads SET ".to_string();
            push_str(&mut r, set_clause);
            push_str(&mut r, " WHERE id = ");
            push_str(&mut r, placeholder);
            r
        },
        ThreadsRepairStatement::SelectIds => {
            let mut r = "SELECT id FROM threads WHERE ".to_string();
            push_str(&mut r, where_clause);
            r
        },
    }
}

/// How the rows of one database are counted and repaired.
#[derive(Debug, Clone, Copy, PartialEq, Eq, Structural)]
pub enum ProviderRepairStrategy {
    /// No repair condition applies: nothing is counted or repaired this way.
    Skip,
    /// Pick the rows by query, keep the selected non-subagent threads, and
    /// repair them one by one.
    PickedThreads,
    /// Repair the selected sessions one by one.
    SelectedSessions,
    /// Repair every row that needs it at once.
    AllRows,
}

/// The strategy: by picked threads when the rollout facts were gathered, by
/// session when the run is limited to sessions, else all at once.
pub open spec fn repair_strategy(has_where: bool, has_facts: bool, has_session_filter: bool) -> ProviderRepairStrategy {
    if !has_where {
        ProviderRepairStrategy::Skip
    } else if has_facts {
        ProviderRepairStrategy::PickedThreads
    } else if has_session_filter {
        ProviderRepairStrategy::SelectedSessions
    } else {
        ProviderRepairStrategy::AllRows
    }
}

/// The strategy for a database (see `repair_strategy`).
pub fn provider_repair_strategy(has_where: bool, has_facts: bool, has_session_filter: bool) -> (r:
    ProviderRepairStrategy)
    ensures
        r == repair_strategy(has_where, has_facts, has_session_filter),
{
    if !has_where {
        ProviderRepairStrategy::Skip
    } else if has_facts {
        ProviderRepairStrategy::PickedThreads
    } else if has_session_filter {
        ProviderRepairStrategy::SelectedSessions
    } else {
        ProviderRepairStrategy::AllRows
    }
}

/// A database error names the missing `threads` table.
pub open spec fn names_missing_threads_table(message: Seq<char>) -> bool {
    has_infix(lower_seq(message), "no such table: threads"@)
}

/// Whether a database error's text says that there is no `threads` table.
pub fn is_missing_threads_table_error(message: &str) -> (b: bool)
    ensures
        b == names_missing_threads_table(message@),
{
    let lowered = lower_chars(&chars_of(message));
    contains_infix(&lowered, &chars_of("no such table: threads"))
}

/// The text of a failed read: the action, the database path and the reason.
pub open spec fn read_error_text(path: Seq<char>, action: Seq<char>, reason: Seq<char>) -> Seq<char> {
    action + " ("@ + path + "): "@ + reason
}

/// The text of a failed database read.
pub fn format_sqlite_read_error(path: &str, action: &str, reason: &str) -> (r: String)
    ensures
        r@ == read_error_text(path@, action@, reason@),
{
    let mut r = action.to_string();
    push_str(&mut r, " (");
    push_str(&mut r, path);
    push_str(&mut r, "): ");
    push_str(&mut r, reason);
    r
}

/// The text of a failed write: a busy or locked database asks the user to
/// close Codex first; any other failure is reported as such.
pub open spec fn write_error_text(path: Seq<char>, reason: Seq<char>) -> Seq<char> {
    let lowered = lower_seq(reason);
    if has_infix(lowered, "database is locked"@) || has_infix(lowered, "database busy"@) {
        "Codex SQLite 会话库当前被占用，请关闭 Codex / Codex App 后重试 ("@ + path + "): "@ + reason
    } else {
        "更新 SQLite 会话可见性失败 ("@ + path + "): "@ + reason
    }
}

/// The text of a failed database write.
pub fn format_sqlite_write_error(path: &str, reason: &str) -> (r: String)
    ensures
        r@ == write_error_text(path@, reason@),
{
    let lowered = lower_chars(&chars_of(reason));
    let busy = contains_infix(&lowered, &chars_of("database is locked")) || contains_infix(
        &lowered,
        &chars_of("database busy"),
    );
    let mut r = if busy {
        "Codex SQLite 会话库当前被占用，请关闭 Codex / Codex App 后重试 (".to_string()
    } else {
        "更新 SQLite 会话可见性失败 (".to_string()
    };
    push_str(&mut r, path);
    push_str(&mut r, "): ");
    push_str(&mut r, reason);
    r
}

/// The text of a database that could not be opened.
pub open spec fn open_error_text(path: Seq<char>, reason: Seq<char>) -> Seq<char> {
    "打开实例数据库失败 ("@ + path + "): "@ + reason
}

/// The text of a database that could not be opened.
pub fn format_sqlite_open_error(path: &str, reason: &str) -> (r: String)
    ensures
        r@ == open_error_text(path@, reason@),
{
    let mut r = "打开实例数据库失败 (".to_string();
    push_str(&mut r, path);
    push_str(&mut r, "): ");
    push_str(&mut r, reason);
    r
}

/// The query of the distinct non-empty providers of a table.
pub open spec fn provider_ids_sql(table: Seq<char>) -> Seq<char> {
    "SELECT DISTINCT model_provider FROM "@ + table + " WHERE COALESCE(model_provider, '') <> ''"@
}

/// The query of the distinct non-empty providers of a table.
pub fn sqlite_provider_ids_query(table: &str) -> (r: String)
    ensures
        r@ == provider_ids_sql(table@),
{
    let mut r = "SELECT DISTINCT model_provider FROM ".to_string();
    push_str(&mut r, table);
    push_str(&mut r, " WHERE COALESCE(model_provider, '') <> ''");
    r
}

/// `s` with every double quote doubled.
pub open spec fn quote_doubled(s: Seq<char>) -> Seq<char>
    decreases s.len(),
{
    if s.len() == 0 {
        seq![]
    } else if s.last() == '"' {
        quote_doubled(s.drop_last()) + seq!['"', '"']
    } else {
        quote_doubled(s.drop_last()).push(s.last())
    }
}

/// The pragma that lists the columns of a table, its name quoted.
pub open spec fn table_info_sql(table: Seq<char>) -> Seq<char> {
    "PRAGMA table_info(\""@ + quote_doubled(table) + "\")"@
}

/// The pragma that lists the columns of a table (see `table_info_sql`).
pub fn table_info_query(table: &str) -> (r: String)
    ensures
        r@ == table_info_sql(table@),
{
    let cs = chars_of(table);
    let mut r = "PRAGMA table_info(\"".to_string();
    let ghost head = r@;
    let mut k: usize = 0;
    while k < cs.len()
        invariant
            k <= cs.len(),
            cs@ == table@,
            r@ == head + quote_doubled(cs@.subrange(0, k as int)),
        decreases cs.len() - k,
    {
        proof {
            assert(cs@.subrange(0, k + 1).drop_last() =~= cs@.subrange(0, k as int));
            assert(cs@.subrange(0, k + 1).last() == cs@[k as int]);
        }
        if cs[k] == '"' {
            crate::text::push_char(&mut r, '"');
            crate::text::push_char(&mut r, '"');
            proof {
                assert(r@ =~= head + quote_doubled(cs@.subrange(0, k + 1)));
            }
        } else {
            crate::text::push_char(&mut r, cs[k]);
            proof {
                assert(r@ =~= head + quote_doubled(cs@.subrange(0, k + 1)));
            }
        }
        k = k + 1;
    }
    proof {
        assert(cs@.subrange(0, cs.len() as int) =~= cs@);
    }
    push_str(&mut r, "\")");
    r
}


/// The statements that bring single threads in line with what their rollout
/// files show: the user-event flag and the working directory.
#[derive(Debug, Clone, Copy, PartialEq, Eq, Structural)]
pub enum ThreadFactStatement {
    /// Counts a thread (`?1`) whose user-event flag is not set.
    CountUserEvent,
    /// Counts a thread (`?1`) whose working directory differs from `?2`.
    CountCwd,
    /// Sets the user-event flag of a thread (`?1`) where it is not set.
    UpdateUserEvent,
    /// Sets the working directory (`?1`) of a thread (`?2`) where it differs.
    UpdateCwd,
}

/// The SQL of a thread fact statement.
pub open spec fn fact_statement_sql(kind: ThreadFactStatement) -> Seq<char> {
    match kind {
        ThreadFactStatement::CountUserEvent => "SELECT COUNT(*) FROM threads WHERE id = ?1 AND COALESCE(has_user_event, 0) <> 1"@,
        ThreadFactStatement::CountCwd => "SELECT COUNT(*) FROM threads WHERE id = ?1 AND COALESCE(cwd, '') <> ?2"@,
        ThreadFactStatement::UpdateUserEvent => "UPDATE threads SET has_user_event = 1 WHERE id = ?1 AND COALESCE(has_user_event, 0) <> 1"@,
        ThreadFactStatement::UpdateCwd => "UPDATE threads SET cwd = ?1 WHERE id = ?2 AND COALESCE(cwd, '') <> ?1"@,
    }
}

/// The SQL of a thread fact statement (see `fact_statement_sql`).
pub fn thread_fact_statement(kind: ThreadFactStatement) -> (r: String)
    ensures
        r@ == fact_statement_sql(kind),
{
    match kind {
        ThreadFactStatement::CountUserEvent => "SELECT COUNT(*) FROM threads WHERE id = ?1 AND COALESCE(has_user_event, 0) <> 1".to_string(),
        ThreadFactStatement::CountCwd => "SELECT COUNT(*) FROM threads WHERE id = ?1 AND COALESCE(cwd, '') <> ?2".to_string(),
        ThreadFactStatement::UpdateUserEvent => "UPDATE threads SET has_user_event = 1 WHERE id = ?1 AND COALESCE(has_user_event, 0) <> 1".to_string(),
        ThreadFactStatement::UpdateCwd => "UPDATE threads SET cwd = ?1 WHERE id = ?2 AND COALESCE(cwd, '') <> ?1".to_string(),
    }
}


/// The tables whose presence marks a Codex session database.
pub open spec fn session_tables() -> Seq<Seq<char>> {
    seq!["threads"@, "local_thread_catalog"@, "automation_runs"@, "inbox_items"@]
}

/// The tables whose presence marks a database that records providers.
pub open spec fn provider_tables() -> Seq<Seq<char>> {
    seq!["threads"@, "local_thread_catalog"@]
}

/// The tables whose presence marks a Codex session database (see
/// `session_tables`).
pub fn codex_session_tables() -> (r: Vec<String>)
    ensures
        views(r@) == session_tables(),
{
    let r = vec![
        "threads".to_string(),
        "local_thread_catalog".to_string(),
        "automation_runs".to_string(),
        "inbox_items".to_string(),
    ];
    proof {
        assert(views(r@) =~= session_tables());
    }
    r
}

/// The tables whose presence marks a database that records providers (see
/// `provider_tables`).
pub fn provider_sync_tables() -> (r: Vec<String>)
    ensures
        views(r@) == provider_tables(),
{
    let r = vec!["threads".to_string(), "local_thread_catalog".to_string()];
    proof {
        assert(views(r@) =~= provider_tables());
    }
    r
}

/// The query that tells whether a table (`?1`) exists.
pub fn table_exists_query() -> (r: String)
    ensures
        r@ == "SELECT 1 FROM sqlite_master WHERE type = 'table' AND name = ?1 LIMIT 1"@,
{
    "SELECT 1 FROM sqlite_master WHERE type = 'table' AND name = ?1 LIMIT 1".to_string()
}

} // verus!
