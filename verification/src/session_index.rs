//! The session index (`session_index.jsonl`) and the update times of threads:
//! which threads the index is rebuilt from, which entries are missing or stale,
//! how the index file is rewritten, and which database times are repaired.
use vstd::prelude::*;
use crate::messages::{join, join_strings};
use crate::selection::{selection_includes_session, RepairTargetSelection};
use crate::text::{push_str, trim, trim_str};
use crate::threads_sql::contains_name;
use crate::timestamps::{
    distance, entry_needs_update, ms_in_range, opt_in_range, opt_int,
    session_index_entry_needs_update, SqliteThreadIndexRow,
};
use crate::workspace_path::views;

verus! {

/// The query of the threads the session index is rebuilt from, given the
/// columns of the `threads` table; `None` when it has no `id` column. Missing
/// columns read as empty or `NULL`; rows come newest first when the table has
/// `updated_at`, else by id.
pub open spec fn thread_index_sql(names: Seq<Seq<char>>) -> Option<Seq<char>> {
    if !names.contains("id"@) {
        None
    } else {
        let title = if names.contains("title"@) {
            "COALESCE(title, '')"@
        } else {
            "''"@
        };
        let updated_at = if names.contains("updated_at"@) {
            "updated_at"@
        } else {
            "NULL"@
        };
        let updated_at_ms = if names.contains("updated_at_ms"@) {
            "updated_at_ms"@
        } else {
            "NULL"@
        };
        let rollout_path = if names.contains("rollout_path"@) {
            "rollout_path"@
        } else {
            "NULL"@
        };
        let order = if names.contains("updated_at"@) {
            "updated_at DESC"@
        } else {
            "id ASC"@
        };
        Some(
            "SELECT id, "@ + title + ", "@ + updated_at + ", "@ + updated_at_ms + ", "@ + rollout_path
                + " FROM threads ORDER BY "@ + order,
        )
    }
}

/// The query of the threads the session index is rebuilt from (see `thread_index_sql`).
pub fn thread_index_query(names: &Vec<String>) -> (r: Option<String>)
    ensures
        match r {
            Some(q) => thread_index_sql(views(names@)) == Some(q@),
            None => thread_index_sql(views(names@)) is None,
        },
{
    if !contains_name(names, "id") {
        return None;
    }
    let title = if contains_name(names, "title") {
        "COALESCE(title, '')"
    } else {
        "''"
    };
    let has_updated_at = contains_name(names, "updated_at");
    let updated_at = if has_updated_at {
        "updated_at"
    } else {
        "NULL"
    };
    let updated_at_ms = if contains_name(names, "updated_at_ms") {
        "updated_at_ms"
    } else {
        "NULL"
    };
    let rollout_path = if contains_name(names, "rollout_path") {
        "rollout_path"
    } else {
        "NULL"
    };
    let order = if has_updated_at {
        "updated_at DESC"
    } else {
        "id ASC"
    };
    let mut q = "SELECT id, ".to_string();
    push_str(&mut q, title);
    push_str(&mut q, ", ");
    push_str(&mut q, updated_at);
    push_str(&mut q, ", ");
    push_str(&mut q, updated_at_ms);
    push_str(&mut q, ", ");
    push_str(&mut q, rollout_path);
    push_str(&mut q, " FROM threads ORDER BY ");
    push_str(&mut q, order);
    Some(q)
}

impl SqliteThreadIndexRow {
    /// A copy of the row.
    pub fn duplicate(&self) -> (r: Self)
        ensures
            r == *self,
    {
        SqliteThreadIndexRow {
            id: self.id.clone(),
            title: self.title.clone(),
            updated_at: self.updated_at,
            updated_at_ms: self.updated_at_ms,
            rollout_path: match &self.rollout_path {
                Some(p) => Some(p.clone()),
                None => None,
            },
        }
    }
}

/// The ids of rows.
pub open spec fn row_ids(rows: Seq<SqliteThreadIndexRow>) -> Seq<Seq<char>> {
    rows.map_values(|r: SqliteThreadIndexRow| r.id@)
}

/// The rows of all databases, in order.
pub open spec fn all_rows(dbs: Seq<Vec<SqliteThreadIndexRow>>) -> Seq<SqliteThreadIndexRow>
    decreases dbs.len(),
{
    if dbs.len() == 0 {
        seq![]
    } else {
        all_rows(dbs.drop_last()) + dbs.last()@
    }
}

/// The rows that the selection includes, each thread once (its first row).
pub open spec fn first_rows(rows: Seq<SqliteThreadIndexRow>, sel: RepairTargetSelection) -> Seq<
    SqliteThreadIndexRow,
>
    decreases rows.len(),
{
    if rows.len() == 0 {
        seq![]
    } else {
        let kept = first_rows(rows.drop_last(), sel);
        let r = rows.last();
        if selection_includes_session(sel, r.id@) && !row_ids(kept).contains(r.id@) {
            kept.push(r)
        } else {
            kept
        }
    }
}

/// The session index is rebuilt only from threads the run includes, each once,
/// and from every one of them: each kept row is a row of the input whose thread
/// the run's session list includes, no thread is kept twice, and every input
/// row of an included thread has its thread kept.
pub proof fn index_rows_are_the_selected_threads(rows: Seq<SqliteThreadIndexRow>, sel: RepairTargetSelection)
    ensures
        forall|j: int|
            0 <= j < first_rows(rows, sel).len() ==> rows.contains(#[trigger] first_rows(rows, sel)[j])
                && (sel.session_ids is Some ==> views(sel.session_ids->0@).contains(
                first_rows(rows, sel)[j].id@,
            )),
        row_ids(first_rows(rows, sel)).no_duplicates(),
        forall|i: int|
            0 <= i < rows.len() && (sel.session_ids is None || views(sel.session_ids->0@).contains(
                (#[trigger] rows[i]).id@,
            )) ==> row_ids(first_rows(rows, sel)).contains(rows[i].id@),
    decreases rows.len(),
{
    if rows.len() > 0 {
        let init = rows.drop_last();
        index_rows_are_the_selected_threads(init, sel);
        let kept = first_rows(init, sel);
        let out = first_rows(rows, sel);
        let r = rows.last();
        let pushed = selection_includes_session(sel, r.id@) && !row_ids(kept).contains(r.id@);
        if pushed {
            assert(out == kept.push(r));
            assert(row_ids(out) =~= row_ids(kept).push(r.id@));
        } else {
            assert(out == kept);
        }
        assert forall|j: int| 0 <= j < out.len() implies rows.contains(#[trigger] out[j]) && (
        sel.session_ids is Some ==> views(sel.session_ids->0@).contains(out[j].id@)) by {
            if j < kept.len() {
                assert(out[j] == kept[j]);
                let w = choose|w: int| 0 <= w < init.len() && init[w] == kept[j];
                assert(rows[w] == init[w]);
            } else {
                assert(out[j] == r);
                assert(rows[rows.len() - 1] == r);
            }
        }
        assert(row_ids(out).no_duplicates()) by {
            if pushed {
                assert forall|a: int, b: int| 0 <= a < b < row_ids(out).len() implies row_ids(out)[a]
                    != row_ids(out)[b] by {
                    if b == row_ids(out).len() - 1 {
                        assert(row_ids(out)[a] == row_ids(kept)[a]);
                    } else {
                        assert(row_ids(out)[a] == row_ids(kept)[a]);
                        assert(row_ids(out)[b] == row_ids(kept)[b]);
                    }
                }
            }
        }
        assert forall|i: int|
            0 <= i < rows.len() && (sel.session_ids is None || views(sel.session_ids->0@).contains(
                (#[trigger] rows[i]).id@,
            )) implies row_ids(out).contains(rows[i].id@) by {
            if i < rows.len() - 1 {
                assert(init[i] == rows[i]);
                assert(row_ids(kept).contains(init[i].id@));
                let w = choose|w: int| 0 <= w < row_ids(kept).len() && row_ids(kept)[w] == init[i].id@;
                if pushed {
                    assert(row_ids(out)[w] == row_ids(kept)[w]);
                }
            } else {
                assert(rows[i] == r);
                if pushed {
                    assert(row_ids(out)[row_ids(out).len() - 1] == r.id@);
                }
            }
        }
    }
}

fn has_row_id(rows: &Vec<SqliteThreadIndexRow>, id: &String) -> (b: bool)
    ensures
        b == row_ids(rows@).contains(id@),
{
    let mut i: usize = 0;
    while i < rows.len()
        invariant
            i <= rows.len(),
            forall|j: int| 0 <= j < i ==> row_ids(rows@)[j] != id@,
        decreases rows.len() - i,
    {
        if rows[i].id == *id {
            assert(row_ids(rows@)[i as int] == id@);
            return true;
        }
        i = i + 1;
    }
    false
}

/// The threads the session index is rebuilt from, out of the rows of each
/// candidate database (in order): those the selection includes, each thread
/// once, taken from the first database that has it.
pub fn load_sqlite_thread_index_rows_for_options(
    per_db_rows: &Vec<Vec<SqliteThreadIndexRow>>,
    selection: &RepairTargetSelection,
) -> (r: Vec<SqliteThreadIndexRow>)
    ensures
        r@ == first_rows(all_rows(per_db_rows@), *selection),
        forall|j: int|
            0 <= j < r.len() ==> all_rows(per_db_rows@).contains(#[trigger] r@[j]) && (
            selection.session_ids is Some ==> views(selection.session_ids->0@).contains(r@[j].id@)),
        row_ids(r@).no_duplicates(),
{
    proof {
        index_rows_are_the_selected_threads(all_rows(per_db_rows@), *selection);
    }
    let mut out: Vec<SqliteThreadIndexRow> = Vec::new();
    let mut d: usize = 0;
    proof {
        assert(per_db_rows@.subrange(0, 0) =~= Seq::<Vec<SqliteThreadIndexRow>>::empty());
    }
    while d < per_db_rows.len()
        invariant
            d <= per_db_rows.len(),
            out@ == first_rows(all_rows(per_db_rows@.subrange(0, d as int)), *selection),
        decreases per_db_rows.len() - d,
    {
        let rows = &per_db_rows[d];
        let ghost base = all_rows(per_db_rows@.subrange(0, d as int));
        proof {
            assert(base + rows@.subrange(0, 0) =~= base);
        }
        let mut k: usize = 0;
        while k < rows.len()
            invariant
                k <= rows.len(),
                rows == per_db_rows@[d as int],
                out@ == first_rows(base + rows@.subrange(0, k as int), *selection),
            decreases rows.len() - k,
        {
            let row = &rows[k];
            let keep = selection.includes_session_id(row.id.as_str()) && !has_row_id(&out, &row.id);
            proof {
                let s = base + rows@.subrange(0, k + 1);
                assert(s.drop_last() =~= base + rows@.subrange(0, k as int));
                assert(s.last() == rows@[k as int]);
            }
            if keep {
                out.push(row.duplicate());
            }
            k = k + 1;
        }
        proof {
            assert(rows@.subrange(0, rows.len() as int) =~= rows@);
            let next = per_db_rows@.subrange(0, d + 1);
            assert(next.drop_last() =~= per_db_rows@.subrange(0, d as int));
            assert(next.last() == per_db_rows@[d as int]);
        }
        d = d + 1;
    }
    proof {
        assert(per_db_rows@.subrange(0, per_db_rows.len() as int) =~= per_db_rows@);
    }
    out
}

/// What the session index holds for a thread: nothing, or an entry with the
/// time it records (if any).
#[derive(Debug, Clone, Copy)]
pub enum IndexedEntry {
    Missing,
    Present(Option<i128>),
}

/// A thread as the session index is checked against it: what the index holds
/// for it and the time the thread should carry.
#[derive(Debug, Clone, Copy)]
pub struct SessionIndexCheck {
    pub entry: IndexedEntry,
    pub target_ms: Option<i128>,
}

/// The times of a check are in range.
pub open spec fn check_in_range(c: SessionIndexCheck) -> bool {
    &&& opt_in_range(c.target_ms)
    &&& (c.entry matches IndexedEntry::Present(t) ==> opt_in_range(t))
}

/// The thread has no entry.
pub open spec fn check_adds(c: SessionIndexCheck) -> bool {
    c.entry is Missing
}

/// The thread's entry is rewritten: it exists, existing entries are updated,
/// and its time is stale.
pub open spec fn check_updates(c: SessionIndexCheck, update_existing: bool) -> bool {
    match c.entry {
        IndexedEntry::Missing => false,
        IndexedEntry::Present(t) => update_existing && entry_needs_update(
            opt_int(c.target_ms),
            opt_int(t),
        ),
    }
}

/// How many checks satisfy a predicate.
pub open spec fn count_checks(checks: Seq<SessionIndexCheck>, pred: spec_fn(SessionIndexCheck) -> bool) -> nat
    decreases checks.len(),
{
    if checks.len() == 0 {
        0
    } else {
        count_checks(checks.drop_last(), pred) + if pred(checks.last()) {
            1nat
        } else {
            0nat
        }
    }
}

/// The entries the session index lacks and those it holds stale.
#[derive(Debug, Clone, Copy, Default)]
pub struct SessionIndexRepairScan {
    pub entries_to_add: usize,
    pub entries_to_update: usize,
}

proof fn lemma_count_bounded(checks: Seq<SessionIndexCheck>, pred: spec_fn(SessionIndexCheck) -> bool)
    ensures
        count_checks(checks, pred) <= checks.len(),
    decreases checks.len(),
{
    if checks.len() > 0 {
        lemma_count_bounded(checks.drop_last(), pred);
    }
}

/// Counts the threads whose entry the session index lacks, and those whose
/// entry is stale when existing entries are updated.
pub fn count_session_index_entries_to_repair_for_options(
    checks: &Vec<SessionIndexCheck>,
    update_existing_entries: bool,
) -> (r: SessionIndexRepairScan)
    requires
        forall|i: int| 0 <= i < checks.len() ==> check_in_range(#[trigger] checks@[i]),
    ensures
        r.entries_to_add == count_checks(checks@, |c: SessionIndexCheck| check_adds(c)),
        r.entries_to_update == count_checks(
            checks@,
            |c: SessionIndexCheck| check_updates(c, update_existing_entries),
        ),
{
    let ghost adds = |c: SessionIndexCheck| check_adds(c);
    let ghost updates = |c: SessionIndexCheck| check_updates(c, update_existing_entries);
    let mut scan = SessionIndexRepairScan { entries_to_add: 0, entries_to_update: 0 };
    let mut k: usize = 0;
    while k < checks.len()
        invariant
            k <= checks.len(),
            forall|i: int| 0 <= i < checks.len() ==> check_in_range(#[trigger] checks@[i]),
            scan.entries_to_add == count_checks(checks@.subrange(0, k as int), adds),
            scan.entries_to_update == count_checks(checks@.subrange(0, k as int), updates),
            adds == (|c: SessionIndexCheck| check_adds(c)),
            updates == (|c: SessionIndexCheck| check_updates(c, update_existing_entries)),
        decreases checks.len() - k,
    {
        let c = checks[k];
        proof {
            assert(checks@.subrange(0, k + 1).drop_last() =~= checks@.subrange(0, k as int));
            assert(checks@.subrange(0, k + 1).last() == c);
            assert(check_in_range(checks@[k as int]));
            lemma_count_bounded(checks@.subrange(0, k as int), adds);
            lemma_count_bounded(checks@.subrange(0, k as int), updates);
        }
        match c.entry {
            IndexedEntry::Missing => {
                scan.entries_to_add = scan.entries_to_add + 1;
            },
            IndexedEntry::Present(t) => {
                if update_existing_entries && session_index_entry_needs_update(c.target_ms, t) {
                    scan.entries_to_update = scan.entries_to_update + 1;
                }
            },
        }
        k = k + 1;
    }
    proof {
        assert(checks@.subrange(0, checks.len() as int) =~= checks@);
    }
    scan
}

/// The query of the threads whose update time may need repair, and which
/// time columns the table has.
#[derive(Debug, Clone)]
pub struct TimestampRepairQuery {
    pub sql: String,
    pub has_updated_at: bool,
    pub has_updated_at_ms: bool,
}

/// The query of the threads with a rollout file and their recorded times;
/// `None` when the table lacks `id`, `rollout_path` or both time columns.
pub open spec fn timestamp_query_sql(names: Seq<Seq<char>>) -> Option<Seq<char>> {
    let ua = names.contains("updated_at"@);
    let uams = names.contains("updated_at_ms"@);
    if !names.contains("id"@) || !names.contains("rollout_path"@) || (!ua && !uams) {
        None
    } else {
        Some(
            "SELECT id, rollout_path, "@ + (if ua {
                "updated_at"@
            } else {
                "NULL"@
            }) + ", "@ + (if uams {
                "updated_at_ms"@
            } else {
                "NULL"@
            }) + " FROM threads WHERE rollout_path IS NOT NULL AND rollout_path <> ''"@,
        )
    }
}

/// The query of the threads whose update time may need repair (see
/// `timestamp_query_sql`), with the time columns the table has.
pub fn timestamp_repair_query(names: &Vec<String>) -> (r: Option<TimestampRepairQuery>)
    ensures
        match r {
            Some(q) => {
                &&& timestamp_query_sql(views(names@)) == Some(q.sql@)
                &&& q.has_updated_at == views(names@).contains("updated_at"@)
                &&& q.has_updated_at_ms == views(names@).contains("updated_at_ms"@)
            },
            None => timestamp_query_sql(views(names@)) is None,
        },
{
    let has_updated_at = contains_name(names, "updated_at");
    let has_updated_at_ms = contains_name(names, "updated_at_ms");
    if !contains_name(names, "id") || !contains_name(names, "rollout_path") || (!has_updated_at
        && !has_updated_at_ms) {
        return None;
    }
    let mut sql = "SELECT id, rollout_path, ".to_string();
    push_str(
        &mut sql,
        if has_updated_at {
            "updated_at"
        } else {
            "NULL"
        },
    );
    push_str(&mut sql, ", ");
    push_str(
        &mut sql,
        if has_updated_at_ms {
            "updated_at_ms"
        } else {
            "NULL"
        },
    );
    push_str(&mut sql, " FROM threads WHERE rollout_path IS NOT NULL AND rollout_path <> ''");
    Some(TimestampRepairQuery { sql, has_updated_at, has_updated_at_ms })
}

/// The statement that writes a repaired time: both columns, or the one the
/// table has; `None` when it has neither.
pub open spec fn timestamp_update_sql(has_updated_at: bool, has_updated_at_ms: bool) -> Option<Seq<char>> {
    if has_updated_at && has_updated_at_ms {
        Some("UPDATE threads SET updated_at = ?1, updated_at_ms = ?2 WHERE id = ?3"@)
    } else if has_updated_at {
        Some("UPDATE threads SET updated_at = ?1 WHERE id = ?2"@)
    } else if has_updated_at_ms {
        Some("UPDATE threads SET updated_at_ms = ?1 WHERE id = ?2"@)
    } else {
        None
    }
}

/// The statement that writes a repaired time (see `timestamp_update_sql`).
pub fn timestamp_update_statement(has_updated_at: bool, has_updated_at_ms: bool) -> (r: Option<String>)
    ensures
        match r {
            Some(q) => timestamp_update_sql(has_updated_at, has_updated_at_ms) == Some(q@),
            None => timestamp_update_sql(has_updated_at, has_updated_at_ms) is None,
        },
{
    if has_updated_at && has_updated_at_ms {
        Some("UPDATE threads SET updated_at = ?1, updated_at_ms = ?2 WHERE id = ?3".to_string())
    } else if has_updated_at {
        Some("UPDATE threads SET updated_at = ?1 WHERE id = ?2".to_string())
    } else if has_updated_at_ms {
        Some("UPDATE threads SET updated_at_ms = ?1 WHERE id = ?2".to_string())
    } else {
        None
    }
}

/// A thread whose update time is checked: its id, recorded times, and the last
/// activity of its rollout file (`None` when the file is missing or has no
/// timestamped line).
#[derive(Debug, Clone)]
pub struct ThreadTimestampRow {
    pub id: String,
    pub updated_at: Option<i64>,
    pub updated_at_ms: Option<i64>,
    pub activity_ms: Option<i128>,
}

/// A repaired update time: whole seconds and the same in milliseconds.
#[derive(Debug, Clone)]
pub struct SqliteTimestampUpdate {
    pub id: String,
    pub updated_at_seconds: i64,
    pub updated_at_ms: i64,
}

/// Division by a thousand rounding toward zero, as Rust's integer division.
pub open spec fn per_thousand(a: int) -> int {
    if a >= 0 {
        a / 1000
    } else {
        -((-a) / 1000)
    }
}

/// The time a row records, in milliseconds (zero when it records none).
pub open spec fn recorded_ms_or_zero(r: ThreadTimestampRow) -> int {
    match r.updated_at_ms {
        Some(ms) => ms as int,
        None => match r.updated_at {
            Some(s) => s * 1000,
            None => 0,
        },
    }
}

/// The arithmetic of checking a row stays within `i64`, as it does for times
/// read from Codex's files and databases.
pub open spec fn timestamp_row_fits(r: ThreadTimestampRow) -> bool {
    r.activity_ms matches Some(a) ==> {
        let secs = per_thousand(a as int);
        let current = recorded_ms_or_zero(r);
        &&& i64::MIN <= secs <= i64::MAX
        &&& i64::MIN <= secs * 1000 <= i64::MAX
        &&& (r.updated_at_ms is None ==> (r.updated_at matches Some(s) ==> i64::MIN <= s * 1000
            <= i64::MAX))
        &&& i64::MIN < current - secs * 1000 <= i64::MAX
    }
}

/// The update a row gets: when the selection includes the thread and its
/// rollout file has activity, and the recorded time is more than a second away
/// from that activity in whole seconds, the time becomes that activity.
pub open spec fn timestamp_update_for(r: ThreadTimestampRow, sel: RepairTargetSelection) -> Option<
    (Seq<char>, int, int),
> {
    match r.activity_ms {
        Some(a) => {
            let secs = per_thousand(a as int);
            if selection_includes_session(sel, r.id@) && distance(recorded_ms_or_zero(r), secs * 1000)
                > 1000 {
                Some((r.id@, secs, secs * 1000))
            } else {
                None
            }
        },
        None => None,
    }
}

/// The updates of all rows, in order.
pub open spec fn planned_timestamp_updates(rows: Seq<ThreadTimestampRow>, sel: RepairTargetSelection) -> Seq<
    (Seq<char>, int, int),
>
    decreases rows.len(),
{
    if rows.len() == 0 {
        seq![]
    } else {
        let rest = planned_timestamp_updates(rows.drop_last(), sel);
        match timestamp_update_for(rows.last(), sel) {
            Some(u) => rest.push(u),
            None => rest,
        }
    }
}

/// Updates taken by their views.
pub open spec fn update_views(u: Seq<SqliteTimestampUpdate>) -> Seq<(Seq<char>, int, int)> {
    u.map_values(
        |x: SqliteTimestampUpdate| (x.id@, x.updated_at_seconds as int, x.updated_at_ms as int),
    )
}

/// Whether checking a row stays within `i64` (see `timestamp_row_fits`).
pub fn timestamp_row_in_range(r: &ThreadTimestampRow) -> (b: bool)
    ensures
        b == timestamp_row_fits(*r),
{
    match r.activity_ms {
        None => true,
        Some(a) => {
            let lo: i128 = -9_223_372_036_854_775_808i128;
            let hi: i128 = 9_223_372_036_854_775_807i128;
            let secs: i128 = a / 1000;
            assert(secs == per_thousand(a as int));
            assert(-170141183460469231731687303715884105i128 <= secs
                <= 170141183460469231731687303715884105i128) by (nonlinear_arith)
                requires
                    secs == per_thousand(a as int),
                    i128::MIN <= a <= i128::MAX,
            ;
            if secs < lo || secs > hi {
                return false;
            }
            let ms: i128 = secs * 1000;
            if ms < lo || ms > hi {
                return false;
            }
            let current: i128 = match r.updated_at_ms {
                Some(v) => v as i128,
                None => match r.updated_at {
                    Some(s) => {
                        let x: i128 = s as i128 * 1000;
                        if x < lo || x > hi {
                            return false;
                        }
                        x
                    },
                    None => 0,
                },
            };
            let diff: i128 = current - ms;
            lo < diff && diff <= hi
        },
    }
}

/// The update times to repair in one database (see `timestamp_update_for`).
pub fn plan_sqlite_thread_timestamp_repair(
    rows: &Vec<ThreadTimestampRow>,
    selection: &RepairTargetSelection,
) -> (r: Vec<SqliteTimestampUpdate>)
    requires
        forall|i: int|
            0 <= i < rows.len() && selection_includes_session(*selection, rows@[i].id@)
                ==> timestamp_row_fits(#[trigger] rows@[i]),
    ensures
        update_views(r@) == planned_timestamp_updates(rows@, *selection),
{
    let mut updates: Vec<SqliteTimestampUpdate> = Vec::new();
    let mut k: usize = 0;
    while k < rows.len()
        invariant
            k <= rows.len(),
            forall|i: int|
                0 <= i < rows.len() && selection_includes_session(*selection, rows@[i].id@)
                    ==> timestamp_row_fits(#[trigger] rows@[i]),
            update_views(updates@) == planned_timestamp_updates(rows@.subrange(0, k as int), *selection),
        decreases rows.len() - k,
    {
        let row = &rows[k];
        let ghost before = update_views(updates@);
        proof {
            assert(rows@.subrange(0, k + 1).drop_last() =~= rows@.subrange(0, k as int));
            assert(rows@.subrange(0, k + 1).last() == rows@[k as int]);
        }
        if selection.includes_session_id(row.id.as_str()) {
            match row.activity_ms {
                Some(a) => {
                    proof {
                        assert(timestamp_row_fits(rows@[k as int]));
                    }
                    let secs: i64 = (a / 1000) as i64;
                    let ms: i64 = secs * 1000;
                    let current: i64 = match row.updated_at_ms {
                        Some(v) => v,
                        None => match row.updated_at {
                            Some(s) => s * 1000,
                            None => 0,
                        },
                    };
                    let diff: i64 = current - ms;
                    let far = if diff >= 0 {
                        diff > 1000
                    } else {
                        -diff > 1000
                    };
                    if far {
                        updates.push(
                            SqliteTimestampUpdate {
                                id: row.id.clone(),
                                updated_at_seconds: secs,
                                updated_at_ms: ms,
                            },
                        );
                        proof {
                            assert(update_views(updates@) =~= before.push(
                                (row.id@, secs as int, ms as int),
                            ));
                        }
                    }
                },
                None => {},
            }
        }
        k = k + 1;
    }
    proof {
        assert(rows@.subrange(0, rows.len() as int) =~= rows@);
    }
    updates
}

} // verus!
