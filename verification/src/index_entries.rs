//! The entries of the session index (`session_index.jsonl`): the map of the
//! entries it holds, the entries built for threads it lacks or holds stale,
//! and the index rewritten with them.
use vstd::prelude::*;
use crate::global_state::{
    insert_sorted_member, keys_sorted, lemma_sorted_members_unique, member_lookup, members_map,
    object_of, sorted_copy,
};
use crate::json::{
    json_duplicate, json_view, lemma_members_view, member_of, members_view, opt_json_view, view_get,
    JsonValue, JsonView,
};
use crate::messages::join;
use crate::session_index::{check_in_range, IndexedEntry, SessionIndexCheck};
use crate::text::{push_str, trim, trim_str};
use crate::timestamps::{
    entry_needs_update, entry_updated_at, format_thread_updated_at_iso_ms, index_time_text, opt_in_range,
    opt_int, parse_session_index_updated_at_ms, prefer_recorded, resolve_thread_updated_at_ms,
    row_recorded_ms, session_index_entry_needs_update, SqliteThreadIndexRow,
};
use crate::workspace_path::views;

verus! {

/// The id an entry carries as a string, by views.
pub open spec fn entry_id(e: JsonView) -> Option<Seq<char>> {
    match view_get(e, "id"@) {
        Some(JsonView::Text(id)) => Some(id),
        _ => None,
    }
}

/// The id a parsed line of the index carries; `None` for a line that did not
/// parse or has no string id.
pub open spec fn line_id(line: Option<JsonValue>) -> Option<Seq<char>> {
    match line {
        Some(e) => entry_id(json_view(e)),
        None => None,
    }
}

/// The `(id, entry)` pairs of the parsed lines of the index, in order.
pub open spec fn index_pairs(lines: Seq<Option<JsonValue>>) -> Seq<(Seq<char>, JsonView)>
    decreases lines.len(),
{
    if lines.len() == 0 {
        seq![]
    } else {
        let rest = index_pairs(lines.drop_last());
        match lines.last() {
            Some(e) => match entry_id(json_view(e)) {
                Some(id) => rest.push((id, json_view(e))),
                None => rest,
            },
            None => rest,
        }
    }
}

/// The id of a parsed line (see `line_id`).
pub fn parsed_line_id(line: &Option<JsonValue>) -> (r: Option<String>)
    ensures
        match r {
            Some(id) => line_id(*line) == Some(id@),
            None => line_id(*line) is None,
        },
{
    match line {
        Some(e) => match member_of(e, "id") {
            Some(JsonValue::Text(id)) => Some(id.clone()),
            _ => None,
        },
        None => None,
    }
}

/// The entries of the session index by thread id, out of its lines as parsed
/// (`None` for a blank line or one that is not JSON): each entry with a string
/// id, a later one for the same id winning; keys in ascending order.
pub fn read_session_index_map(lines: &Vec<Option<JsonValue>>) -> (r: Vec<(String, JsonValue)>)
    ensures
        keys_sorted(members_view(r@)),
        members_map(members_view(r@)) == members_map(index_pairs(lines@)),
{
    let mut out: Vec<(String, JsonValue)> = Vec::new();
    proof {
        assert(members_view(out@) =~= seq![]);
        assert(lines@.subrange(0, 0) =~= Seq::<Option<JsonValue>>::empty());
        assert(members_map(members_view(out@)) =~= members_map(index_pairs(lines@.subrange(0, 0))));
    }
    let mut i: usize = 0;
    while i < lines.len()
        invariant
            i <= lines.len(),
            keys_sorted(members_view(out@)),
            members_map(members_view(out@)) == members_map(index_pairs(lines@.subrange(0, i as int))),
        decreases lines.len() - i,
    {
        proof {
            let s = lines@.subrange(0, i + 1);
            assert(s.drop_last() =~= lines@.subrange(0, i as int));
            assert(s.last() == lines@[i as int]);
        }
        match &lines[i] {
            Some(e) => match parsed_line_id(&lines[i]) {
                Some(id) => {
                    let v = json_duplicate(e);
                    proof {
                        let prev = index_pairs(lines@.subrange(0, i as int));
                        let next = prev.push((id@, json_view(*e)));
                        assert(next.drop_last() =~= prev);
                        assert(index_pairs(lines@.subrange(0, i + 1)) == next);
                    }
                    insert_sorted_member(&mut out, id, v);
                },
                None => {},
            },
            None => {},
        }
        i = i + 1;
    }
    proof {
        assert(lines@.subrange(0, lines.len() as int) =~= lines@);
    }
    out
}

/// The title an index entry shows: the thread's title, or `Untitled` when it
/// is blank.
pub open spec fn shown_title(title: Seq<char>) -> Seq<char> {
    if trim(title).len() == 0 {
        "Untitled"@
    } else {
        title
    }
}

/// A new index entry for a thread: its id, shown title and update time.
pub open spec fn new_index_entry(id: Seq<char>, title: Seq<char>, time: Seq<char>) -> JsonView {
    JsonView::Object(
        seq![
            ("id"@, JsonView::Text(id)),
            ("thread_name"@, JsonView::Text(shown_title(title))),
            ("updated_at"@, JsonView::Text(time)),
        ],
    )
}

/// An existing index entry brought up to date: its id and time set, and its
/// title when the thread's title is not blank, the rest kept (keys in
/// ascending order); a new entry when the existing one is not an object.
pub open spec fn updated_index_entry(existing: JsonView, id: Seq<char>, title: Seq<char>, time: Seq<char>) -> JsonView {
    match existing {
        JsonView::Object(mv) => {
            let m1 = members_map(mv).insert("id"@, JsonView::Text(id));
            let m2 = if trim(title).len() == 0 {
                m1
            } else {
                m1.insert("thread_name"@, JsonView::Text(title))
            };
            object_of(m2.insert("updated_at"@, JsonView::Text(time)))
        },
        _ => new_index_entry(id, title, time),
    }
}

/// A new index entry for a thread (see `new_index_entry`), with the text of
/// its update time (see `index_time_text`; `now_ms` is the current time).
pub fn build_session_index_entry_from_thread(
    row: &SqliteThreadIndexRow,
    updated_at_ms: Option<i128>,
    now_ms: i64,
) -> (r: JsonValue)
    ensures
        json_view(r) == new_index_entry(
            row.id@,
            row.title@,
            index_time_text(opt_int(updated_at_ms), now_ms),
        ),
{
    let title = if trim_str(row.title.as_str()).as_str().is_empty() {
        "Untitled".to_string()
    } else {
        row.title.clone()
    };
    let time = format_thread_updated_at_iso_ms(updated_at_ms, now_ms);
    let mut members: Vec<(String, JsonValue)> = Vec::new();
    members.push(("id".to_string(), JsonValue::Text(row.id.clone())));
    members.push(("thread_name".to_string(), JsonValue::Text(title)));
    members.push(("updated_at".to_string(), JsonValue::Text(time)));
    proof {
        lemma_members_view(members@);
        assert(members_view(members@) =~= seq![
            ("id"@, JsonView::Text(row.id@)),
            ("thread_name"@, JsonView::Text(shown_title(row.title@))),
            ("updated_at"@, JsonView::Text(index_time_text(opt_int(updated_at_ms), now_ms))),
        ]);
    }
    JsonValue::Object(members)
}

/// An existing index entry brought up to date (see `updated_index_entry`).
pub fn build_updated_session_index_entry(
    existing: &JsonValue,
    row: &SqliteThreadIndexRow,
    updated_at_ms: Option<i128>,
    now_ms: i64,
) -> (r: JsonValue)
    ensures
        json_view(r) == updated_index_entry(
            json_view(*existing),
            row.id@,
            row.title@,
            index_time_text(opt_int(updated_at_ms), now_ms),
        ),
{
    match existing {
        JsonValue::Object(members) => {
            let mut next = sorted_copy(members);
            insert_sorted_member(&mut next, "id".to_string(), JsonValue::Text(row.id.clone()));
            if !trim_str(row.title.as_str()).as_str().is_empty() {
                insert_sorted_member(
                    &mut next,
                    "thread_name".to_string(),
                    JsonValue::Text(row.title.clone()),
                );
            }
            let time = format_thread_updated_at_iso_ms(updated_at_ms, now_ms);
            insert_sorted_member(&mut next, "updated_at".to_string(), JsonValue::Text(time));
            proof {
                lemma_sorted_members_unique(members_view(next@));
            }
            JsonValue::Object(next)
        },
        _ => build_session_index_entry_from_thread(row, updated_at_ms, now_ms),
    }
}


/// The time a thread should carry (see `prefer_recorded`), given the last
/// activity of its rollout file.
pub open spec fn thread_target(row: SqliteThreadIndexRow, activity: Option<i128>) -> Option<int> {
    prefer_recorded(row_recorded_ms(row), opt_int(activity))
}

/// The check of a thread against the index: whether it has an entry and the
/// time that entry records, and the time the thread should carry.
pub open spec fn check_matches(
    c: SessionIndexCheck,
    index: Map<Seq<char>, JsonView>,
    row: SqliteThreadIndexRow,
    activity: Option<i128>,
) -> bool {
    &&& opt_int(c.target_ms) == thread_target(row, activity)
    &&& match c.entry {
        IndexedEntry::Missing => !index.contains_key(row.id@),
        IndexedEntry::Present(t) => index.contains_key(row.id@) && opt_int(t) == entry_updated_at(
            index[row.id@],
        ),
    }
}

/// The checks of threads against the index (see `check_matches`), given the
/// index by id and, for each thread, the last activity of its rollout file.
pub fn session_index_checks(
    index_map: &Vec<(String, JsonValue)>,
    rows: &Vec<SqliteThreadIndexRow>,
    rollout_activity_ms: &Vec<Option<i128>>,
) -> (r: Vec<SessionIndexCheck>)
    requires
        rows.len() == rollout_activity_ms.len(),
        forall|i: int| 0 <= i < rows.len() ==> opt_in_range(#[trigger] rollout_activity_ms@[i]),
    ensures
        r.len() == rows.len(),
        forall|i: int|
            0 <= i < rows.len() ==> check_matches(
                #[trigger] r@[i],
                members_map(members_view(index_map@)),
                rows@[i],
                rollout_activity_ms@[i],
            ),
        forall|i: int| 0 <= i < rows.len() ==> check_in_range(#[trigger] r@[i]),
{
    let ghost index = members_map(members_view(index_map@));
    let mut out: Vec<SessionIndexCheck> = Vec::new();
    let mut i: usize = 0;
    while i < rows.len()
        invariant
            i <= rows.len(),
            rows.len() == rollout_activity_ms.len(),
            forall|j: int| 0 <= j < rows.len() ==> opt_in_range(#[trigger] rollout_activity_ms@[j]),
            index == members_map(members_view(index_map@)),
            out.len() == i,
            forall|j: int|
                0 <= j < i ==> check_matches(#[trigger] out@[j], index, rows@[j], rollout_activity_ms@[j]),
            forall|j: int| 0 <= j < i ==> check_in_range(#[trigger] out@[j]),
        decreases rows.len() - i,
    {
        let activity = rollout_activity_ms[i];
        proof {
            assert(opt_in_range(rollout_activity_ms@[i as int]));
        }
        let target = resolve_thread_updated_at_ms(&rows[i], activity);
        let entry = match member_lookup(index_map, rows[i].id.as_str()) {
            Some(e) => IndexedEntry::Present(parse_session_index_updated_at_ms(e)),
            None => IndexedEntry::Missing,
        };
        out.push(SessionIndexCheck { entry, target_ms: target });
        i = i + 1;
    }
    out
}

/// What reconciling the index with the threads comes to: the entries to add
/// (for threads it lacks) and, by thread id, the entries to write over stale
/// ones.
pub struct SessionIndexReconcilePlan {
    pub entries_to_add: Vec<JsonValue>,
    pub entries_to_update: Vec<(String, JsonValue)>,
}

/// The entries to add and to update after the first `n` threads: a thread
/// without an entry gets a new one; a thread whose entry is stale gets it
/// brought up to date, when existing entries are updated.
pub open spec fn reconcile_upto(
    index: Map<Seq<char>, JsonView>,
    rows: Seq<SqliteThreadIndexRow>,
    activity: Seq<Option<i128>>,
    update_existing: bool,
    now_ms: i64,
    n: int,
) -> (Seq<JsonView>, Seq<(Seq<char>, JsonView)>)
    decreases n,
{
    if n <= 0 {
        (seq![], seq![])
    } else {
        let (adds, updates) = reconcile_upto(index, rows, activity, update_existing, now_ms, n - 1);
        let row = rows[n - 1];
        let target = thread_target(row, activity[n - 1]);
        let time = index_time_text(target, now_ms);
        if index.contains_key(row.id@) {
            let existing = index[row.id@];
            if update_existing && entry_needs_update(target, entry_updated_at(existing)) {
                (adds, updates.push((row.id@, updated_index_entry(existing, row.id@, row.title@, time))))
            } else {
                (adds, updates)
            }
        } else {
            (adds.push(new_index_entry(row.id@, row.title@, time)), updates)
        }
    }
}

/// The views of JSON values.
pub open spec fn value_views(v: Seq<JsonValue>) -> Seq<JsonView> {
    v.map_values(|x: JsonValue| json_view(x))
}

/// Plans the reconciliation of the session index with the threads of the
/// state databases (see `reconcile_upto`), given the index by id, the
/// threads, the last activity of each thread's rollout file and the current
/// time in milliseconds.
pub fn plan_session_index_reconcile(
    index_map: &Vec<(String, JsonValue)>,
    rows: &Vec<SqliteThreadIndexRow>,
    rollout_activity_ms: &Vec<Option<i128>>,
    update_existing_entries: bool,
    now_ms: i64,
) -> (r: SessionIndexReconcilePlan)
    requires
        rows.len() == rollout_activity_ms.len(),
        forall|i: int| 0 <= i < rows.len() ==> opt_in_range(#[trigger] rollout_activity_ms@[i]),
    ensures
        (value_views(r.entries_to_add@), members_view(r.entries_to_update@)) == reconcile_upto(
            members_map(members_view(index_map@)),
            rows@,
            rollout_activity_ms@,
            update_existing_entries,
            now_ms,
            rows.len() as int,
        ),
{
    let ghost index = members_map(members_view(index_map@));
    let mut adds: Vec<JsonValue> = Vec::new();
    let mut updates: Vec<(String, JsonValue)> = Vec::new();
    proof {
        assert(value_views(adds@) =~= seq![]);
        assert(members_view(updates@) =~= seq![]);
    }
    let mut i: usize = 0;
    while i < rows.len()
        invariant
            i <= rows.len(),
            rows.len() == rollout_activity_ms.len(),
            forall|j: int| 0 <= j < rows.len() ==> opt_in_range(#[trigger] rollout_activity_ms@[j]),
            index == members_map(members_view(index_map@)),
            (value_views(adds@), members_view(updates@)) == reconcile_upto(
                index,
                rows@,
                rollout_activity_ms@,
                update_existing_entries,
                now_ms,
                i as int,
            ),
        decreases rows.len() - i,
    {
        let row = &rows[i];
        let activity = rollout_activity_ms[i];
        proof {
            assert(opt_in_range(rollout_activity_ms@[i as int]));
        }
        let target = resolve_thread_updated_at_ms(row, activity);
        let ghost before_adds = value_views(adds@);
        let ghost before_updates = members_view(updates@);
        let ghost before_update_seq = updates@;
        match member_lookup(index_map, row.id.as_str()) {
            Some(existing) => {
                let current = parse_session_index_updated_at_ms(existing);
                if update_existing_entries && session_index_entry_needs_update(target, current) {
                    let entry = build_updated_session_index_entry(existing, row, target, now_ms);
                    updates.push((row.id.clone(), entry));
                    proof {
                        assert(updates@.drop_last() =~= before_update_seq);
                    }
                }
            },
            None => {
                let entry = build_session_index_entry_from_thread(row, target, now_ms);
                adds.push(entry);
                proof {
                    assert(value_views(adds@) =~= before_adds.push(json_view(adds@.last())));
                }
            },
        }
        i = i + 1;
    }
    SessionIndexReconcilePlan { entries_to_add: adds, entries_to_update: updates }
}


/// The number of lines of the index once trailing blank lines are dropped.
pub open spec fn kept_line_count(lines: Seq<Seq<char>>) -> int
    decreases lines.len(),
{
    if lines.len() > 0 && trim(lines.last()).len() == 0 {
        kept_line_count(lines.drop_last())
    } else {
        lines.len() as int
    }
}

/// The first update for thread `id`; -1 when there is none.
pub open spec fn update_index(updates: Seq<(Seq<char>, Seq<char>)>, id: Seq<char>) -> int
    decreases updates.len(),
{
    if updates.len() == 0 {
        -1
    } else {
        let i = update_index(updates.drop_last(), id);
        if i >= 0 {
            i
        } else if updates.last().0 == id {
            updates.len() - 1
        } else {
            -1
        }
    }
}

/// A line of the index as rewritten: the updated entry of its thread when
/// there is one, the line itself otherwise.
pub open spec fn rewritten_line(
    line: Seq<char>,
    id: Option<Seq<char>>,
    updates: Seq<(Seq<char>, Seq<char>)>,
) -> Seq<char> {
    match id {
        Some(x) => if update_index(updates, x) >= 0 {
            updates[update_index(updates, x)].1
        } else {
            line
        },
        None => line,
    }
}

/// The ids of parsed lines.
pub open spec fn line_ids(parsed: Seq<Option<JsonValue>>) -> Seq<Option<Seq<char>>> {
    parsed.map_values(|l: Option<JsonValue>| line_id(l))
}

/// The lines of the index that are kept, rewritten.
pub open spec fn rewritten_lines(
    lines: Seq<Seq<char>>,
    ids: Seq<Option<Seq<char>>>,
    updates: Seq<(Seq<char>, Seq<char>)>,
) -> Seq<Seq<char>> {
    Seq::new(
        kept_line_count(lines) as nat,
        |i: int| rewritten_line(lines[i], ids[i], updates),
    )
}

/// The rewritten index: its kept lines rewritten, then the added entries,
/// each on a line of its own, ending with a line break.
pub open spec fn rewritten_index(
    lines: Seq<Seq<char>>,
    ids: Seq<Option<Seq<char>>>,
    updates: Seq<(Seq<char>, Seq<char>)>,
    additions: Seq<Seq<char>>,
) -> Seq<char> {
    join(rewritten_lines(lines, ids, updates) + additions, "\n"@) + "\n"@
}

/// How many of the first `m` updates are applied: those that are the first
/// for their thread and whose thread has a kept line.
pub open spec fn applied_updates(
    kept_ids: Seq<Option<Seq<char>>>,
    updates: Seq<(Seq<char>, Seq<char>)>,
    m: int,
) -> nat
    decreases m,
{
    if m <= 0 {
        0
    } else {
        applied_updates(kept_ids, updates, m - 1) + if update_index(updates, updates[m - 1].0) == m
            - 1 && kept_ids.contains(Some(updates[m - 1].0)) {
            1nat
        } else {
            0nat
        }
    }
}

proof fn lemma_update_index(u: Seq<(Seq<char>, Seq<char>)>, id: Seq<char>, k: int)
    requires
        0 <= k <= u.len(),
        forall|j: int| 0 <= j < k ==> (#[trigger] u[j]).0 != id,
        k < u.len() ==> u[k].0 == id,
    ensures
        update_index(u, id) == (if k < u.len() {
            k
        } else {
            -1
        }),
    decreases u.len(),
{
    if u.len() > 0 {
        let d = u.drop_last();
        if k < u.len() - 1 {
            assert forall|j: int| 0 <= j < k implies (#[trigger] d[j]).0 != id by {
                assert(d[j] == u[j]);
            }
            assert(d[k] == u[k]);
            lemma_update_index(d, id, k);
        } else {
            assert forall|j: int| 0 <= j < d.len() implies (#[trigger] d[j]).0 != id by {
                assert(d[j] == u[j]);
            }
            lemma_update_index(d, id, d.len() as int);
        }
    }
}

proof fn lemma_update_index_found(u: Seq<(Seq<char>, Seq<char>)>, j: int)
    requires
        0 <= j < u.len(),
    ensures
        0 <= update_index(u, u[j].0) <= j,
    decreases u.len(),
{
    let d = u.drop_last();
    let id = u[j].0;
    if j < u.len() - 1 {
        assert(d[j] == u[j]);
        lemma_update_index_found(d, j);
        assert(0 <= update_index(d, id) <= j);
        assert(update_index(u, id) == update_index(d, id));
    } else {
        lemma_update_index_bound(d, id);
        assert(u.last().0 == id);
        if update_index(d, id) < 0 {
            assert(update_index(u, id) == u.len() - 1);
        }
    }
}

proof fn lemma_update_index_bound(u: Seq<(Seq<char>, Seq<char>)>, id: Seq<char>)
    ensures
        -1 <= update_index(u, id) < u.len(),
    decreases u.len(),
{
    if u.len() > 0 {
        lemma_update_index_bound(u.drop_last(), id);
    }
}

fn first_update(updates: &Vec<(String, String)>, id: &String) -> (r: Option<usize>)
    ensures
        match r {
            Some(j) => j < updates.len() && update_index(crate::referenced::pair_views(updates@), id@)
                == j,
            None => update_index(crate::referenced::pair_views(updates@), id@) == -1,
        },
{
    let ghost u = crate::referenced::pair_views(updates@);
    let mut j: usize = 0;
    while j < updates.len()
        invariant
            j <= updates.len(),
            u == crate::referenced::pair_views(updates@),
            forall|q: int| 0 <= q < j ==> (#[trigger] u[q]).0 != id@,
        decreases updates.len() - j,
    {
        if updates[j].0 == *id {
            proof {
                lemma_update_index(u, id@, j as int);
            }
            return Some(j);
        }
        j = j + 1;
    }
    proof {
        lemma_update_index(u, id@, u.len() as int);
    }
    None
}

fn has_id(ids: &Vec<Option<String>>, id: &String) -> (b: bool)
    ensures
        b == ids@.map_values(|o: Option<String>| crate::workspace_path::opt_view(o)).contains(
            Some(id@),
        ),
{
    let ghost iv = ids@.map_values(|o: Option<String>| crate::workspace_path::opt_view(o));
    let mut i: usize = 0;
    while i < ids.len()
        invariant
            i <= ids.len(),
            iv == ids@.map_values(|o: Option<String>| crate::workspace_path::opt_view(o)),
            forall|q: int| 0 <= q < i ==> iv[q] != Some(id@),
        decreases ids.len() - i,
    {
        match &ids[i] {
            Some(x) => {
                if *x == *id {
                    assert(iv[i as int] == Some(id@));
                    return true;
                }
            },
            None => {},
        }
        i = i + 1;
    }
    false
}

/// Rewrites the session index: trailing blank lines dropped, each kept line
/// replaced by the updated entry of its thread (by the id of the line as
/// parsed), the added entries appended one per line, and a final line break
/// (see `rewritten_index`); also counts the updates applied (see
/// `applied_updates`). `lines` are the index's lines, `parsed` each line
/// (trimmed) as parsed, `updates` the updated entries by thread id and
/// `additions` the added entries, each serialized.
pub fn rewrite_session_index_lines(
    lines: &Vec<String>,
    parsed: &Vec<Option<JsonValue>>,
    updates: &Vec<(String, String)>,
    additions: &Vec<String>,
) -> (r: (String, usize))
    requires
        lines.len() == parsed.len(),
    ensures
        r.0@ == rewritten_index(
            views(lines@),
            line_ids(parsed@),
            crate::referenced::pair_views(updates@),
            views(additions@),
        ),
        r.1 == applied_updates(
            line_ids(parsed@).subrange(0, kept_line_count(views(lines@))),
            crate::referenced::pair_views(updates@),
            updates.len() as int,
        ),
{
    let ghost lv = views(lines@);
    let ghost ids_all = line_ids(parsed@);
    let ghost u = crate::referenced::pair_views(updates@);
    let mut k: usize = lines.len();
    proof {
        assert(lv.subrange(0, k as int) =~= lv);
    }
    while k > 0 && trim_str(lines[k - 1].as_str()).as_str().is_empty()
        invariant
            k <= lines.len(),
            lv == views(lines@),
            kept_line_count(lv) == kept_line_count(lv.subrange(0, k as int)),
        decreases k,
    {
        proof {
            assert(lv.subrange(0, k as int).drop_last() =~= lv.subrange(0, k - 1));
            assert(lv.subrange(0, k as int).last() == lines@[k - 1]@);
        }
        k = k - 1;
    }
    proof {
        assert(kept_line_count(lv.subrange(0, k as int)) == k);
    }
    let mut ids: Vec<Option<String>> = Vec::new();
    let mut out: Vec<String> = Vec::new();
    let mut i: usize = 0;
    while i < k
        invariant
            i <= k,
            k <= lines.len(),
            lines.len() == parsed.len(),
            lv == views(lines@),
            ids_all == line_ids(parsed@),
            u == crate::referenced::pair_views(updates@),
            kept_line_count(lv) == k,
            ids.len() == i,
            out.len() == i,
            ids@.map_values(|o: Option<String>| crate::workspace_path::opt_view(o)) =~= ids_all.subrange(
                0,
                i as int,
            ),
            forall|q: int| 0 <= q < i ==> (#[trigger] out@[q])@ == rewritten_line(lv[q], ids_all[q], u),
        decreases k - i,
    {
        let id = parsed_line_id(&parsed[i]);
        let ghost before_ids = ids@;
        let line = match &id {
            Some(x) => match first_update(updates, x) {
                Some(j) => updates[j].1.clone(),
                None => lines[i].clone(),
            },
            None => lines[i].clone(),
        };
        proof {
            assert(ids_all[i as int] == line_id(parsed@[i as int]));
            assert(lv[i as int] == lines@[i as int]@);
        }
        ids.push(id);
        out.push(line);
        proof {
            assert(ids@ =~= before_ids.push(ids@.last()));
        }
        i = i + 1;
    }
    let ghost kept_lines = out@;
    proof {
        assert(views(out@) =~= rewritten_lines(lv, ids_all, u));
    }
    let mut a: usize = 0;
    while a < additions.len()
        invariant
            a <= additions.len(),
            out.len() == k + a,
            views(out@) =~= rewritten_lines(lv, ids_all, u) + views(additions@).subrange(0, a as int),
            kept_line_count(lv) == k,
        decreases additions.len() - a,
    {
        let ghost before = views(out@);
        out.push(additions[a].clone());
        proof {
            assert(views(out@) =~= before.push(additions@[a as int]@));
            assert(views(additions@).subrange(0, a + 1) =~= views(additions@).subrange(0, a as int).push(
                additions@[a as int]@,
            ));
        }
        a = a + 1;
    }
    proof {
        assert(views(additions@).subrange(0, additions.len() as int) =~= views(additions@));
    }
    let mut text = crate::messages::join_strings(&out, "\n");
    push_str(&mut text, "\n");
    let ghost kept_ids = ids_all.subrange(0, k as int);
    let mut n: usize = 0;
    let mut j: usize = 0;
    while j < updates.len()
        invariant
            j <= updates.len(),
            u == crate::referenced::pair_views(updates@),
            kept_ids == ids_all.subrange(0, k as int),
            ids@.map_values(|o: Option<String>| crate::workspace_path::opt_view(o)) =~= kept_ids,
            n == applied_updates(kept_ids, u, j as int),
            n <= j,
        decreases updates.len() - j,
    {
        let first = first_update(updates, &updates[j].0);
        let applies = match first {
            Some(f) => f == j && has_id(&ids, &updates[j].0),
            None => false,
        };
        proof {
            assert(u[j as int].0 == updates@[j as int].0@);
            lemma_update_index_found(u, j as int);
        }
        if applies {
            n = n + 1;
        }
        j = j + 1;
    }
    (text, n)
}

} // verus!
