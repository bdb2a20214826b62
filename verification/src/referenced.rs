//! The rollout files that the state databases reference: the query that
//! lists them, the merge of what each database answers into one candidate
//! per file, and the working directories of threads put into desktop form.
use vstd::prelude::*;
use crate::messages::{join, join_strings};
use crate::paths::{paths_equal, resolve_rollout_path, resolved_rollout, same_path};
use crate::selection::{selection_includes_session, RepairTargetSelection};
use crate::text::trim;
use crate::threads_sql::{contains_name, when_part};
use crate::workspace_path::{
    desktop_workspace_path, is_windows_path, is_windows_workspace_path, to_desktop_workspace_path,
    views,
};

verus! {

/// A column of the table, or `NULL` when the table lacks it.
pub open spec fn column_or_null(names: Seq<Seq<char>>, column: Seq<char>) -> Seq<char> {
    if names.contains(column) {
        column
    } else {
        "NULL"@
    }
}

/// Whether the provider condition of the query binds the target provider:
/// only sidebar rows are looked at and the table records providers.
pub open spec fn binds_provider(names: Seq<Seq<char>>, sidebar_visible_only: bool) -> bool {
    sidebar_visible_only && names.contains("model_provider"@)
}

/// The conditions a referencing row meets: a recorded rollout path; another
/// provider than the target (when bound); and, for sidebar rows only, not
/// archived, with a preview (or first user message), not from a subagent or
/// internal source and not an ambient suggestion, each where the table has
/// the columns involved.
pub open spec fn referenced_predicates(names: Seq<Seq<char>>, sidebar_visible_only: bool) -> Seq<
    Seq<char>,
> {
    let has = |c: Seq<char>| names.contains(c);
    seq!["rollout_path IS NOT NULL"@, "rollout_path <> ''"@] + (if binds_provider(
        names,
        sidebar_visible_only,
    ) {
        seq!["(?1 IS NULL OR COALESCE(model_provider, '') <> ?1)"@]
    } else {
        seq!["?1 IS NULL"@]
    }) + if sidebar_visible_only {
        when_part(has("archived"@), "COALESCE(archived, 0) = 0"@) + (if has("preview"@) && has(
            "first_user_message"@,
        ) {
            seq!["(COALESCE(preview, '') <> '' OR COALESCE(first_user_message, '') <> '')"@]
        } else if has("preview"@) {
            seq!["COALESCE(preview, '') <> ''"@]
        } else {
            seq![]
        }) + when_part(
            has("source"@),
            "LOWER(COALESCE(source, '')) NOT LIKE '%subagent%' AND LOWER(COALESCE(source, '')) NOT LIKE '%internal%'"@,
        ) + when_part(
            has("thread_source"@),
            "COALESCE(thread_source, '') <> 'ambient_suggestions'"@,
        )
    } else {
        seq![]
    }
}

/// The query of the rows that reference rollout files: id, rollout path and
/// the two update times (`NULL` where the table lacks the column); `None`
/// when the table has no `id` or no `rollout_path` column.
pub open spec fn referenced_query_sql(names: Seq<Seq<char>>, sidebar_visible_only: bool) -> Option<
    Seq<char>,
> {
    if !names.contains("id"@) || !names.contains("rollout_path"@) {
        None
    } else {
        Some(
            "SELECT id, rollout_path, "@ + column_or_null(names, "updated_at"@) + ", "@
                + column_or_null(names, "updated_at_ms"@) + " FROM threads WHERE "@ + join(
                referenced_predicates(names, sidebar_visible_only),
                " AND "@,
            ),
        )
    }
}

/// The query of the rows that reference rollout files, and whether its `?1`
/// is bound to the target provider (else to `NULL`).
pub struct ReferencedRolloutsQuery {
    pub sql: String,
    pub binds_provider: bool,
}

fn push_when(v: &mut Vec<String>, cond: bool, s: &str)
    ensures
        views(final(v)@) == views(old(v)@) + when_part(cond, s@),
{
    let ghost before = views(v@);
    if cond {
        v.push(s.to_string());
        proof {
            assert(views(v@) =~= before + seq![s@]);
        }
    } else {
        proof {
            assert(views(v@) =~= before + Seq::<Seq<char>>::empty());
        }
    }
}

fn referenced_predicate_list(names: &Vec<String>, sidebar_visible_only: bool) -> (v: Vec<String>)
    ensures
        views(v@) == referenced_predicates(views(names@), sidebar_visible_only),
{
    let ghost nv = views(names@);
    let mut v: Vec<String> = Vec::new();
    v.push("rollout_path IS NOT NULL".to_string());
    v.push("rollout_path <> ''".to_string());
    let binds = sidebar_visible_only && contains_name(names, "model_provider");
    if binds {
        v.push("(?1 IS NULL OR COALESCE(model_provider, '') <> ?1)".to_string());
    } else {
        v.push("?1 IS NULL".to_string());
    }
    let ghost head = views(v@);
    proof {
        assert(head =~= seq!["rollout_path IS NOT NULL"@, "rollout_path <> ''"@] + (if binds_provider(
            nv,
            sidebar_visible_only,
        ) {
            seq!["(?1 IS NULL OR COALESCE(model_provider, '') <> ?1)"@]
        } else {
            seq!["?1 IS NULL"@]
        }));
    }
    if sidebar_visible_only {
        push_when(&mut v, contains_name(names, "archived"), "COALESCE(archived, 0) = 0");
        let ghost after_archived = views(v@);
        let has_preview = contains_name(names, "preview");
        let has_first = contains_name(names, "first_user_message");
        if has_preview && has_first {
            v.push(
                "(COALESCE(preview, '') <> '' OR COALESCE(first_user_message, '') <> '')".to_string(),
            );
        } else if has_preview {
            v.push("COALESCE(preview, '') <> ''".to_string());
        }
        proof {
            assert(views(v@) =~= after_archived + (if has_preview && has_first {
                seq!["(COALESCE(preview, '') <> '' OR COALESCE(first_user_message, '') <> '')"@]
            } else if has_preview {
                seq!["COALESCE(preview, '') <> ''"@]
            } else {
                seq![]
            }));
        }
        push_when(
            &mut v,
            contains_name(names, "source"),
            "LOWER(COALESCE(source, '')) NOT LIKE '%subagent%' AND LOWER(COALESCE(source, '')) NOT LIKE '%internal%'",
        );
        push_when(
            &mut v,
            contains_name(names, "thread_source"),
            "COALESCE(thread_source, '') <> 'ambient_suggestions'",
        );
        proof {
            assert(views(v@) =~= referenced_predicates(nv, sidebar_visible_only));
        }
    } else {
        proof {
            assert(views(v@) =~= referenced_predicates(nv, sidebar_visible_only));
        }
    }
    v
}

/// The query of the rows referencing rollout files (see
/// `referenced_query_sql`), given the column names of the `threads` table.
pub fn referenced_rollouts_query(column_names: &Vec<String>, sidebar_visible_only: bool) -> (r:
    Option<ReferencedRolloutsQuery>)
    ensures
        match r {
            Some(q) => referenced_query_sql(views(column_names@), sidebar_visible_only) == Some(
                q.sql@,
            ) && q.binds_provider == binds_provider(views(column_names@), sidebar_visible_only),
            None => referenced_query_sql(views(column_names@), sidebar_visible_only) is None,
        },
{
    if !contains_name(column_names, "id") || !contains_name(column_names, "rollout_path") {
        return None;
    }
    let updated_at = if contains_name(column_names, "updated_at") {
        "updated_at"
    } else {
        "NULL"
    };
    let updated_at_ms = if contains_name(column_names, "updated_at_ms") {
        "updated_at_ms"
    } else {
        "NULL"
    };
    let predicates = referenced_predicate_list(column_names, sidebar_visible_only);
    let mut sql = "SELECT id, rollout_path, ".to_string();
    crate::text::push_str(&mut sql, updated_at);
    crate::text::push_str(&mut sql, ", ");
    crate::text::push_str(&mut sql, updated_at_ms);
    crate::text::push_str(&mut sql, " FROM threads WHERE ");
    crate::text::push_str(&mut sql, join_strings(&predicates, " AND ").as_str());
    let binds = sidebar_visible_only && contains_name(column_names, "model_provider");
    Some(ReferencedRolloutsQuery { sql, binds_provider: binds })
}


/// A row referencing a rollout file: the thread, the recorded path and the
/// recorded update times (seconds and milliseconds).
pub struct ReferencedRolloutRow {
    pub thread_id: String,
    pub rollout_path: String,
    pub updated_at: Option<i64>,
    pub updated_at_ms: Option<i64>,
}

/// A rollout file to repair and the modification time (milliseconds since
/// the epoch) it is to be given, when one is known.
pub struct RolloutCandidate {
    pub path: String,
    pub target_modified_ms: Option<i128>,
}

/// The time a referencing row gives its file: its milliseconds, else its
/// seconds times a thousand.
pub open spec fn row_target_ms(r: ReferencedRolloutRow) -> Option<int> {
    match r.updated_at_ms {
        Some(ms) => Some(ms as int),
        None => match r.updated_at {
            Some(s) => Some(s * 1000),
            None => None,
        },
    }
}

/// The seconds of a row times a thousand fit an `i64` where they are used.
pub open spec fn row_time_fits(r: ReferencedRolloutRow) -> bool {
    r.updated_at_ms is None ==> match r.updated_at {
        Some(s) => i64::MIN <= s * 1000 <= i64::MAX,
        None => true,
    }
}

/// Whether the seconds of a row times a thousand fit an `i64` where they are
/// used (see `row_time_fits`).
pub fn referenced_row_in_range(r: &ReferencedRolloutRow) -> (b: bool)
    ensures
        b == row_time_fits(*r),
{
    match r.updated_at_ms {
        Some(_) => true,
        None => match r.updated_at {
            Some(s) => {
                let x: i128 = s as i128 * 1000;
                -9_223_372_036_854_775_808i128 <= x && x <= 9_223_372_036_854_775_807i128
            },
            None => true,
        },
    }
}

/// Candidates taken by their views.
pub open spec fn candidate_views(c: Seq<RolloutCandidate>) -> Seq<(Seq<char>, Option<int>)> {
    c.map_values(|x: RolloutCandidate| (x.path@, crate::timestamps::opt_int(x.target_modified_ms)))
}

/// The first candidate whose path is the same path as `p`; -1 when none is.
pub open spec fn path_index(c: Seq<(Seq<char>, Option<int>)>, p: Seq<char>) -> int
    decreases c.len(),
{
    if c.len() == 0 {
        -1
    } else {
        let i = path_index(c.drop_last(), p);
        if i >= 0 {
            i
        } else if same_path(c.last().0, p) {
            c.len() - 1
        } else {
            -1
        }
    }
}

/// The candidates after one referencing row: rows outside the selection are
/// passed over; a file already listed keeps its first known time (a row gives
/// it one only when it has none yet); a new file is added with the row's time.
pub open spec fn merge_row(
    c: Seq<(Seq<char>, Option<int>)>,
    data_dir: Seq<char>,
    row: ReferencedRolloutRow,
    sel: RepairTargetSelection,
) -> Seq<(Seq<char>, Option<int>)> {
    if !selection_includes_session(sel, row.thread_id@) {
        c
    } else {
        let p = resolved_rollout(data_dir, row.rollout_path@);
        let i = path_index(c, p);
        if i >= 0 {
            if c[i].1 is None {
                c.update(i, (c[i].0, row_target_ms(row)))
            } else {
                c
            }
        } else {
            c.push((p, row_target_ms(row)))
        }
    }
}

/// The candidates after the rows of one database, in order.
pub open spec fn merged_candidates(
    c: Seq<(Seq<char>, Option<int>)>,
    data_dir: Seq<char>,
    rows: Seq<ReferencedRolloutRow>,
    sel: RepairTargetSelection,
) -> Seq<(Seq<char>, Option<int>)>
    decreases rows.len(),
{
    if rows.len() == 0 {
        c
    } else {
        merge_row(merged_candidates(c, data_dir, rows.drop_last(), sel), data_dir, rows.last(), sel)
    }
}

proof fn lemma_path_index(c: Seq<(Seq<char>, Option<int>)>, p: Seq<char>, k: int)
    requires
        0 <= k <= c.len(),
        forall|j: int| 0 <= j < k ==> !same_path(#[trigger] c[j].0, p),
        k < c.len() ==> same_path(c[k].0, p),
    ensures
        path_index(c, p) == (if k < c.len() {
            k
        } else {
            -1
        }),
    decreases c.len(),
{
    if c.len() > 0 {
        let d = c.drop_last();
        if k < c.len() - 1 {
            assert forall|j: int| 0 <= j < k implies !same_path(#[trigger] d[j].0, p) by {
                assert(d[j] == c[j]);
            }
            assert(d[k] == c[k]);
            lemma_path_index(d, p, k);
        } else {
            assert forall|j: int| 0 <= j < d.len() implies !same_path(#[trigger] d[j].0, p) by {
                assert(d[j] == c[j]);
            }
            lemma_path_index(d, p, d.len() as int);
        }
    }
}

/// Adds the rollout files referenced by the rows of one database to the
/// candidates (see `merge_row`), resolving each recorded path against the
/// instance's data directory.
pub fn collect_referenced_rollout_paths_for_db(
    data_dir: &str,
    rows: &Vec<ReferencedRolloutRow>,
    selection: &RepairTargetSelection,
    candidates: &mut Vec<RolloutCandidate>,
)
    requires
        forall|i: int| 0 <= i < rows.len() ==> row_time_fits(#[trigger] rows@[i]),
    ensures
        candidate_views(final(candidates)@) == merged_candidates(
            candidate_views(old(candidates)@),
            data_dir@,
            rows@,
            *selection,
        ),
{
    let ghost start = candidate_views(candidates@);
    let mut k: usize = 0;
    while k < rows.len()
        invariant
            k <= rows.len(),
            forall|i: int| 0 <= i < rows.len() ==> row_time_fits(#[trigger] rows@[i]),
            candidate_views(candidates@) == merged_candidates(
                start,
                data_dir@,
                rows@.subrange(0, k as int),
                *selection,
            ),
        decreases rows.len() - k,
    {
        let row = &rows[k];
        proof {
            let s = rows@.subrange(0, k + 1);
            assert(s.drop_last() =~= rows@.subrange(0, k as int));
            assert(s.last() == rows@[k as int]);
            assert(row_time_fits(rows@[k as int]));
        }
        if selection.includes_session_id(row.thread_id.as_str()) {
            let ghost cv = candidate_views(candidates@);
            let path = resolve_rollout_path(data_dir, row.rollout_path.as_str());
            let target: Option<i128> = match row.updated_at_ms {
                Some(ms) => Some(ms as i128),
                None => match row.updated_at {
                    Some(s) => Some(s as i128 * 1000),
                    None => None,
                },
            };
            let mut i: usize = 0;
            let mut found = false;
            while i < candidates.len() && !found
                invariant
                    i <= candidates.len(),
                    cv == candidate_views(candidates@),
                    found ==> i < candidates.len() && same_path(cv[i as int].0, path@),
                    forall|j: int| 0 <= j < i ==> !same_path(#[trigger] cv[j].0, path@),
                decreases candidates.len() - i + (if found {
                    0int
                } else {
                    1int
                }),
            {
                if paths_equal(candidates[i].path.as_str(), path.as_str()) {
                    found = true;
                } else {
                    i = i + 1;
                }
            }
            proof {
                if found {
                    lemma_path_index(cv, path@, i as int);
                } else {
                    lemma_path_index(cv, path@, cv.len() as int);
                }
            }
            if found {
                if candidates[i].target_modified_ms.is_none() {
                    let kept = candidates[i].path.clone();
                    candidates.set(i, RolloutCandidate { path: kept, target_modified_ms: target });
                    proof {
                        assert(candidate_views(candidates@) =~= cv.update(
                            i as int,
                            (cv[i as int].0, row_target_ms(*row)),
                        ));
                    }
                }
            } else {
                candidates.push(RolloutCandidate { path, target_modified_ms: target });
                proof {
                    assert(candidate_views(candidates@) =~= cv.push(
                        (resolved_rollout(data_dir@, row.rollout_path@), row_target_ms(*row)),
                    ));
                }
            }
        }
        k = k + 1;
    }
    proof {
        assert(rows@.subrange(0, rows.len() as int) =~= rows@);
    }
}

/// The working directories to put into desktop form, out of `(thread id,
/// directory)` rows: for each thread the selection includes whose directory
/// (trimmed) looks like a Windows path and changes, the thread and its new
/// directory, in order.
pub open spec fn cwd_normalizations(rows: Seq<(Seq<char>, Seq<char>)>, sel: RepairTargetSelection) -> Seq<
    (Seq<char>, Seq<char>),
>
    decreases rows.len(),
{
    if rows.len() == 0 {
        seq![]
    } else {
        let rest = cwd_normalizations(rows.drop_last(), sel);
        let id = rows.last().0;
        let cwd = rows.last().1;
        if selection_includes_session(sel, id) && is_windows_path(trim(cwd)) {
            match desktop_workspace_path(cwd) {
                Some(n) => if n != cwd {
                    rest.push((id, n))
                } else {
                    rest
                },
                None => rest,
            }
        } else {
            rest
        }
    }
}

/// Pairs of strings taken by their views.
pub open spec fn pair_views(v: Seq<(String, String)>) -> Seq<(Seq<char>, Seq<char>)> {
    v.map_values(|p: (String, String)| (p.0@, p.1@))
}

/// The working directories to put into desktop form (see
/// `cwd_normalizations`), out of the `(thread id, directory)` rows read by
/// `cwd_select_statement`.
pub fn collect_sqlite_cwd_normalizations(rows: &Vec<(String, String)>, selection: &RepairTargetSelection) -> (r:
    Vec<(String, String)>)
    ensures
        pair_views(r@) == cwd_normalizations(pair_views(rows@), *selection),
{
    let ghost rv = pair_views(rows@);
    let mut out: Vec<(String, String)> = Vec::new();
    let mut k: usize = 0;
    while k < rows.len()
        invariant
            k <= rows.len(),
            rv == pair_views(rows@),
            pair_views(out@) == cwd_normalizations(rv.subrange(0, k as int), *selection),
        decreases rows.len() - k,
    {
        proof {
            let s = rv.subrange(0, k + 1);
            assert(s.drop_last() =~= rv.subrange(0, k as int));
            assert(s.last() == (rows@[k as int].0@, rows@[k as int].1@));
        }
        let id = &rows[k].0;
        let cwd = &rows[k].1;
        let trimmed = crate::text::trim_str(cwd.as_str());
        if selection.includes_session_id(id.as_str()) && is_windows_workspace_path(trimmed.as_str()) {
            match to_desktop_workspace_path(cwd.as_str()) {
                Some(n) => {
                    if n != *cwd {
                        let ghost before = pair_views(out@);
                        out.push((id.clone(), n));
                        proof {
                            assert(pair_views(out@) =~= before.push((id@, out@.last().1@)));
                        }
                    }
                },
                None => {},
            }
        }
        k = k + 1;
    }
    proof {
        assert(rv.subrange(0, rows.len() as int) =~= rv);
    }
    out
}

/// The query of the threads' working directories: `(id, cwd)` of the rows
/// with one.
pub fn cwd_select_statement() -> (r: String)
    ensures
        r@ == "SELECT id, cwd FROM threads WHERE COALESCE(cwd, '') <> ''"@,
{
    "SELECT id, cwd FROM threads WHERE COALESCE(cwd, '') <> ''".to_string()
}

} // verus!
