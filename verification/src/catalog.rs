//! The local thread catalog of the official app: which threads are subagent
//! or internal threads, which thread records the catalog is rebuilt from, and
//! the SQL that repairs it.
use vstd::prelude::*;
use crate::json::JsonValue;
use crate::order::{sorted_distinct, sorted_of};
use crate::providers::lemma_push_contains;
use crate::rollout::{
    marks_non_root_text, marks_non_root_thread_source, marks_non_root_value, marks_user_thread_source,
    source_text_marks_non_root_agent, source_value_marks_non_root_agent, thread_source_marks_non_root,
    thread_source_marks_user,
};
use crate::selection::{opt_string_view, selection_includes_session, RepairTargetSelection};
use crate::text::{push_str, trim};
use crate::threads_sql::contains_name;
use crate::workspace_path::views;

verus! {

/// A thread as a database records its kind: its id, its source text (and that
/// text parsed as JSON, when it parses), and its thread source.
#[derive(Debug)]
pub struct ThreadKindRow {
    pub thread_id: String,
    pub source: String,
    pub source_json: Option<JsonValue>,
    pub thread_source: Option<String>,
}

/// The row marks its thread as the user's own.
pub open spec fn row_is_user(r: ThreadKindRow) -> bool {
    marks_user_thread_source(opt_string_view(r.thread_source))
}

/// The row marks its thread as a subagent or internal thread.
pub open spec fn row_marks_non_root(r: ThreadKindRow) -> bool {
    ||| marks_non_root_thread_source(opt_string_view(r.thread_source))
    ||| marks_non_root_text(r.source@)
    ||| (r.source_json matches Some(v) && marks_non_root_value(v))
}

/// Whether a row marks its thread as a subagent or internal thread.
pub fn row_marks_non_root_thread(r: &ThreadKindRow) -> (b: bool)
    ensures
        b == row_marks_non_root(*r),
{
    thread_source_marks_non_root(&r.thread_source) || source_text_marks_non_root_agent(
        r.source.as_str(),
    ) || match &r.source_json {
        Some(v) => source_value_marks_non_root_agent(v),
        None => false,
    }
}

/// The threads some row marks as the user's own.
pub open spec fn user_threads(rows: Seq<ThreadKindRow>) -> Set<Seq<char>> {
    Set::new(
        |t: Seq<char>| exists|i: int| 0 <= i < rows.len() && row_is_user(#[trigger] rows[i]) && rows[i].thread_id@ == t,
    )
}

/// The threads some row not marking them as the user's marks as subagent or
/// internal threads.
pub open spec fn marked_threads(rows: Seq<ThreadKindRow>) -> Set<Seq<char>> {
    Set::new(
        |t: Seq<char>|
            exists|i: int|
                0 <= i < rows.len() && !row_is_user(#[trigger] rows[i]) && row_marks_non_root(rows[i])
                    && rows[i].thread_id@ == t,
    )
}

/// The subagent and internal threads: those spawned by another thread or
/// assigned to an agent job, and those a row marks as such (unless the row
/// marks them as the user's), less every thread some row marks as the user's.
pub open spec fn non_root_threads(spawned: Seq<Seq<char>>, rows: Seq<ThreadKindRow>) -> Set<Seq<char>> {
    spawned.to_set().union(marked_threads(rows)).difference(user_threads(rows))
}

/// The subagent and internal threads (see `non_root_threads`) in ascending
/// order, given the threads the spawn and job tables name and the kind rows
/// of every database.
pub fn collect_non_root_thread_ids(spawned: &Vec<String>, rows: &Vec<ThreadKindRow>) -> (r: Vec<
    String,
>)
    ensures
        views(r@) == sorted_of(non_root_threads(views(spawned@), rows@)),
{
    let mut users: Vec<String> = Vec::new();
    let mut marked: Vec<String> = Vec::new();
    let mut k: usize = 0;
    while k < rows.len()
        invariant
            k <= rows.len(),
            forall|t: Seq<char>|
                views(users@).contains(t) <==> exists|i: int|
                    0 <= i < k && row_is_user(#[trigger] rows@[i]) && rows@[i].thread_id@ == t,
            forall|t: Seq<char>|
                views(marked@).contains(t) <==> exists|i: int|
                    0 <= i < k && !row_is_user(#[trigger] rows@[i]) && row_marks_non_root(rows@[i])
                        && rows@[i].thread_id@ == t,
        decreases rows.len() - k,
    {
        let row = &rows[k];
        let ghost bu = views(users@);
        let ghost bm = views(marked@);
        let is_user = thread_source_marks_user(&row.thread_source);
        let marks = !is_user && row_marks_non_root_thread(row);
        if is_user {
            users.push(row.thread_id.clone());
        } else if marks {
            marked.push(row.thread_id.clone());
        }
        proof {
            if is_user {
                assert(views(users@) =~= bu.push(row.thread_id@));
            }
            if marks {
                assert(views(marked@) =~= bm.push(row.thread_id@));
            }
            assert forall|t: Seq<char>|
                views(users@).contains(t) <==> exists|i: int|
                    0 <= i < k + 1 && row_is_user(#[trigger] rows@[i]) && rows@[i].thread_id@ == t by {
                lemma_push_contains(bu, row.thread_id@, t);
                if exists|i: int| 0 <= i < k + 1 && row_is_user(#[trigger] rows@[i]) && rows@[i].thread_id@ == t {
                    let i = choose|i: int| 0 <= i < k + 1 && row_is_user(#[trigger] rows@[i]) && rows@[i].thread_id@ == t;
                    if i < k {
                        assert(exists|i2: int| 0 <= i2 < k && row_is_user(#[trigger] rows@[i2]) && rows@[i2].thread_id@ == t);
                    }
                }
            }
            assert forall|t: Seq<char>|
                views(marked@).contains(t) <==> exists|i: int|
                    0 <= i < k + 1 && !row_is_user(#[trigger] rows@[i]) && row_marks_non_root(rows@[i])
                        && rows@[i].thread_id@ == t by {
                lemma_push_contains(bm, row.thread_id@, t);
                if exists|i: int|
                    0 <= i < k + 1 && !row_is_user(#[trigger] rows@[i]) && row_marks_non_root(rows@[i])
                        && rows@[i].thread_id@ == t {
                    let i = choose|i: int|
                        0 <= i < k + 1 && !row_is_user(#[trigger] rows@[i]) && row_marks_non_root(rows@[i])
                            && rows@[i].thread_id@ == t;
                    if i < k {
                        assert(exists|i2: int|
                            0 <= i2 < k && !row_is_user(#[trigger] rows@[i2]) && row_marks_non_root(
                                rows@[i2],
                            ) && rows@[i2].thread_id@ == t);
                    }
                }
            }
        }
        k = k + 1;
    }
    let ghost user_set = user_threads(rows@);
    let ghost marked_set = marked_threads(rows@);
    proof {
        assert forall|t: Seq<char>| views(users@).contains(t) <==> user_set.contains(t) by {}
        assert forall|t: Seq<char>| views(marked@).contains(t) <==> marked_set.contains(t) by {}
    }
    let mut r: Vec<String> = Vec::new();
    let mut j: usize = 0;
    while j < spawned.len()
        invariant
            j <= spawned.len(),
            forall|t: Seq<char>| #[trigger] views(users@).contains(t) <==> user_set.contains(t),
            forall|t: Seq<char>| #[trigger]
                views(r@).contains(t) <==> (views(spawned@).subrange(0, j as int).contains(t)
                    && !user_set.contains(t)),
        decreases spawned.len() - j,
    {
        let id = &spawned[j];
        let ghost before = views(r@);
        let keep = !contains_name(&users, id.as_str());
        if keep {
            r.push(id.clone());
        }
        proof {
            assert(views(spawned@).subrange(0, j + 1) =~= views(spawned@).subrange(0, j as int).push(
                id@,
            ));
            assert forall|t: Seq<char>| #[trigger]
                views(r@).contains(t) <==> (views(spawned@).subrange(0, j + 1).contains(t)
                    && !user_set.contains(t)) by {
                assert(before.contains(t) <==> (views(spawned@).subrange(0, j as int).contains(t)
                    && !user_set.contains(t)));
                assert(views(users@).contains(id@) <==> user_set.contains(id@));
                if keep {
                    assert(views(r@) =~= before.push(id@));
                    lemma_push_contains(before, id@, t);
                }
                lemma_push_contains(views(spawned@).subrange(0, j as int), id@, t);
            }
        }
        j = j + 1;
    }
    let mut m: usize = 0;
    proof {
        assert(views(spawned@).subrange(0, spawned.len() as int) =~= views(spawned@));
        assert(views(marked@).subrange(0, 0) =~= Seq::<Seq<char>>::empty());
    }
    while m < marked.len()
        invariant
            m <= marked.len(),
            forall|t: Seq<char>| #[trigger] views(users@).contains(t) <==> user_set.contains(t),
            forall|t: Seq<char>| #[trigger] views(marked@).contains(t) <==> marked_set.contains(t),
            forall|t: Seq<char>| #[trigger]
                views(r@).contains(t) <==> ((views(spawned@).contains(t) || views(marked@).subrange(
                    0,
                    m as int,
                ).contains(t)) && !user_set.contains(t)),
        decreases marked.len() - m,
    {
        let id = &marked[m];
        let ghost before = views(r@);
        let keep = !contains_name(&users, id.as_str());
        if keep {
            r.push(id.clone());
        }
        proof {
            assert(views(marked@).subrange(0, m + 1) =~= views(marked@).subrange(0, m as int).push(
                id@,
            ));
            assert forall|t: Seq<char>| #[trigger]
                views(r@).contains(t) <==> ((views(spawned@).contains(t) || views(marked@).subrange(
                    0,
                    m + 1,
                ).contains(t)) && !user_set.contains(t)) by {
                assert(before.contains(t) <==> ((views(spawned@).contains(t) || views(marked@).subrange(
                    0,
                    m as int,
                ).contains(t)) && !user_set.contains(t)));
                assert(views(users@).contains(id@) <==> user_set.contains(id@));
                if keep {
                    assert(views(r@) =~= before.push(id@));
                    lemma_push_contains(before, id@, t);
                }
                lemma_push_contains(views(marked@).subrange(0, m as int), id@, t);
            }
        }
        m = m + 1;
    }
    proof {
        assert(views(marked@).subrange(0, marked.len() as int) =~= views(marked@));
        assert forall|t: Seq<char>| views(r@).to_set().contains(t) <==> non_root_threads(
            views(spawned@),
            rows@,
        ).contains(t) by {
            assert(views(marked@).contains(t) <==> marked_set.contains(t));
            assert(views(r@).to_set().contains(t) == views(r@).contains(t));
            assert(views(spawned@).to_set().contains(t) == views(spawned@).contains(t));
        }
        assert(views(r@).to_set() =~= non_root_threads(views(spawned@), rows@));
    }
    sorted_distinct(&r)
}

/// A thread row the catalog may be rebuilt from: its kind, and the key its
/// update time sorts by (a larger key is a later time).
#[derive(Debug)]
pub struct CatalogThreadCandidate {
    pub kind: ThreadKindRow,
    pub updated_key: u64,
}

/// The rows chosen so far (by thread: the row's index and its key) and the
/// subagent and internal threads known so far.
pub open spec fn catalog_step(
    st: (Map<Seq<char>, (int, u64)>, Set<Seq<char>>),
    row: CatalogThreadCandidate,
    i: int,
    sel: RepairTargetSelection,
) -> (Map<Seq<char>, (int, u64)>, Set<Seq<char>>) {
    let id = row.kind.thread_id@;
    if !selection_includes_session(sel, id) {
        st
    } else {
        let user = row_is_user(row.kind);
        let non_root = if user {
            st.1.remove(id)
        } else {
            st.1
        };
        if !user && (non_root.contains(id) || row_marks_non_root(row.kind)) {
            (st.0, non_root.insert(id))
        } else if !st.0.contains_key(id) || row.updated_key > st.0[id].1 {
            (st.0.insert(id, (i, row.updated_key)), non_root)
        } else {
            (st.0, non_root)
        }
    }
}

/// The choice after the first `n` rows, in order.
pub open spec fn catalog_fold(
    rows: Seq<CatalogThreadCandidate>,
    n: int,
    sel: RepairTargetSelection,
    non_root: Set<Seq<char>>,
) -> (Map<Seq<char>, (int, u64)>, Set<Seq<char>>)
    decreases n,
{
    if n <= 0 {
        (Map::empty(), non_root)
    } else {
        catalog_step(catalog_fold(rows, n - 1, sel, non_root), rows[n - 1], n - 1, sel)
    }
}

/// Every row the catalog is rebuilt from is a candidate row of a thread the
/// run's session list includes: the choice for a thread names the index of a
/// candidate row of that thread, among the rows seen, and that row's key. A
/// thread the run leaves out never gets a catalog row.
pub proof fn catalog_choices_are_selected_rows(
    rows: Seq<CatalogThreadCandidate>,
    n: int,
    sel: RepairTargetSelection,
    non_root: Set<Seq<char>>,
)
    requires
        0 <= n <= rows.len(),
    ensures
        forall|id: Seq<char>| #[trigger]
            catalog_fold(rows, n, sel, non_root).0.contains_key(id) ==> {
                let c = catalog_fold(rows, n, sel, non_root).0[id];
                &&& 0 <= c.0 < n
                &&& rows[c.0].kind.thread_id@ == id
                &&& rows[c.0].updated_key == c.1
                &&& (sel.session_ids is Some ==> views(sel.session_ids->0@).contains(id))
            },
    decreases n,
{
    if n > 0 {
        catalog_choices_are_selected_rows(rows, n - 1, sel, non_root);
        let st = catalog_fold(rows, n - 1, sel, non_root);
        let f = catalog_fold(rows, n, sel, non_root);
        let row = rows[n - 1];
        assert(f == catalog_step(st, row, n - 1, sel));
        assert forall|id: Seq<char>| #[trigger] f.0.contains_key(id) implies {
            let c = f.0[id];
            &&& 0 <= c.0 < n
            &&& rows[c.0].kind.thread_id@ == id
            &&& rows[c.0].updated_key == c.1
            &&& (sel.session_ids is Some ==> views(sel.session_ids->0@).contains(id))
        } by {
            if f.0 == st.0 {
                assert(st.0.contains_key(id));
            } else {
                let rid = row.kind.thread_id@;
                assert(selection_includes_session(sel, rid));
                assert(f.0 == st.0.insert(rid, (n - 1, row.updated_key)));
                if id != rid {
                    assert(st.0.contains_key(id));
                }
            }
        }
    }
}

/// A chosen row: its thread, its index among the candidates, and its key.
#[derive(Debug, Clone)]
pub struct CatalogChoice {
    pub id: String,
    pub row: usize,
    pub key: u64,
}

/// Chosen rows taken as a map from thread to index and key.
pub open spec fn choice_map(s: Seq<CatalogChoice>) -> Map<Seq<char>, (int, u64)>
    decreases s.len(),
{
    if s.len() == 0 {
        Map::empty()
    } else {
        choice_map(s.drop_last()).insert(s.last().id@, (s.last().row as int, s.last().key))
    }
}

/// The threads of chosen rows.
pub open spec fn choice_ids(s: Seq<CatalogChoice>) -> Seq<Seq<char>> {
    s.map_values(|c: CatalogChoice| c.id@)
}

proof fn lemma_choice_map(s: Seq<CatalogChoice>)
    requires
        choice_ids(s).no_duplicates(),
    ensures
        forall|k: Seq<char>| #[trigger] choice_map(s).contains_key(k) <==> choice_ids(s).contains(k),
        forall|j: int|
            0 <= j < s.len() ==> choice_map(s)[(#[trigger] s[j]).id@] == (s[j].row as int, s[j].key),
    decreases s.len(),
{
    if s.len() > 0 {
        let p = s.drop_last();
        assert(choice_ids(p) =~= choice_ids(s).drop_last());
        lemma_choice_map(p);
        assert(choice_ids(s) =~= choice_ids(p).push(s.last().id@));
        assert forall|k: Seq<char>| #[trigger] choice_map(s).contains_key(k) <==> choice_ids(
            s,
        ).contains(k) by {
            assert(choice_map(p).contains_key(k) <==> choice_ids(p).contains(k));
            lemma_push_contains(choice_ids(p), s.last().id@, k);
        }
        assert forall|j: int| 0 <= j < s.len() implies choice_map(s)[(#[trigger] s[j]).id@] == (
        s[j].row as int, s[j].key) by {
            if j < s.len() - 1 {
                assert(s[j] == p[j]);
                assert(choice_ids(s)[j] != choice_ids(s)[s.len() - 1]);
            }
        }
    }
}

proof fn lemma_choice_update(s: Seq<CatalogChoice>, j: int, c: CatalogChoice)
    requires
        choice_ids(s).no_duplicates(),
        0 <= j < s.len(),
        s[j].id@ == c.id@,
    ensures
        choice_ids(s.update(j, c)) == choice_ids(s),
        choice_map(s.update(j, c)) == choice_map(s).insert(c.id@, (c.row as int, c.key)),
{
    let t = s.update(j, c);
    assert(choice_ids(t) =~= choice_ids(s));
    lemma_choice_map(s);
    lemma_choice_map(t);
    let m = choice_map(s).insert(c.id@, (c.row as int, c.key));
    assert forall|k: Seq<char>| #[trigger] choice_map(t).contains_key(k) <==> m.contains_key(k) by {
        assert(choice_map(t).contains_key(k) <==> choice_ids(t).contains(k));
        assert(choice_map(s).contains_key(k) <==> choice_ids(s).contains(k));
        if k == c.id@ {
            assert(choice_ids(s)[j] == k);
        }
    }
    assert forall|k: Seq<char>| choice_map(t).contains_key(k) implies choice_map(t)[k] == m[k] by {
        assert(choice_ids(t).contains(k));
        let i = choose|i: int| 0 <= i < choice_ids(t).len() && choice_ids(t)[i] == k;
        assert(t[i].id@ == k);
        assert(choice_map(t)[t[i].id@] == (t[i].row as int, t[i].key));
        if i != j {
            assert(t[i] == s[i]);
            assert(choice_map(s)[s[i].id@] == (s[i].row as int, s[i].key));
            assert(s[i].id@ != c.id@) by {
                assert(choice_ids(s)[i] != choice_ids(s)[j]);
            }
        }
    }
    assert(choice_map(t) =~= m);
}

fn find_choice(s: &Vec<CatalogChoice>, id: &String) -> (r: Option<usize>)
    ensures
        match r {
            Some(j) => j < s.len() && s@[j as int].id@ == id@,
            None => !choice_ids(s@).contains(id@),
        },
{
    let mut i: usize = 0;
    while i < s.len()
        invariant
            i <= s.len(),
            forall|j: int| 0 <= j < i ==> choice_ids(s@)[j] != id@,
        decreases s.len() - i,
    {
        if s[i].id == *id {
            return Some(i);
        }
        i = i + 1;
    }
    None
}

fn remove_string(set: &mut Vec<String>, s: &String)
    ensures
        views(final(set)@).to_set() == views(old(set)@).to_set().remove(s@),
{
    let mut kept: Vec<String> = Vec::new();
    let mut i: usize = 0;
    while i < set.len()
        invariant
            i <= set.len(),
            forall|x: Seq<char>| #[trigger]
                views(kept@).contains(x) <==> (views(set@).subrange(0, i as int).contains(x) && x != s@),
        decreases set.len() - i,
    {
        let ghost before = views(kept@);
        let keep = set[i] != *s;
        if keep {
            kept.push(set[i].clone());
        }
        proof {
            assert(views(set@).subrange(0, i + 1) =~= views(set@).subrange(0, i as int).push(
                set@[i as int]@,
            ));
            assert forall|x: Seq<char>| #[trigger]
                views(kept@).contains(x) <==> (views(set@).subrange(0, i + 1).contains(x) && x != s@) by {
                assert(before.contains(x) <==> (views(set@).subrange(0, i as int).contains(x) && x != s@));
                lemma_push_contains(views(set@).subrange(0, i as int), set@[i as int]@, x);
                if keep {
                    assert(views(kept@) =~= before.push(set@[i as int]@));
                    lemma_push_contains(before, set@[i as int]@, x);
                }
            }
        }
        i = i + 1;
    }
    proof {
        assert(views(set@).subrange(0, set.len() as int) =~= views(set@));
        assert forall|x: Seq<char>| views(kept@).to_set().contains(x) <==> views(set@).to_set().remove(
            s@,
        ).contains(x) by {
            assert(views(kept@).to_set().contains(x) == views(kept@).contains(x));
            assert(views(set@).to_set().contains(x) == views(set@).contains(x));
        }
        assert(views(kept@).to_set() =~= views(set@).to_set().remove(s@));
    }
    *set = kept;
}

fn add_string(set: &mut Vec<String>, s: &String)
    ensures
        views(final(set)@).to_set() == views(old(set)@).to_set().insert(s@),
{
    let ghost before = views(set@);
    set.push(s.clone());
    proof {
        assert(views(set@) =~= before.push(s@));
        assert forall|x: Seq<char>| views(set@).to_set().contains(x) <==> before.to_set().insert(
            s@,
        ).contains(x) by {
            lemma_push_contains(before, s@, x);
            assert(views(set@).to_set().contains(x) == views(set@).contains(x));
            assert(before.to_set().contains(x) == before.contains(x));
        }
        assert(views(set@).to_set() =~= before.to_set().insert(s@));
    }
}

/// The rows the catalog is rebuilt from and the subagent and internal threads.
#[derive(Debug)]
pub struct CatalogThreadRecords {
    /// For each chosen thread, the index of its row among the candidates.
    pub records: Vec<CatalogChoice>,
    pub non_root_ids: Vec<String>,
}

/// Chooses the rows the catalog is rebuilt from, out of the candidate rows of
/// every database in order, starting from the known subagent and internal
/// threads. A row the selection includes is skipped when its thread is (or
/// becomes, by the row's own marks) a subagent or internal thread, unless the
/// row marks it as the user's, which clears that; otherwise it is chosen for its
/// thread when no row is or when it is newer. Threads that end up subagent or
/// internal threads keep no row; they are listed in ascending order.
pub fn collect_catalog_thread_records(
    candidates: &Vec<CatalogThreadCandidate>,
    selection: &RepairTargetSelection,
    known_non_root: &Vec<String>,
) -> (r: CatalogThreadRecords)
    ensures
        ({
            let f = catalog_fold(
                candidates@,
                candidates.len() as int,
                *selection,
                views(known_non_root@).to_set(),
            );
            &&& views(r.non_root_ids@) == sorted_of(f.1)
            &&& choice_ids(r.records@).no_duplicates()
            &&& choice_map(r.records@) == f.0.remove_keys(f.1)
        }),
        forall|j: int|
            0 <= j < r.records.len() ==> {
                let c = #[trigger] r.records@[j];
                &&& c.row < candidates.len()
                &&& candidates@[c.row as int].kind.thread_id@ == c.id@
                &&& candidates@[c.row as int].updated_key == c.key
                &&& (selection.session_ids is Some ==> views(selection.session_ids->0@).contains(c.id@))
            },
{
    let mut non_root: Vec<String> = Vec::new();
    let mut k: usize = 0;
    while k < known_non_root.len()
        invariant
            k <= known_non_root.len(),
            views(non_root@).to_set() == views(known_non_root@).subrange(0, k as int).to_set(),
        decreases known_non_root.len() - k,
    {
        add_string(&mut non_root, &known_non_root[k]);
        proof {
            assert(views(known_non_root@).subrange(0, k + 1) =~= views(known_non_root@).subrange(
                0,
                k as int,
            ).push(known_non_root@[k as int]@));
            assert forall|x: Seq<char>| views(known_non_root@).subrange(0, k + 1).to_set().contains(
                x,
            ) <==> views(known_non_root@).subrange(0, k as int).to_set().insert(
                known_non_root@[k as int]@,
            ).contains(x) by {
                lemma_push_contains(
                    views(known_non_root@).subrange(0, k as int),
                    known_non_root@[k as int]@,
                    x,
                );
                assert(views(known_non_root@).subrange(0, k + 1).to_set().contains(x) == views(
                    known_non_root@,
                ).subrange(0, k + 1).contains(x));
                assert(views(known_non_root@).subrange(0, k as int).to_set().contains(x) == views(
                    known_non_root@,
                ).subrange(0, k as int).contains(x));
            }
            assert(views(known_non_root@).subrange(0, k + 1).to_set() =~= views(
                known_non_root@,
            ).subrange(0, k as int).to_set().insert(known_non_root@[k as int]@));
        }
        k = k + 1;
    }
    proof {
        assert(views(known_non_root@).subrange(0, known_non_root.len() as int) =~= views(
            known_non_root@,
        ));
    }
    let ghost init = views(known_non_root@).to_set();
    let mut chosen: Vec<CatalogChoice> = Vec::new();
    let mut i: usize = 0;
    while i < candidates.len()
        invariant
            i <= candidates.len(),
            choice_ids(chosen@).no_duplicates(),
            (choice_map(chosen@), views(non_root@).to_set()) == catalog_fold(
                candidates@,
                i as int,
                *selection,
                init,
            ),
        decreases candidates.len() - i,
    {
        let row = &candidates[i];
        let id = &row.kind.thread_id;
        let ghost st = catalog_fold(candidates@, i as int, *selection, init);
        let ghost e = catalog_step(st, candidates@[i as int], i as int, *selection);
        proof {
            lemma_choice_map(chosen@);
            assert(catalog_fold(candidates@, i + 1, *selection, init) == catalog_step(
                st,
                candidates@[i as int],
                i as int,
                *selection,
            ));
            assert(choice_map(chosen@).contains_key(id@) <==> choice_ids(chosen@).contains(id@));
        }
        if selection.includes_session_id(id.as_str()) {
            let user = thread_source_marks_user(&row.kind.thread_source);
            if user {
                remove_string(&mut non_root, id);
            }
            let known = contains_name(&non_root, id.as_str());
            proof {
                assert(views(non_root@).to_set().contains(id@) == views(non_root@).contains(id@));
            }
            if !user && (known || row_marks_non_root_thread(&row.kind)) {
                add_string(&mut non_root, id);
            } else {
                match find_choice(&chosen, id) {
                    Some(j) => {
                        if row.updated_key > chosen[j].key {
                            let ghost before = chosen@;
                            let c = CatalogChoice { id: id.clone(), row: i, key: row.updated_key };
                            chosen.remove(j);
                            chosen.insert(j, c);
                            proof {
                                assert(chosen@ =~= before.update(j as int, c));
                                lemma_choice_update(before, j as int, c);
                                assert(choice_map(before)[before[j as int].id@] == (
                                    before[j as int].row as int,
                                    before[j as int].key,
                                ));
                                assert(choice_map(chosen@) == st.0.insert(id@, (i as int, row.updated_key)));
                            assert(choice_map(chosen@) == e.0);
                                assert(choice_map(chosen@) == e.0);
                            }
                        } else {
                            proof {
                                assert(choice_map(chosen@)[chosen@[j as int].id@] == (
                                    chosen@[j as int].row as int,
                                    chosen@[j as int].key,
                                ));
                                assert(st.0 == choice_map(chosen@));
                                assert(choice_ids(chosen@)[j as int] == id@);
                                assert(st.0.contains_key(id@));
                                assert(st.0[id@].1 == chosen@[j as int].key);
                                assert(!(candidates@[i as int].updated_key > st.0[id@].1));
                                assert(choice_map(chosen@) == e.0);
                            }
                        }
                    },
                    None => {
                        let ghost before = chosen@;
                        let c = CatalogChoice { id: id.clone(), row: i, key: row.updated_key };
                        chosen.push(c);
                        proof {
                            assert(chosen@.drop_last() == before);
                            assert(chosen@.last() == c);
                            assert(choice_map(chosen@) == choice_map(before).insert(c.id@, (c.row as int, c.key)));
                            assert(choice_map(chosen@) == st.0.insert(id@, (i as int, row.updated_key)));
                            assert(choice_map(chosen@) == e.0);
                            assert(choice_ids(chosen@) =~= choice_ids(before).push(id@));
                            assert(choice_ids(chosen@).no_duplicates()) by {
                                assert forall|a: int, b: int|
                                    0 <= a < b < choice_ids(chosen@).len() implies choice_ids(
                                    chosen@,
                                )[a] != choice_ids(chosen@)[b] by {
                                    if b == choice_ids(chosen@).len() - 1 {
                                        assert(choice_ids(before)[a] == choice_ids(chosen@)[a]);
                                    }
                                }
                            }
                        }
                    },
                }
            }
        }
        proof {
            assert(views(non_root@).to_set() == e.1);
            assert(choice_map(chosen@) == e.0);
        }
        i = i + 1;
    }
    let ghost f = catalog_fold(candidates@, candidates.len() as int, *selection, init);
    let mut records: Vec<CatalogChoice> = Vec::new();
    let mut m: usize = 0;
    proof {
        lemma_choice_map(chosen@);
    }
    while m < chosen.len()
        invariant
            m <= chosen.len(),
            choice_ids(chosen@).no_duplicates(),
            choice_ids(records@).no_duplicates(),
            forall|x: Seq<char>|
                choice_ids(records@).contains(x) ==> choice_ids(chosen@.subrange(0, m as int)).contains(
                    x,
                ),
            choice_map(records@) == choice_map(chosen@.subrange(0, m as int)).remove_keys(
                views(non_root@).to_set(),
            ),
        decreases chosen.len() - m,
    {
        let c = &chosen[m];
        let ghost before = records@;
        let ghost pre = chosen@.subrange(0, m as int);
        let drop = contains_name(&non_root, c.id.as_str());
        proof {
            assert(chosen@.subrange(0, m + 1).drop_last() =~= pre);
            assert(choice_ids(chosen@.subrange(0, m + 1)) =~= choice_ids(pre).push(c.id@));
            assert(!choice_ids(pre).contains(c.id@)) by {
                if choice_ids(pre).contains(c.id@) {
                    let q = choose|q: int| 0 <= q < choice_ids(pre).len() && choice_ids(pre)[q] == c.id@;
                    assert(choice_ids(chosen@)[q] == choice_ids(chosen@)[m as int]);
                }
            }
            assert(views(non_root@).to_set().contains(c.id@) == views(non_root@).contains(c.id@));
        }
        if !drop {
            records.push(CatalogChoice { id: c.id.clone(), row: c.row, key: c.key });
            proof {
                assert(records@.drop_last() == before);
                assert(choice_ids(records@) =~= choice_ids(before).push(c.id@));
                assert(!choice_ids(before).contains(c.id@));
                assert(choice_ids(records@).no_duplicates()) by {
                    assert forall|a: int, b: int|
                        0 <= a < b < choice_ids(records@).len() implies choice_ids(records@)[a]
                        != choice_ids(records@)[b] by {
                        if b == choice_ids(records@).len() - 1 {
                            assert(choice_ids(before)[a] == choice_ids(records@)[a]);
                        }
                    }
                }
                assert forall|x: Seq<char>| choice_ids(records@).contains(x) implies choice_ids(
                    chosen@.subrange(0, m + 1),
                ).contains(x) by {
                    lemma_push_contains(choice_ids(before), c.id@, x);
                    lemma_push_contains(choice_ids(pre), c.id@, x);
                }
            }
        } else {
            proof {
                assert forall|x: Seq<char>| choice_ids(records@).contains(x) implies choice_ids(
                    chosen@.subrange(0, m + 1),
                ).contains(x) by {
                    lemma_push_contains(choice_ids(pre), c.id@, x);
                }
            }
        }
        proof {
            assert(choice_map(chosen@.subrange(0, m + 1)) == choice_map(pre).insert(
                c.id@,
                (c.row as int, c.key),
            ));
            assert(choice_map(records@) =~= choice_map(chosen@.subrange(0, m + 1)).remove_keys(
                views(non_root@).to_set(),
            ));
        }
        m = m + 1;
    }
    proof {
        assert(chosen@.subrange(0, chosen.len() as int) =~= chosen@);
        lemma_choice_map(records@);
        catalog_choices_are_selected_rows(candidates@, candidates.len() as int, *selection, init);
        assert forall|j: int| 0 <= j < records.len() implies {
            let c = #[trigger] records@[j];
            &&& c.row < candidates.len()
            &&& candidates@[c.row as int].kind.thread_id@ == c.id@
            &&& candidates@[c.row as int].updated_key == c.key
            &&& (selection.session_ids is Some ==> views(selection.session_ids->0@).contains(c.id@))
        } by {
            let c = records@[j];
            assert(choice_ids(records@)[j] == c.id@);
            assert(choice_map(records@).contains_key(c.id@));
            assert(choice_map(records@)[c.id@] == (c.row as int, c.key));
            assert(f.0.contains_key(c.id@));
            assert(f.0[c.id@] == (c.row as int, c.key));
        }
    }
    CatalogThreadRecords { records, non_root_ids: sorted_distinct(&non_root) }
}

/// The columns the local thread catalog must have to be repaired.
pub open spec fn catalog_required_columns() -> Seq<Seq<char>> {
    seq![
        "host_id"@,
        "thread_id"@,
        "display_title"@,
        "source_created_at"@,
        "source_updated_at"@,
        "cwd"@,
        "source_kind"@,
        "model_provider"@,
        "observation_sequence"@,
    ]
}

fn required_column_list() -> (r: Vec<String>)
    ensures
        views(r@) == catalog_required_columns(),
{
    let r = vec![
        "host_id".to_string(),
        "thread_id".to_string(),
        "display_title".to_string(),
        "source_created_at".to_string(),
        "source_updated_at".to_string(),
        "cwd".to_string(),
        "source_kind".to_string(),
        "model_provider".to_string(),
        "observation_sequence".to_string(),
    ];
    proof {
        assert(views(r@) =~= catalog_required_columns());
    }
    r
}

/// Whether the catalog table has every required column.
pub fn catalog_has_required_columns(columns: &Vec<String>) -> (b: bool)
    ensures
        b == (forall|i: int|
            0 <= i < catalog_required_columns().len() ==> views(columns@).contains(
                #[trigger] catalog_required_columns()[i],
            )),
{
    let required = required_column_list();
    let mut i: usize = 0;
    while i < required.len()
        invariant
            i <= required.len(),
            views(required@) == catalog_required_columns(),
            forall|j: int| 0 <= j < i ==> views(columns@).contains(#[trigger] catalog_required_columns()[j]),
        decreases required.len() - i,
    {
        if !contains_name(columns, required[i].as_str()) {
            assert(views(required@)[i as int] == required@[i as int]@);
            return false;
        }
        i = i + 1;
    }
    true
}

/// The statement that moves a catalog row to the target provider (and clears
/// its missing flag where the table has one), only when it needs it.
pub open spec fn catalog_update_sql(has_missing_candidate: bool) -> Seq<char> {
    if has_missing_candidate {
        "UPDATE local_thread_catalog SET model_provider = ?1, missing_candidate = 0 WHERE host_id = ?2 AND thread_id = ?3 AND (COALESCE(model_provider, '') <> ?1 OR COALESCE(missing_candidate, 0) <> 0)"@
    } else {
        "UPDATE local_thread_catalog SET model_provider = ?1 WHERE host_id = ?2 AND thread_id = ?3 AND (COALESCE(model_provider, '') <> ?1)"@
    }
}

/// The statement that moves a catalog row to the target provider.
pub fn catalog_update_statement(columns: &Vec<String>) -> (r: String)
    ensures
        r@ == catalog_update_sql(views(columns@).contains("missing_candidate"@)),
{
    if contains_name(columns, "missing_candidate") {
        "UPDATE local_thread_catalog SET model_provider = ?1, missing_candidate = 0 WHERE host_id = ?2 AND thread_id = ?3 AND (COALESCE(model_provider, '') <> ?1 OR COALESCE(missing_candidate, 0) <> 0)".to_string()
    } else {
        "UPDATE local_thread_catalog SET model_provider = ?1 WHERE host_id = ?2 AND thread_id = ?3 AND (COALESCE(model_provider, '') <> ?1)".to_string()
    }
}

/// The optional columns a new catalog row fills where the table has them.
pub open spec fn catalog_optional_columns() -> Seq<Seq<char>> {
    seq![
        "source_detail"@,
        "git_branch"@,
        "thread_source"@,
        "project_id"@,
        "missing_candidate"@,
        "source_recency_at"@,
        "pending_observed_title"@,
    ]
}

/// The optional columns of `optional` that the table has, in order.
pub open spec fn present_columns(names: Seq<Seq<char>>, optional: Seq<Seq<char>>) -> Seq<Seq<char>>
    decreases optional.len(),
{
    if optional.len() == 0 {
        seq![]
    } else if names.contains(optional.last()) {
        present_columns(names, optional.drop_last()).push(optional.last())
    } else {
        present_columns(names, optional.drop_last())
    }
}

/// The columns a new catalog row is written with: the required ones, then the
/// optional ones the table has.
pub open spec fn catalog_insert_columns(names: Seq<Seq<char>>) -> Seq<Seq<char>> {
    catalog_required_columns() + present_columns(names, catalog_optional_columns())
}

/// The columns a new catalog row is written with (see `catalog_insert_columns`).
pub fn catalog_insert_column_list(columns: &Vec<String>) -> (r: Vec<String>)
    ensures
        views(r@) == catalog_insert_columns(views(columns@)),
{
    let mut r = required_column_list();
    let optional = vec![
        "source_detail".to_string(),
        "git_branch".to_string(),
        "thread_source".to_string(),
        "project_id".to_string(),
        "missing_candidate".to_string(),
        "source_recency_at".to_string(),
        "pending_observed_title".to_string(),
    ];
    proof {
        assert(views(optional@) =~= catalog_optional_columns());
        assert(views(optional@).subrange(0, 0) =~= Seq::<Seq<char>>::empty());
        assert(views(r@) =~= catalog_required_columns() + present_columns(
            views(columns@),
            views(optional@).subrange(0, 0),
        ));
    }
    let mut i: usize = 0;
    while i < optional.len()
        invariant
            i <= optional.len(),
            views(optional@) == catalog_optional_columns(),
            views(r@) == catalog_required_columns() + present_columns(
                views(columns@),
                views(optional@).subrange(0, i as int),
            ),
        decreases optional.len() - i,
    {
        let ghost before = views(r@);
        proof {
            assert(views(optional@).subrange(0, i + 1).drop_last() =~= views(optional@).subrange(
                0,
                i as int,
            ));
            assert(views(optional@).subrange(0, i + 1).last() == optional@[i as int]@);
        }
        if contains_name(columns, optional[i].as_str()) {
            r.push(optional[i].clone());
            proof {
                assert(views(r@) =~= before.push(optional@[i as int]@));
            }
        }
        i = i + 1;
    }
    proof {
        assert(views(optional@).subrange(0, optional.len() as int) =~= views(optional@));
    }
    r
}

/// `n` placeholders separated by commas.
pub open spec fn placeholders(n: nat) -> Seq<char>
    decreases n,
{
    if n == 0 {
        seq![]
    } else if n == 1 {
        "?"@
    } else {
        placeholders((n - 1) as nat) + ", ?"@
    }
}

fn placeholder_list(n: usize) -> (r: String)
    ensures
        r@ == placeholders(n as nat),
{
    let mut r = String::new();
    let mut i: usize = 0;
    while i < n
        invariant
            i <= n,
            r@ == placeholders(i as nat),
        decreases n - i,
    {
        if i == 0 {
            push_str(&mut r, "?");
        } else {
            push_str(&mut r, ", ?");
        }
        i = i + 1;
    }
    r
}

/// The statement that inserts rows into a table with the given columns.
pub open spec fn insert_sql(verb: Seq<char>, table: Seq<char>, columns: Seq<Seq<char>>) -> Seq<char> {
    verb + " "@ + table + " ("@ + crate::messages::join(columns, ", "@) + ") VALUES ("@ + placeholders(
        columns.len(),
    ) + ")"@
}

/// The statement that inserts a catalog row with the given columns (ignoring
/// a row that is already there).
pub fn catalog_insert_statement(columns: &Vec<String>) -> (r: String)
    ensures
        r@ == insert_sql("INSERT OR IGNORE INTO"@, "local_thread_catalog"@, views(columns@)),
{
    let mut r = "INSERT OR IGNORE INTO".to_string();
    push_str(&mut r, " ");
    push_str(&mut r, "local_thread_catalog");
    push_str(&mut r, " (");
    push_str(&mut r, crate::messages::join_strings(columns, ", ").as_str());
    push_str(&mut r, ") VALUES (");
    push_str(&mut r, placeholder_list(columns.len()).as_str());
    push_str(&mut r, ")");
    r
}

/// How many catalog rows a database's repair changed: the growth of the
/// running total, never below zero.
pub fn changed_catalog_rows(before_total: usize, after_total: usize) -> (r: usize)
    ensures
        r == if after_total >= before_total {
            (after_total - before_total) as usize
        } else {
            0
        },
{
    after_total.saturating_sub(before_total)
}

/// What a value of the sync-state statements stands for.
#[derive(Debug, Clone, Copy, PartialEq, Eq, Structural)]
pub enum SyncStateValue {
    /// The catalog's last observation sequence.
    ObservationSequence,
    /// The latest update time of the chosen records.
    WatermarkUpdatedAt,
    /// The current time in seconds.
    LastFullReconciledAt,
    /// The local host id.
    HostId,
    /// The number one.
    One,
}

/// The sync-state columns a repair touches that the table has, in order
/// (`initial_build_complete`, `observation_sequence`, `watermark_updated_at`,
/// `last_full_reconciled_at`).
pub open spec fn sync_update_parts(names: Seq<Seq<char>>) -> Seq<(Seq<char>, Option<SyncStateValue>)> {
    (if names.contains("initial_build_complete"@) {
        seq![("initial_build_complete = 1"@, None)]
    } else {
        seq![]
    }) + (if names.contains("observation_sequence"@) {
        seq![
            (
                "observation_sequence = MAX(COALESCE(observation_sequence, 0), ?)"@,
                Some(SyncStateValue::ObservationSequence),
            ),
        ]
    } else {
        seq![]
    }) + (if names.contains("watermark_updated_at"@) {
        seq![
            (
                "watermark_updated_at = MAX(COALESCE(watermark_updated_at, 0), ?)"@,
                Some(SyncStateValue::WatermarkUpdatedAt),
            ),
        ]
    } else {
        seq![]
    }) + (if names.contains("last_full_reconciled_at"@) {
        seq![
            (
                "last_full_reconciled_at = MAX(COALESCE(last_full_reconciled_at, 0), ?)"@,
                Some(SyncStateValue::LastFullReconciledAt),
            ),
        ]
    } else {
        seq![]
    })
}

/// A statement and the values of its placeholders, in order.
#[derive(Debug, Clone)]
pub struct BoundStatement {
    pub sql: String,
    pub values: Vec<SyncStateValue>,
}

/// The assignments of update parts.
pub open spec fn part_sql(parts: Seq<(Seq<char>, Option<SyncStateValue>)>) -> Seq<Seq<char>> {
    parts.map_values(|p: (Seq<char>, Option<SyncStateValue>)| p.0)
}

/// The placeholder values of update parts, in order.
pub open spec fn part_values(parts: Seq<(Seq<char>, Option<SyncStateValue>)>) -> Seq<SyncStateValue>
    decreases parts.len(),
{
    if parts.len() == 0 {
        seq![]
    } else {
        match parts.last().1 {
            Some(v) => part_values(parts.drop_last()).push(v),
            None => part_values(parts.drop_last()),
        }
    }
}

/// The statement that marks the catalog of the local host as freshly
/// reconciled: the sync-state assignments the table allows, for the host;
/// `None` when it allows none.
pub fn sync_state_update_statement(columns: &Vec<String>) -> (r: Option<BoundStatement>)
    ensures
        match r {
            Some(b) => {
                let parts = sync_update_parts(views(columns@));
                &&& parts.len() > 0
                &&& b.sql@ == "UPDATE local_thread_catalog_sync_state SET "@ + crate::messages::join(
                    part_sql(parts),
                    ", "@,
                ) + " WHERE host_id = ?"@
                &&& b.values@ == part_values(parts).push(SyncStateValue::HostId)
            },
            None => sync_update_parts(views(columns@)).len() == 0,
        },
{
    let ghost names = views(columns@);
    let mut assignments: Vec<String> = Vec::new();
    let mut values: Vec<SyncStateValue> = Vec::new();
    let ghost mut parts: Seq<(Seq<char>, Option<SyncStateValue>)> = seq![];
    if contains_name(columns, "initial_build_complete") {
        assignments.push("initial_build_complete = 1".to_string());
        proof {
            parts = parts.push(("initial_build_complete = 1"@, None));
        }
    }
    if contains_name(columns, "observation_sequence") {
        assignments.push(
            "observation_sequence = MAX(COALESCE(observation_sequence, 0), ?)".to_string(),
        );
        values.push(SyncStateValue::ObservationSequence);
        proof {
            parts = parts.push(
                (
                    "observation_sequence = MAX(COALESCE(observation_sequence, 0), ?)"@,
                    Some(SyncStateValue::ObservationSequence),
                ),
            );
        }
    }
    if contains_name(columns, "watermark_updated_at") {
        assignments.push(
            "watermark_updated_at = MAX(COALESCE(watermark_updated_at, 0), ?)".to_string(),
        );
        values.push(SyncStateValue::WatermarkUpdatedAt);
        proof {
            parts = parts.push(
                (
                    "watermark_updated_at = MAX(COALESCE(watermark_updated_at, 0), ?)"@,
                    Some(SyncStateValue::WatermarkUpdatedAt),
                ),
            );
        }
    }
    if contains_name(columns, "last_full_reconciled_at") {
        assignments.push(
            "last_full_reconciled_at = MAX(COALESCE(last_full_reconciled_at, 0), ?)".to_string(),
        );
        values.push(SyncStateValue::LastFullReconciledAt);
        proof {
            parts = parts.push(
                (
                    "last_full_reconciled_at = MAX(COALESCE(last_full_reconciled_at, 0), ?)"@,
                    Some(SyncStateValue::LastFullReconciledAt),
                ),
            );
        }
    }
    proof {
        assert(parts =~= sync_update_parts(names));
        assert(views(assignments@) =~= part_sql(parts));
        reveal_with_fuel(part_values, 5);
        assert(values@ =~= part_values(parts));
    }
    if assignments.len() == 0 {
        return None;
    }
    let mut sql = "UPDATE local_thread_catalog_sync_state SET ".to_string();
    push_str(&mut sql, crate::messages::join_strings(&assignments, ", ").as_str());
    push_str(&mut sql, " WHERE host_id = ?");
    values.push(SyncStateValue::HostId);
    Some(BoundStatement { sql, values })
}


/// The query that finds the catalog's local host: the first host of kind
/// `local` when the hosts table records kinds, else the host named `local`;
/// `None` when the table has no `host_id` column.
pub open spec fn local_host_query(columns: Seq<Seq<char>>) -> Option<Seq<char>> {
    if !columns.contains("host_id"@) {
        None
    } else if columns.contains("host_kind"@) {
        Some(
            "SELECT host_id FROM local_thread_catalog_hosts WHERE LOWER(COALESCE(host_kind, '')) = 'local' ORDER BY host_id LIMIT 1"@,
        )
    } else {
        Some("SELECT host_id FROM local_thread_catalog_hosts WHERE host_id = 'local' LIMIT 1"@)
    }
}

/// The query that finds the catalog's local host (see `local_host_query`),
/// given the columns of `local_thread_catalog_hosts`.
pub fn local_catalog_host_query(columns: &Vec<String>) -> (r: Option<String>)
    ensures
        match r {
            Some(q) => local_host_query(views(columns@)) == Some(q@),
            None => local_host_query(views(columns@)) is None,
        },
{
    if !contains_name(columns, "host_id") {
        None
    } else if contains_name(columns, "host_kind") {
        Some(
            "SELECT host_id FROM local_thread_catalog_hosts WHERE LOWER(COALESCE(host_kind, '')) = 'local' ORDER BY host_id LIMIT 1".to_string(),
        )
    } else {
        Some("SELECT host_id FROM local_thread_catalog_hosts WHERE host_id = 'local' LIMIT 1".to_string())
    }
}

/// The catalog's local host: `local` when the hosts table has no `host_id`
/// column; else the host the query found, unless it found none or a blank one.
pub open spec fn local_host_id(columns: Seq<Seq<char>>, found: Option<Seq<char>>) -> Option<Seq<char>> {
    if !columns.contains("host_id"@) {
        Some("local"@)
    } else {
        match found {
            Some(v) => if trim(v).len() > 0 {
                Some(v)
            } else {
                None
            },
            None => None,
        }
    }
}

/// The catalog's local host (see `local_host_id`), given the columns of
/// `local_thread_catalog_hosts` and what `local_catalog_host_query` found.
pub fn local_catalog_host_id(columns: &Vec<String>, found: Option<String>) -> (r: Option<String>)
    ensures
        crate::workspace_path::opt_view(r) == local_host_id(
            views(columns@),
            crate::workspace_path::opt_view(found),
        ),
{
    if !contains_name(columns, "host_id") {
        return Some("local".to_string());
    }
    match found {
        Some(v) => {
            if crate::text::trim_str(v.as_str()).as_str().is_empty() {
                None
            } else {
                Some(v)
            }
        },
        None => None,
    }
}


/// The title a catalog row is given: the thread's title, else its first user
/// message (blank ones skipped), as the table has them.
pub open spec fn title_expr(names: Seq<Seq<char>>) -> Seq<char> {
    if names.contains("title"@) && names.contains("first_user_message"@) {
        "COALESCE(NULLIF(title, ''), NULLIF(first_user_message, ''), '')"@
    } else if names.contains("title"@) {
        "COALESCE(title, '')"@
    } else if names.contains("first_user_message"@) {
        "COALESCE(first_user_message, '')"@
    } else {
        "''"@
    }
}

/// The query of the thread rows the catalog is rebuilt from: id, title,
/// creation and update times in seconds, working directory, source, git
/// branch, thread source and project, each with its fallback where the table
/// lacks the column; `None` when the table has no `id` column.
pub open spec fn catalog_candidates_sql(names: Seq<Seq<char>>) -> Option<Seq<char>> {
    if !names.contains("id"@) {
        None
    } else {
        Some(
            "SELECT id, "@ + title_expr(names) + ", "@ + crate::threads_sql::time_expr(
                names,
                "created_at"@,
                "created_at_ms"@,
            ) + ", "@ + crate::threads_sql::time_expr(names, "updated_at"@, "updated_at_ms"@)
                + ", "@ + crate::threads_sql::text_expr(names, "cwd"@, "''"@) + ", "@
                + crate::threads_sql::text_expr(names, "source"@, "''"@) + ", "@
                + crate::threads_sql::text_expr(names, "git_branch"@, "NULL"@) + ", "@
                + crate::threads_sql::text_expr(names, "thread_source"@, "NULL"@) + ", "@
                + crate::threads_sql::text_expr(names, "project_id"@, "NULL"@)
                + " FROM threads WHERE COALESCE(id, '') <> ''"@,
        )
    }
}

/// The query of the thread rows the catalog is rebuilt from (see
/// `catalog_candidates_sql`), given the columns of the `threads` table.
pub fn catalog_candidates_query(columns: &Vec<String>) -> (r: Option<String>)
    ensures
        match r {
            Some(q) => catalog_candidates_sql(views(columns@)) == Some(q@),
            None => catalog_candidates_sql(views(columns@)) is None,
        },
{
    if !contains_name(columns, "id") {
        return None;
    }
    let has_title = contains_name(columns, "title");
    let has_first = contains_name(columns, "first_user_message");
    let title = if has_title && has_first {
        "COALESCE(NULLIF(title, ''), NULLIF(first_user_message, ''), '')"
    } else if has_title {
        "COALESCE(title, '')"
    } else if has_first {
        "COALESCE(first_user_message, '')"
    } else {
        "''"
    };
    let mut q = "SELECT id, ".to_string();
    push_str(&mut q, title);
    push_str(&mut q, ", ");
    push_str(&mut q, crate::threads_sql::sqlite_time_expr(columns, "created_at", "created_at_ms").as_str());
    push_str(&mut q, ", ");
    push_str(&mut q, crate::threads_sql::sqlite_time_expr(columns, "updated_at", "updated_at_ms").as_str());
    push_str(&mut q, ", ");
    push_str(&mut q, crate::threads_sql::sqlite_text_expr(columns, "cwd", "''").as_str());
    push_str(&mut q, ", ");
    push_str(&mut q, crate::threads_sql::sqlite_text_expr(columns, "source", "''").as_str());
    push_str(&mut q, ", ");
    push_str(&mut q, crate::threads_sql::sqlite_text_expr(columns, "git_branch", "NULL").as_str());
    push_str(&mut q, ", ");
    push_str(&mut q, crate::threads_sql::sqlite_text_expr(columns, "thread_source", "NULL").as_str());
    push_str(&mut q, ", ");
    push_str(&mut q, crate::threads_sql::sqlite_text_expr(columns, "project_id", "NULL").as_str());
    push_str(&mut q, " FROM threads WHERE COALESCE(id, '') <> ''");
    Some(q)
}

/// The sync-state columns written for a host that has no sync-state row yet,
/// in order (`host_id`, then `watermark_updated_at`, `initial_build_complete`,
/// `observation_sequence` and `last_full_reconciled_at` where the table has
/// them), with what each value stands for.
pub open spec fn sync_insert_parts(names: Seq<Seq<char>>) -> Seq<(Seq<char>, SyncStateValue)> {
    seq![("host_id"@, SyncStateValue::HostId)] + (if names.contains("watermark_updated_at"@) {
        seq![("watermark_updated_at"@, SyncStateValue::WatermarkUpdatedAt)]
    } else {
        seq![]
    }) + (if names.contains("initial_build_complete"@) {
        seq![("initial_build_complete"@, SyncStateValue::One)]
    } else {
        seq![]
    }) + (if names.contains("observation_sequence"@) {
        seq![("observation_sequence"@, SyncStateValue::ObservationSequence)]
    } else {
        seq![]
    }) + (if names.contains("last_full_reconciled_at"@) {
        seq![("last_full_reconciled_at"@, SyncStateValue::LastFullReconciledAt)]
    } else {
        seq![]
    })
}

/// The statement that creates the sync-state row of the local host (see
/// `sync_insert_parts`).
pub fn sync_state_insert_statement(columns: &Vec<String>) -> (r: BoundStatement)
    ensures
        ({
            let parts = sync_insert_parts(views(columns@));
            &&& r.sql@ == "INSERT INTO local_thread_catalog_sync_state ("@ + crate::messages::join(
                parts.map_values(|p: (Seq<char>, SyncStateValue)| p.0),
                ", "@,
            ) + ") VALUES ("@ + placeholders(parts.len()) + ")"@
            &&& r.values@ == parts.map_values(|p: (Seq<char>, SyncStateValue)| p.1)
        }),
{
    let ghost names = views(columns@);
    let mut cols: Vec<String> = Vec::new();
    let mut values: Vec<SyncStateValue> = Vec::new();
    cols.push("host_id".to_string());
    values.push(SyncStateValue::HostId);
    let ghost mut parts: Seq<(Seq<char>, SyncStateValue)> = seq![("host_id"@, SyncStateValue::HostId)];
    if contains_name(columns, "watermark_updated_at") {
        cols.push("watermark_updated_at".to_string());
        values.push(SyncStateValue::WatermarkUpdatedAt);
        proof {
            parts = parts.push(("watermark_updated_at"@, SyncStateValue::WatermarkUpdatedAt));
        }
    }
    if contains_name(columns, "initial_build_complete") {
        cols.push("initial_build_complete".to_string());
        values.push(SyncStateValue::One);
        proof {
            parts = parts.push(("initial_build_complete"@, SyncStateValue::One));
        }
    }
    if contains_name(columns, "observation_sequence") {
        cols.push("observation_sequence".to_string());
        values.push(SyncStateValue::ObservationSequence);
        proof {
            parts = parts.push(("observation_sequence"@, SyncStateValue::ObservationSequence));
        }
    }
    if contains_name(columns, "last_full_reconciled_at") {
        cols.push("last_full_reconciled_at".to_string());
        values.push(SyncStateValue::LastFullReconciledAt);
        proof {
            parts = parts.push(("last_full_reconciled_at"@, SyncStateValue::LastFullReconciledAt));
        }
    }
    proof {
        assert(parts =~= sync_insert_parts(names));
        assert(views(cols@) =~= parts.map_values(|p: (Seq<char>, SyncStateValue)| p.0));
        assert(values@ =~= parts.map_values(|p: (Seq<char>, SyncStateValue)| p.1));
    }
    let mut sql = "INSERT INTO local_thread_catalog_sync_state (".to_string();
    push_str(&mut sql, crate::messages::join_strings(&cols, ", ").as_str());
    push_str(&mut sql, ") VALUES (");
    push_str(&mut sql, placeholder_list(cols.len()).as_str());
    push_str(&mut sql, ")");
    BoundStatement { sql, values }
}

/// The fixed statements of a catalog repair.
#[derive(Debug, Clone, Copy, PartialEq, Eq, Structural)]
pub enum CatalogStatement {
    /// The last observation sequence of a host (`?1`).
    MaxObservationSequence,
    /// Removes the row of a thread (`?2`) of a host (`?1`).
    DeleteThread,
    /// Whether a host (`?1`) has a row for a thread (`?2`).
    ThreadExists,
    /// Adds the changed row count (`?1`) to the catalog revision.
    BumpRevision,
    /// Creates the revision row with the changed row count (`?1`).
    InsertRevision,
}

/// The SQL of a fixed catalog statement.
pub open spec fn catalog_statement_sql(kind: CatalogStatement) -> Seq<char> {
    match kind {
        CatalogStatement::MaxObservationSequence => "SELECT COALESCE(MAX(observation_sequence), 0) FROM local_thread_catalog WHERE host_id = ?1"@,
        CatalogStatement::DeleteThread => "DELETE FROM local_thread_catalog WHERE host_id = ?1 AND thread_id = ?2"@,
        CatalogStatement::ThreadExists => "SELECT 1 FROM local_thread_catalog WHERE host_id = ?1 AND thread_id = ?2 LIMIT 1"@,
        CatalogStatement::BumpRevision => "UPDATE local_thread_catalog_metadata SET catalog_revision = catalog_revision + ?1"@,
        CatalogStatement::InsertRevision => "INSERT INTO local_thread_catalog_metadata (id, catalog_revision) VALUES (1, ?1)"@,
    }
}

/// The SQL of a fixed catalog statement (see `catalog_statement_sql`).
pub fn catalog_statement(kind: CatalogStatement) -> (r: String)
    ensures
        r@ == catalog_statement_sql(kind),
{
    match kind {
        CatalogStatement::MaxObservationSequence => "SELECT COALESCE(MAX(observation_sequence), 0) FROM local_thread_catalog WHERE host_id = ?1".to_string(),
        CatalogStatement::DeleteThread => "DELETE FROM local_thread_catalog WHERE host_id = ?1 AND thread_id = ?2".to_string(),
        CatalogStatement::ThreadExists => "SELECT 1 FROM local_thread_catalog WHERE host_id = ?1 AND thread_id = ?2 LIMIT 1".to_string(),
        CatalogStatement::BumpRevision => "UPDATE local_thread_catalog_metadata SET catalog_revision = catalog_revision + ?1".to_string(),
        CatalogStatement::InsertRevision => "INSERT INTO local_thread_catalog_metadata (id, catalog_revision) VALUES (1, ?1)".to_string(),
    }
}


/// The tables that record spawned (subagent) threads, with the column that
/// names the spawned thread.
pub open spec fn spawned_thread_tables() -> Seq<(Seq<char>, Seq<char>)> {
    seq![("thread_spawn_edges"@, "child_thread_id"@), ("agent_job_items"@, "assigned_thread_id"@)]
}

/// The tables that record threads with their source, with their id and
/// source columns.
pub open spec fn thread_kind_tables() -> Seq<(Seq<char>, Seq<char>, Seq<char>)> {
    seq![("threads"@, "id"@, "source"@), ("local_thread_catalog"@, "thread_id"@, "source_kind"@)]
}

/// The tables that record spawned threads (see `spawned_thread_tables`).
pub fn spawned_thread_table_list() -> (r: Vec<(String, String)>)
    ensures
        r@.map_values(|p: (String, String)| (p.0@, p.1@)) == spawned_thread_tables(),
{
    let r = vec![
        ("thread_spawn_edges".to_string(), "child_thread_id".to_string()),
        ("agent_job_items".to_string(), "assigned_thread_id".to_string()),
    ];
    proof {
        assert(r@.map_values(|p: (String, String)| (p.0@, p.1@)) =~= spawned_thread_tables());
    }
    r
}

/// The tables that record threads with their source (see `thread_kind_tables`).
pub fn thread_kind_table_list() -> (r: Vec<(String, String, String)>)
    ensures
        r@.map_values(|p: (String, String, String)| (p.0@, p.1@, p.2@)) == thread_kind_tables(),
{
    let r = vec![
        ("threads".to_string(), "id".to_string(), "source".to_string()),
        ("local_thread_catalog".to_string(), "thread_id".to_string(), "source_kind".to_string()),
    ];
    proof {
        assert(r@.map_values(|p: (String, String, String)| (p.0@, p.1@, p.2@)) =~= thread_kind_tables());
    }
    r
}

/// The query of the threads a table records as spawned.
pub open spec fn spawned_threads_sql(table: Seq<char>, column: Seq<char>) -> Seq<char> {
    "SELECT DISTINCT "@ + column + " FROM "@ + table + " WHERE COALESCE("@ + column + ", '') <> ''"@
}

/// The query of the threads a table records as spawned (see
/// `spawned_threads_sql`).
pub fn spawned_threads_query(table: &str, column: &str) -> (r: String)
    ensures
        r@ == spawned_threads_sql(table@, column@),
{
    let mut r = "SELECT DISTINCT ".to_string();
    push_str(&mut r, column);
    push_str(&mut r, " FROM ");
    push_str(&mut r, table);
    push_str(&mut r, " WHERE COALESCE(");
    push_str(&mut r, column);
    push_str(&mut r, ", '') <> ''");
    r
}

/// The query of the threads of a table with their source and thread source
/// (each with its fallback where the table lacks the column); `None` when the
/// table has no id column.
pub open spec fn thread_kinds_sql(
    names: Seq<Seq<char>>,
    table: Seq<char>,
    id_column: Seq<char>,
    source_column: Seq<char>,
) -> Option<Seq<char>> {
    if !names.contains(id_column) {
        None
    } else {
        Some(
            "SELECT "@ + id_column + ", "@ + crate::threads_sql::text_expr(names, source_column, "''"@)
                + ", "@ + crate::threads_sql::text_expr(names, "thread_source"@, "NULL"@) + " FROM "@
                + table + " WHERE COALESCE("@ + id_column + ", '') <> ''"@,
        )
    }
}

/// The query of the threads of a table with their kinds (see
/// `thread_kinds_sql`), given the table's columns.
pub fn thread_kinds_query(columns: &Vec<String>, table: &str, id_column: &str, source_column: &str) -> (r:
    Option<String>)
    ensures
        match r {
            Some(q) => thread_kinds_sql(views(columns@), table@, id_column@, source_column@) == Some(q@),
            None => thread_kinds_sql(views(columns@), table@, id_column@, source_column@) is None,
        },
{
    if !contains_name(columns, id_column) {
        return None;
    }
    let mut r = "SELECT ".to_string();
    push_str(&mut r, id_column);
    push_str(&mut r, ", ");
    push_str(&mut r, crate::threads_sql::sqlite_text_expr(columns, source_column, "''").as_str());
    push_str(&mut r, ", ");
    push_str(&mut r, crate::threads_sql::sqlite_text_expr(columns, "thread_source", "NULL").as_str());
    push_str(&mut r, " FROM ");
    push_str(&mut r, table);
    push_str(&mut r, " WHERE COALESCE(");
    push_str(&mut r, id_column);
    push_str(&mut r, ", '') <> ''");
    Some(r)
}

} // verus!
