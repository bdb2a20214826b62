//! The files of an instance the repair reads and writes: its state databases,
//! their sidecars, rollout files, and paths relative to the instance root.
//! Paths are handled through `std::path`, whose results are named below.
use vstd::prelude::*;
use crate::modes::{CodexSessionVisibilityRepairOptions, SqliteRepairScope};
use crate::order::{sorted_distinct, sorted_of};
use crate::text::{chars_eq, chars_of, has_prefix, push_str, trim, trim_str};
use crate::workspace_path::views;
use std::path::Path;

verus! {

/// `base.join(part)` of `std::path`, as text.
pub uninterp spec fn joined_path(base: Seq<char>, part: Seq<char>) -> Seq<char>;

/// Joins a path and a relative part with `Path::join`.
#[verifier::external_body]
pub fn join_path(base: &str, part: &str) -> (r: String)
    ensures
        r@ == joined_path(base@, part@),
{
    Path::new(base).join(part).to_string_lossy().into_owned()
}

/// `Path::is_absolute` of `std::path`.
pub uninterp spec fn absolute_path(p: Seq<char>) -> bool;

/// Whether a path is absolute, by `Path::is_absolute`.
#[verifier::external_body]
fn is_absolute_path(p: &str) -> (b: bool)
    ensures
        b == absolute_path(p@),
{
    Path::new(p).is_absolute()
}

/// `==` of `std::path::Path` (which compares components).
pub uninterp spec fn same_path(a: Seq<char>, b: Seq<char>) -> bool;

/// Whether two paths are equal as `Path`s.
#[verifier::external_body]
pub(crate) fn paths_equal(a: &str, b: &str) -> (r: bool)
    ensures
        r == same_path(a@, b@),
{
    Path::new(a) == Path::new(b)
}

/// `Path::strip_prefix` of `std::path`, as text.
pub uninterp spec fn stripped_path(path: Seq<char>, base: Seq<char>) -> Option<Seq<char>>;

/// The part of `path` below `base`, by `Path::strip_prefix`.
#[verifier::external_body]
fn strip_path_prefix(path: &str, base: &str) -> (r: Option<String>)
    ensures
        match r {
            Some(s) => stripped_path(path@, base@) == Some(s@),
            None => stripped_path(path@, base@) is None,
        },
{
    Path::new(path).strip_prefix(base).ok().map(|rest| rest.to_string_lossy().into_owned())
}

/// `Path::file_name` of `std::path`, as text.
pub uninterp spec fn file_name_of(path: Seq<char>) -> Option<Seq<char>>;

/// The final component of a path, by `Path::file_name`.
#[verifier::external_body]
fn path_file_name(path: &str) -> (r: Option<String>)
    ensures
        match r {
            Some(s) => file_name_of(path@) == Some(s@),
            None => file_name_of(path@) is None,
        },
{
    Path::new(path).file_name().map(|name| name.to_string_lossy().into_owned())
}

/// The extension of a file name, as `Path::extension` documents it: none when
/// there is no `.` or the only `.` starts the name; else what follows the last `.`.
pub open spec fn name_extension(name: Seq<char>) -> Option<Seq<char>> {
    let dots = Set::new(|i: int| 0 <= i < name.len() && name[i] == '.');
    if !(exists|i: int| 0 <= i < name.len() && name[i] == '.') {
        None
    } else {
        let last = choose|i: int|
            0 <= i < name.len() && name[i] == '.' && forall|j: int|
                i < j < name.len() ==> name[j] != '.';
        if last == 0 {
            None
        } else {
            Some(name.subrange(last + 1, name.len() as int))
        }
    }
}

/// The extension of a file name (see `name_extension`).
pub fn extension_of_name(name: &str) -> (r: Option<String>)
    ensures
        match r {
            Some(s) => name_extension(name@) == Some(s@),
            None => name_extension(name@) is None,
        },
{
    let v = chars_of(name);
    let mut k: usize = v.len();
    while k > 0 && v[k - 1] != '.'
        invariant
            k <= v.len(),
            v@ == name@,
            forall|j: int| k <= j < v.len() ==> v@[j] != '.',
        decreases k,
    {
        k = k - 1;
    }
    if k == 0 {
        proof {
            assert(!(exists|i: int| 0 <= i < name@.len() && name@[i] == '.'));
        }
        return None;
    }
    let last = k - 1;
    proof {
        assert(name@[last as int] == '.');
        let c = choose|i: int|
            0 <= i < name@.len() && name@[i] == '.' && forall|j: int|
                i < j < name@.len() ==> name@[j] != '.';
        assert(c == last) by {
            if c < last {
            } else if c > last {
            }
        }
    }
    if last == 0 {
        return None;
    }
    Some(crate::text::string_from_range(&v, k, v.len()))
}

/// The file name of an SQLite database names one of its extensions.
pub open spec fn sqlite_candidate_name(name: Seq<char>) -> bool {
    name_extension(name) == Some("db"@) || name_extension(name) == Some("sqlite"@)
        || name_extension(name) == Some("sqlite3"@)
}

/// Whether a file, by its name, may be an SQLite session database: its
/// extension is `db`, `sqlite` or `sqlite3`.
pub fn is_sqlite_candidate(file_name: &str) -> (b: bool)
    ensures
        b == sqlite_candidate_name(file_name@),
{
    match extension_of_name(file_name) {
        Some(e) => {
            let ec = chars_of(e.as_str());
            chars_eq(&ec, &chars_of("db")) || chars_eq(&ec, &chars_of("sqlite")) || chars_eq(
                &ec,
                &chars_of("sqlite3"),
            )
        },
        None => false,
    }
}

/// The database file the official app prefers in its `sqlite` directory.
pub open spec fn preferred_db_name() -> Seq<char> {
    "codex-dev.db"@
}

/// The session databases of the `sqlite` directory in the order they are
/// tried: the preferred one first, the others in ascending order of name.
pub open spec fn ordered_db_names(names: Set<Seq<char>>) -> Seq<Seq<char>> {
    if names.contains(preferred_db_name()) {
        seq![preferred_db_name()] + sorted_of(names.remove(preferred_db_name()))
    } else {
        sorted_of(names)
    }
}

/// Orders the session databases found in the `sqlite` directory, given their
/// file names (see `ordered_db_names`).
pub fn order_sqlite_dir_session_dbs(names: &Vec<String>) -> (r: Vec<String>)
    ensures
        views(r@) == ordered_db_names(views(names@).to_set()),
{
    let mut preferred = false;
    let mut rest: Vec<String> = Vec::new();
    let pref = chars_of("codex-dev.db");
    let mut k: usize = 0;
    while k < names.len()
        invariant
            k <= names.len(),
            pref@ == preferred_db_name(),
            preferred == views(names@).subrange(0, k as int).contains(preferred_db_name()),
            views(rest@).to_set() == views(names@).subrange(0, k as int).to_set().remove(
                preferred_db_name(),
            ),
        decreases names.len() - k,
    {
        let ghost before = views(rest@);
        let is_pref = chars_eq(&chars_of(names[k].as_str()), &pref);
        proof {
            assert(views(names@).subrange(0, k + 1) =~= views(names@).subrange(0, k as int).push(
                names@[k as int]@,
            ));
            crate::providers::lemma_push_contains(
                views(names@).subrange(0, k as int),
                names@[k as int]@,
                preferred_db_name(),
            );
        }
        if is_pref {
            preferred = true;
        } else {
            rest.push(names[k].clone());
        }
        proof {
            assert(views(rest@).to_set() =~= views(names@).subrange(0, k + 1).to_set().remove(
                preferred_db_name(),
            )) by {
                assert forall|x: Seq<char>| views(rest@).to_set().contains(x) <==> views(
                    names@,
                ).subrange(0, k + 1).to_set().remove(preferred_db_name()).contains(x) by {
                    crate::providers::lemma_push_contains(
                        views(names@).subrange(0, k as int),
                        names@[k as int]@,
                        x,
                    );
                    assert(views(rest@).to_set().contains(x) == views(rest@).contains(x));
                    assert(before.to_set().contains(x) == before.contains(x));
                    assert(views(names@).subrange(0, k + 1).to_set().contains(x) == views(
                        names@,
                    ).subrange(0, k + 1).contains(x));
                    assert(views(names@).subrange(0, k as int).to_set().contains(x) == views(
                        names@,
                    ).subrange(0, k as int).contains(x));
                    if is_pref {
                        assert(views(rest@) == before);
                    } else {
                        assert(views(rest@) =~= before.push(names@[k as int]@));
                        crate::providers::lemma_push_contains(before, names@[k as int]@, x);
                    }
                }
            }
        }
        k = k + 1;
    }
    proof {
        assert(views(names@).subrange(0, names.len() as int) =~= views(names@));
    }
    let sorted = sorted_distinct(&rest);
    let mut r: Vec<String> = Vec::new();
    if preferred {
        r.push("codex-dev.db".to_string());
    }
    let ghost head = views(r@);
    let mut m: usize = 0;
    while m < sorted.len()
        invariant
            m <= sorted.len(),
            views(r@) == head + views(sorted@).subrange(0, m as int),
        decreases sorted.len() - m,
    {
        let ghost before = views(r@);
        r.push(sorted[m].clone());
        proof {
            assert(views(r@) =~= before.push(sorted@[m as int]@));
            assert(views(sorted@).subrange(0, m + 1) =~= views(sorted@).subrange(0, m as int).push(
                views(sorted@)[m as int],
            ));
        }
        m = m + 1;
    }
    proof {
        assert(views(sorted@).subrange(0, sorted.len() as int) =~= views(sorted@));
        let all = views(names@).to_set();
        if preferred {
            assert(head =~= seq![preferred_db_name()]);
        } else {
            assert(head =~= Seq::<Seq<char>>::empty());
            assert(all.remove(preferred_db_name()) =~= all);
        }
    }
    r
}

/// A copy of a list of strings.
pub fn copy_strings(v: &Vec<String>) -> (r: Vec<String>)
    ensures
        views(r@) == views(v@),
{
    let mut r: Vec<String> = Vec::new();
    let mut k: usize = 0;
    while k < v.len()
        invariant
            k <= v.len(),
            views(r@) == views(v@).subrange(0, k as int),
        decreases v.len() - k,
    {
        let ghost before = views(r@);
        r.push(v[k].clone());
        proof {
            assert(views(r@) =~= before.push(v@[k as int]@));
            assert(views(v@).subrange(0, k + 1) =~= views(v@).subrange(0, k as int).push(
                views(v@)[k as int],
            ));
        }
        k = k + 1;
    }
    proof {
        assert(views(v@).subrange(0, v.len() as int) =~= views(v@));
    }
    r
}

/// Some path of `paths` equals `p` as a `Path`.
pub open spec fn holds_path(paths: Seq<Seq<char>>, p: Seq<char>) -> bool {
    exists|i: int| 0 <= i < paths.len() && same_path(#[trigger] paths[i], p)
}

/// Appends `path` unless an equal path is already there.
pub fn push_unique_path(paths: &mut Vec<String>, path: String)
    ensures
        views(final(paths)@) == if holds_path(views(old(paths)@), path@) {
            views(old(paths)@)
        } else {
            views(old(paths)@).push(path@)
        },
{
    let mut i: usize = 0;
    while i < paths.len()
        invariant
            i <= paths.len(),
            forall|j: int| 0 <= j < i ==> !same_path(#[trigger] views(paths@)[j], path@),
        decreases paths.len() - i,
    {
        if paths_equal(paths[i].as_str(), path.as_str()) {
            assert(same_path(views(paths@)[i as int], path@));
            return;
        }
        i = i + 1;
    }
    let ghost before = views(paths@);
    paths.push(path);
    proof {
        assert(views(paths@) =~= before.push(path@));
    }
}

/// The file name of the state database.
pub open spec fn state_db_name() -> Seq<char> {
    "state_5.sqlite"@
}

/// The state database at the instance root.
pub open spec fn legacy_state_db(data_dir: Seq<char>) -> Seq<char> {
    joined_path(data_dir, state_db_name())
}

/// The state database in the instance's `sqlite` directory.
pub open spec fn official_state_db(data_dir: Seq<char>) -> Seq<char> {
    joined_path(joined_path(data_dir, "sqlite"@), state_db_name())
}

/// The official state databases: the one in the `sqlite` directory, then the
/// one at the root unless it is the same path.
pub open spec fn official_state_dbs(data_dir: Seq<char>) -> Seq<Seq<char>> {
    if same_path(official_state_db(data_dir), legacy_state_db(data_dir)) {
        seq![official_state_db(data_dir)]
    } else {
        seq![official_state_db(data_dir), legacy_state_db(data_dir)]
    }
}

/// The official state databases of an instance (see `official_state_dbs`).
pub fn official_state_db_candidate_paths(data_dir: &str) -> (r: Vec<String>)
    ensures
        views(r@) == official_state_dbs(data_dir@),
{
    let mut paths: Vec<String> = Vec::new();
    let sqlite_dir = join_path(data_dir, "sqlite");
    push_unique_path(&mut paths, join_path(sqlite_dir.as_str(), "state_5.sqlite"));
    proof {
        assert(!holds_path(Seq::<Seq<char>>::empty(), official_state_db(data_dir@)));
        assert(views(paths@) =~= seq![official_state_db(data_dir@)]);
    }
    push_unique_path(&mut paths, join_path(data_dir, "state_5.sqlite"));
    proof {
        let first = seq![official_state_db(data_dir@)];
        if holds_path(first, legacy_state_db(data_dir@)) {
            let i = choose|i: int| 0 <= i < first.len() && same_path(#[trigger] first[i], legacy_state_db(data_dir@));
            assert(i == 0);
        }
        if same_path(official_state_db(data_dir@), legacy_state_db(data_dir@)) {
            assert(same_path(first[0], legacy_state_db(data_dir@)));
        }
        assert(views(paths@) =~= official_state_dbs(data_dir@));
    }
    paths
}

/// The session databases of an instance: those found in its `sqlite`
/// directory (in their order), then the root state database unless it is one
/// of them.
pub open spec fn session_db_candidates(data_dir: Seq<char>, dir_dbs: Seq<Seq<char>>) -> Seq<Seq<char>> {
    if holds_path(dir_dbs, legacy_state_db(data_dir)) {
        dir_dbs
    } else {
        dir_dbs.push(legacy_state_db(data_dir))
    }
}

/// The session databases of an instance (see `session_db_candidates`), given
/// those of its `sqlite` directory in order.
pub fn sqlite_candidate_paths(data_dir: &str, sqlite_dir_dbs: &Vec<String>) -> (r: Vec<String>)
    ensures
        views(r@) == session_db_candidates(data_dir@, views(sqlite_dir_dbs@)),
{
    let mut paths = copy_strings(sqlite_dir_dbs);
    push_unique_path(&mut paths, join_path(data_dir, "state_5.sqlite"));
    paths
}

/// The databases a profile repairs: the root state database alone, the
/// official state databases, or every session database that has a provider
/// table (`provider_sync_dbs`, worked out by the caller from the candidates).
pub open spec fn scoped_dbs(
    data_dir: Seq<char>,
    scope: SqliteRepairScope,
    provider_sync_dbs: Seq<Seq<char>>,
) -> Seq<Seq<char>> {
    match scope {
        SqliteRepairScope::LegacyStateOnly => seq![legacy_state_db(data_dir)],
        SqliteRepairScope::OfficialStateDbs => official_state_dbs(data_dir),
        SqliteRepairScope::AllSessionDbs => provider_sync_dbs,
    }
}

/// The databases a profile repairs (see `scoped_dbs`).
pub fn sqlite_candidate_paths_for_options(
    data_dir: &str,
    options: CodexSessionVisibilityRepairOptions,
    provider_sync_dbs: &Vec<String>,
) -> (r: Vec<String>)
    ensures
        views(r@) == scoped_dbs(data_dir@, options.sqlite_scope, views(provider_sync_dbs@)),
{
    match options.sqlite_scope {
        SqliteRepairScope::LegacyStateOnly => {
            let r = vec![join_path(data_dir, "state_5.sqlite")];
            proof {
                assert(views(r@) =~= seq![legacy_state_db(data_dir@)]);
            }
            r
        },
        SqliteRepairScope::OfficialStateDbs => official_state_db_candidate_paths(data_dir),
        SqliteRepairScope::AllSessionDbs => copy_strings(provider_sync_dbs),
    }
}

/// The candidates whose flag is set, in order.
pub open spec fn flagged(paths: Seq<Seq<char>>, flags: Seq<bool>) -> Seq<Seq<char>>
    decreases paths.len(),
{
    if paths.len() == 0 {
        seq![]
    } else if flags.len() >= paths.len() && flags[paths.len() - 1] {
        flagged(paths.drop_last(), flags).push(paths.last())
    } else {
        flagged(paths.drop_last(), flags)
    }
}

/// The session databases that have a provider table, given for each candidate
/// whether it has one.
pub fn provider_sync_sqlite_paths(candidates: &Vec<String>, has_provider_table: &Vec<bool>) -> (r: Vec<
    String,
>)
    requires
        has_provider_table.len() == candidates.len(),
    ensures
        views(r@) == flagged(views(candidates@), has_provider_table@),
{
    let mut r: Vec<String> = Vec::new();
    let mut k: usize = 0;
    while k < candidates.len()
        invariant
            k <= candidates.len(),
            has_provider_table.len() == candidates.len(),
            views(r@) == flagged(views(candidates@).subrange(0, k as int), has_provider_table@),
        decreases candidates.len() - k,
    {
        let ghost before = views(r@);
        proof {
            assert(views(candidates@).subrange(0, k + 1).drop_last() =~= views(candidates@).subrange(
                0,
                k as int,
            ));
        }
        if has_provider_table[k] {
            r.push(candidates[k].clone());
            proof {
                assert(views(r@) =~= before.push(candidates@[k as int]@));
            }
        }
        k = k + 1;
    }
    proof {
        assert(views(candidates@).subrange(0, candidates.len() as int) =~= views(candidates@));
    }
    r
}

/// A path relative to the instance root, or the path itself when it is not
/// under the root.
pub open spec fn relative_to_root(data_dir: Seq<char>, path: Seq<char>) -> Seq<char> {
    match stripped_path(path, data_dir) {
        Some(rest) => rest,
        None => path,
    }
}

/// A path relative to the instance root (see `relative_to_root`).
pub fn relative_to_instance_root(data_dir: &str, path: &str) -> (r: String)
    ensures
        r@ == relative_to_root(data_dir@, path@),
{
    match strip_path_prefix(path, data_dir) {
        Some(rest) => rest,
        None => path.to_string(),
    }
}

/// The write-ahead log and shared-memory files of an SQLite database.
pub open spec fn sidecars(db: Seq<char>) -> Seq<Seq<char>> {
    seq![db + "-wal"@, db + "-shm"@]
}

/// The sidecar files of an SQLite database (see `sidecars`).
pub fn sqlite_sidecar_paths(db_path: &str) -> (r: Vec<String>)
    ensures
        views(r@) == sidecars(db_path@),
{
    let mut wal = db_path.to_string();
    push_str(&mut wal, "-wal");
    let mut shm = db_path.to_string();
    push_str(&mut shm, "-shm");
    let r = vec![wal, shm];
    proof {
        assert(views(r@) =~= sidecars(db_path@));
    }
    r
}

/// The prefix of Windows extended-length paths.
pub open spec fn verbatim_prefix() -> Seq<char> {
    seq!['\\', '\\', '?', '\\']
}

/// Where a rollout path recorded in a database points: trimmed, without a
/// Windows extended-length prefix, and below the instance root when relative.
pub open spec fn resolved_rollout(data_dir: Seq<char>, recorded: Seq<char>) -> Seq<char> {
    let t = trim(recorded);
    let p = if has_prefix(t, verbatim_prefix()) {
        t.subrange(4, t.len() as int)
    } else {
        t
    };
    if absolute_path(p) {
        p
    } else {
        joined_path(data_dir, p)
    }
}

/// Where a recorded rollout path points (see `resolved_rollout`).
pub fn resolve_rollout_path(data_dir: &str, rollout_path: &str) -> (r: String)
    ensures
        r@ == resolved_rollout(data_dir@, rollout_path@),
{
    let t = trim_str(rollout_path);
    let tc = chars_of(t.as_str());
    let prefix: Vec<char> = vec!['\\', '\\', '?', '\\'];
    proof {
        assert(prefix@ =~= verbatim_prefix());
    }
    let p = if crate::text::starts_with_chars(&tc, &prefix) {
        crate::text::string_from_range(&tc, 4, tc.len())
    } else {
        t
    };
    if is_absolute_path(p.as_str()) {
        p
    } else {
        join_path(data_dir, p.as_str())
    }
}

/// A rollout file, by its path: its name starts with `rollout-` and its
/// extension is `jsonl`.
pub open spec fn plain_rollout(path: Seq<char>) -> bool {
    match file_name_of(path) {
        Some(name) => has_prefix(name, "rollout-"@) && name_extension(name) == Some("jsonl"@),
        None => false,
    }
}

/// Whether a path names a plain (uncompressed) rollout file.
pub fn is_plain_rollout_file(path: &str) -> (b: bool)
    ensures
        b == plain_rollout(path@),
{
    match path_file_name(path) {
        Some(name) => {
            let nc = chars_of(name.as_str());
            let starts = crate::text::starts_with_chars(&nc, &chars_of("rollout-"));
            let jsonl = match extension_of_name(name.as_str()) {
                Some(e) => chars_eq(&chars_of(e.as_str()), &chars_of("jsonl")),
                None => false,
            };
            starts && jsonl
        },
        None => false,
    }
}

} // verus!
