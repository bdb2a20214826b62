//! The backups a repair takes before it writes: their directory names, the
//! layout of what they hold, and which old backups are removed (only the newest
//! one is kept).
use vstd::prelude::*;
use crate::order::{lex_lt, sorted_distinct, sorted_of, strictly_sorted};
use crate::text::{
    chars_of, ends_with_chars, has_prefix, has_suffix, push_str, starts_with_chars,
    string_from_range,
};
use crate::json::{items_view, json_view, lemma_items_view, lemma_members_view, members_view, JsonValue, JsonView};
use crate::paths::{join_path, joined_path};
use crate::workspace_path::views;

verus! {

/// The start of a backup directory's name.
pub open spec fn backup_prefix() -> Seq<char> {
    "backup-"@
}

/// The end of a backup directory's name.
pub open spec fn backup_suffix() -> Seq<char> {
    "-session-visibility-repair"@
}

/// The name of the backup directory taken at a time written `YYYYmmdd-HHMMSS`.
pub open spec fn backup_dir_name_of(timestamp: Seq<char>) -> Seq<char> {
    backup_prefix() + timestamp + backup_suffix()
}

/// The name of the backup directory taken at a time (`YYYYmmdd-HHMMSS`).
pub fn backup_dir_name(timestamp: &str) -> (r: String)
    ensures
        r@ == backup_dir_name_of(timestamp@),
{
    let mut r = "backup-".to_string();
    push_str(&mut r, timestamp);
    push_str(&mut r, "-session-visibility-repair");
    r
}

/// A backup time: fifteen characters, `-` at index 8 and ASCII digits elsewhere.
pub open spec fn backup_timestamp_shape(t: Seq<char>) -> bool {
    &&& t.len() == 15
    &&& forall|i: int|
        0 <= i < 15 ==> if i == 8 {
            #[trigger] t[i] == '-'
        } else {
            '0' <= t[i] <= '9'
        }
}

/// The time in the name of a backup directory; `None` when the name is not
/// that of a backup directory.
pub open spec fn backup_timestamp(name: Seq<char>) -> Option<Seq<char>> {
    let p = backup_prefix().len();
    let s = backup_suffix().len();
    if has_prefix(name, backup_prefix()) && name.len() >= p + s && has_suffix(name, backup_suffix()) {
        let t = name.subrange(p as int, name.len() - s);
        if backup_timestamp_shape(t) {
            Some(t)
        } else {
            None
        }
    } else {
        None
    }
}

/// A backup directory's name is its time framed by the prefix and suffix.
pub proof fn lemma_backup_name_round_trip(name: Seq<char>)
    requires
        backup_timestamp(name) is Some,
    ensures
        name == backup_dir_name_of(backup_timestamp(name)->0),
{
    let t = backup_timestamp(name)->0;
    assert(name =~= backup_prefix() + t + backup_suffix());
}

/// Reading the time back out of a backup directory's name gives that time.
pub proof fn lemma_backup_timestamp_of_name(t: Seq<char>)
    requires
        backup_timestamp_shape(t),
    ensures
        backup_timestamp(backup_dir_name_of(t)) == Some(t),
{
    let name = backup_dir_name_of(t);
    assert(name.subrange(0, backup_prefix().len() as int) =~= backup_prefix());
    assert(name.subrange(name.len() - backup_suffix().len(), name.len() as int) =~= backup_suffix());
    assert(name.subrange(backup_prefix().len() as int, name.len() - backup_suffix().len()) =~= t);
}

/// The time in the name of a backup directory (see `backup_timestamp`).
pub fn parse_session_visibility_repair_backup_timestamp(name: &str) -> (r: Option<String>)
    ensures
        match r {
            Some(t) => backup_timestamp(name@) == Some(t@),
            None => backup_timestamp(name@) is None,
        },
{
    let v = chars_of(name);
    let prefix = chars_of("backup-");
    let suffix = chars_of("-session-visibility-repair");
    proof {
        reveal_strlit("backup-");
        reveal_strlit("-session-visibility-repair");
    }
    if !starts_with_chars(&v, &prefix) || v.len() < prefix.len() + suffix.len() || !ends_with_chars(
        &v,
        &suffix,
    ) {
        return None;
    }
    let lo = prefix.len();
    let hi = v.len() - suffix.len();
    let ghost t = name@.subrange(lo as int, hi as int);
    if hi - lo != 15 {
        return None;
    }
    let mut k: usize = lo;
    while k < hi
        invariant
            lo <= k <= hi <= v.len(),
            hi - lo == 15,
            lo == backup_prefix().len(),
            hi == name@.len() - backup_suffix().len(),
            has_prefix(name@, backup_prefix()),
            has_suffix(name@, backup_suffix()),
            v@ == name@,
            t == name@.subrange(lo as int, hi as int),
            forall|i: int|
                0 <= i < k - lo ==> if i == 8 {
                    #[trigger] t[i] == '-'
                } else {
                    '0' <= t[i] <= '9'
                },
        decreases hi - k,
    {
        let c = v[k];
        let ok = if k - lo == 8 {
            c == '-'
        } else {
            '0' <= c && c <= '9'
        };
        if !ok {
            proof {
                assert(t[k - lo] == c);
                assert(!backup_timestamp_shape(t));
                assert(t == name@.subrange(
                    backup_prefix().len() as int,
                    name@.len() - backup_suffix().len(),
                ));
            }
            return None;
        }
        k = k + 1;
    }
    Some(string_from_range(&v, lo, hi))
}

/// A directory under the instance root: its name and path.
#[derive(Debug, Clone)]
pub struct InstanceDirEntry {
    pub name: String,
    pub path: String,
}

/// The backup directories among the entries: the time of each, with its path,
/// in order.
pub open spec fn timestamped_backups(entries: Seq<InstanceDirEntry>) -> Seq<(Seq<char>, Seq<char>)>
    decreases entries.len(),
{
    if entries.len() == 0 {
        seq![]
    } else {
        let rest = timestamped_backups(entries.drop_last());
        match backup_timestamp(entries.last().name@) {
            Some(t) => rest.push((t, entries.last().path@)),
            None => rest,
        }
    }
}

/// The times of backups.
pub open spec fn backup_times(b: Seq<(Seq<char>, Seq<char>)>) -> Seq<Seq<char>> {
    b.map_values(|e: (Seq<char>, Seq<char>)| e.0)
}

/// The backups to remove, newest first, as (time, path): all but the newest.
pub open spec fn backups_to_remove(entries: Seq<InstanceDirEntry>) -> Seq<Seq<char>> {
    let order = sorted_of(backup_times(timestamped_backups(entries)).to_set()).reverse();
    if order.len() <= 1 {
        seq![]
    } else {
        order.drop_first()
    }
}

/// The entries' names are distinct, as those of a directory's entries are.
pub open spec fn distinct_names(entries: Seq<InstanceDirEntry>) -> bool {
    forall|i: int, j: int|
        0 <= i < j < entries.len() ==> (#[trigger] entries[i]).name@ != (#[trigger] entries[j]).name@
}

fn find_backup_path(found: &Vec<(String, String)>, t: &String) -> (r: Option<String>)
    ensures
        match r {
            Some(p) => exists|i: int|
                0 <= i < found.len() && (#[trigger] found@[i]).0@ == t@ && found@[i].1@ == p@,
            None => forall|i: int| 0 <= i < found.len() ==> (#[trigger] found@[i]).0@ != t@,
        },
{
    let mut i: usize = 0;
    while i < found.len()
        invariant
            i <= found.len(),
            forall|j: int| 0 <= j < i ==> (#[trigger] found@[j]).0@ != t@,
        decreases found.len() - i,
    {
        if found[i].0 == *t {
            return Some(found[i].1.clone());
        }
        i = i + 1;
    }
    None
}

/// The old backup directories to remove from an instance root, given its
/// directory entries: only the newest backup is kept; the others are listed
/// newest first, each by its path.
pub fn prune_instance_session_visibility_repair_backups(entries: &Vec<InstanceDirEntry>) -> (r: Vec<
    String,
>)
    requires
        distinct_names(entries@),
    ensures
        r.len() == backups_to_remove(entries@).len(),
        forall|i: int|
            0 <= i < r.len() ==> timestamped_backups(entries@).contains(
                (backups_to_remove(entries@)[i], (#[trigger] r@[i])@),
            ),
{
    let mut found: Vec<(String, String)> = Vec::new();
    let mut times: Vec<String> = Vec::new();
    let mut k: usize = 0;
    while k < entries.len()
        invariant
            k <= entries.len(),
            found@.map_values(|e: (String, String)| (e.0@, e.1@)) == timestamped_backups(
                entries@.subrange(0, k as int),
            ),
            views(times@) == backup_times(timestamped_backups(entries@.subrange(0, k as int))),
        decreases entries.len() - k,
    {
        proof {
            assert(entries@.subrange(0, k + 1).drop_last() =~= entries@.subrange(0, k as int));
            assert(entries@.subrange(0, k + 1).last() == entries@[k as int]);
        }
        let ghost fb = found@.map_values(|e: (String, String)| (e.0@, e.1@));
        let ghost tb = views(times@);
        match parse_session_visibility_repair_backup_timestamp(entries[k].name.as_str()) {
            Some(t) => {
                found.push((t.clone(), entries[k].path.clone()));
                times.push(t);
                proof {
                    assert(found@.map_values(|e: (String, String)| (e.0@, e.1@)) =~= fb.push(
                        (times@[times.len() - 1]@, entries@[k as int].path@),
                    ));
                    assert(views(times@) =~= tb.push(times@[times.len() - 1]@));
                    assert(backup_times(timestamped_backups(entries@.subrange(0, k + 1)))
                        =~= backup_times(timestamped_backups(entries@.subrange(0, k as int))).push(
                        times@[times.len() - 1]@,
                    ));
                }
            },
            None => {},
        }
        k = k + 1;
    }
    proof {
        assert(entries@.subrange(0, entries.len() as int) =~= entries@);
    }
    let ascending = sorted_distinct(&times);
    let mut r: Vec<String> = Vec::new();
    if ascending.len() <= 1 {
        return r;
    }
    let ghost order = views(ascending@).reverse();
    let ghost fv = found@.map_values(|e: (String, String)| (e.0@, e.1@));
    let mut m: usize = 1;
    while m < ascending.len()
        invariant
            1 <= m <= ascending.len(),
            order == views(ascending@).reverse(),
            fv == found@.map_values(|e: (String, String)| (e.0@, e.1@)),
            fv == timestamped_backups(entries@),
            views(times@) == backup_times(fv),
            views(ascending@).to_set() == views(times@).to_set(),
            r.len() == m - 1,
            forall|i: int|
                0 <= i < r.len() ==> fv.contains((order[i + 1], (#[trigger] r@[i])@)),
        decreases ascending.len() - m,
    {
        let t = &ascending[ascending.len() - 1 - m];
        let ghost j: int;
        proof {
            assert(order[m as int] == t@);
            assert(views(ascending@)[ascending.len() - 1 - m] == t@);
            assert(views(ascending@).to_set().contains(t@));
            assert(views(times@).to_set().contains(t@));
            j = choose|j: int| 0 <= j < views(times@).len() && views(times@)[j] == t@;
            assert(fv[j].0 == t@);
            assert(found@[j].0@ == t@);
        }
        let ghost before = r@;
        match find_backup_path(&found, t) {
            Some(p) => {
                proof {
                    let i = choose|i: int|
                        0 <= i < found.len() && (#[trigger] found@[i]).0@ == t@ && found@[i].1@
                            == p@;
                    assert(fv[i] == (t@, p@));
                }
                r.push(p);
                proof {
                    assert forall|i: int| 0 <= i < r.len() implies fv.contains(
                        (order[i + 1], (#[trigger] r@[i])@),
                    ) by {
                        if i < r.len() - 1 {
                            assert(r@[i] == before[i]);
                        }
                    }
                }
            },
            None => {
                proof {
                    assert(found@[j].0@ == t@);
                }
            },
        }
        m = m + 1;
    }
    proof {
        assert(views(ascending@) == sorted_of(views(times@).to_set()));
        assert(backups_to_remove(entries@) =~= order.drop_first());
    }
    r
}


/// Where a backup keeps a copy of an instance file (a rollout file, the
/// session index, the global state): under `files`, at its path relative to
/// the instance.
pub fn backup_file_target(backup_dir: &str, relative: &str) -> (r: String)
    ensures
        r@ == joined_path(joined_path(backup_dir@, "files"@), relative@),
{
    join_path(join_path(backup_dir, "files").as_str(), relative)
}

/// Where a backup keeps a copy of a state database: under `db`, at its path
/// relative to the instance.
pub fn backup_db_target(backup_dir: &str, relative: &str) -> (r: String)
    ensures
        r@ == joined_path(joined_path(backup_dir@, "db"@), relative@),
{
    join_path(join_path(backup_dir, "db").as_str(), relative)
}

/// A relative path with backslashes turned into slashes.
pub open spec fn slashed(s: Seq<char>) -> Seq<char> {
    s.map_values(|c: char| if c == '\\' { '/' } else { c })
}

/// A relative path as a backup's manifest lists it (see `slashed`).
pub fn portable_relative_path(relative: &str) -> (r: String)
    ensures
        r@ == slashed(relative@),
{
    let cs = chars_of(relative);
    let mut r = String::new();
    let mut i: usize = 0;
    while i < cs.len()
        invariant
            i <= cs.len(),
            cs@ == relative@,
            r@ == slashed(cs@.subrange(0, i as int)),
        decreases cs.len() - i,
    {
        let c = if cs[i] == '\\' {
            '/'
        } else {
            cs[i]
        };
        crate::text::push_char(&mut r, c);
        proof {
            assert(slashed(cs@.subrange(0, i + 1)) =~= slashed(cs@.subrange(0, i as int)).push(c));
        }
        i = i + 1;
    }
    proof {
        assert(cs@.subrange(0, cs.len() as int) =~= cs@);
    }
    r
}

/// What a backup holds, as its manifest records it.
pub struct BackupManifest {
    pub instance_id: String,
    pub instance_root: String,
    pub target_provider: String,
    pub created_at: String,
    pub sqlite_files: Vec<String>,
    pub has_session_index_backup: bool,
    pub has_global_state_backup: bool,
    pub rollout_files: Vec<String>,
}

/// An array of strings, by views.
pub open spec fn text_array_view(v: Seq<Seq<char>>) -> JsonView {
    JsonView::Array(v.map_values(|t: Seq<char>| JsonView::Text(t)))
}

/// The manifest as a JSON object, keys in ascending order; it has a SQLite
/// backup when it lists a database.
pub open spec fn manifest_view(m: BackupManifest) -> JsonView {
    JsonView::Object(
        seq![
            ("createdAt"@, JsonView::Text(m.created_at@)),
            ("hasGlobalStateBackup"@, JsonView::Bool(m.has_global_state_backup)),
            ("hasSessionIndexBackup"@, JsonView::Bool(m.has_session_index_backup)),
            ("hasSqliteBackup"@, JsonView::Bool(m.sqlite_files.len() > 0)),
            ("instanceId"@, JsonView::Text(m.instance_id@)),
            ("instanceRoot"@, JsonView::Text(m.instance_root@)),
            ("rolloutFiles"@, text_array_view(views(m.rollout_files@))),
            ("sqliteFiles"@, text_array_view(views(m.sqlite_files@))),
            ("targetProvider"@, JsonView::Text(m.target_provider@)),
        ],
    )
}

fn text_array(v: &Vec<String>) -> (r: JsonValue)
    ensures
        json_view(r) == text_array_view(views(v@)),
{
    let mut items: Vec<JsonValue> = Vec::new();
    let mut i: usize = 0;
    while i < v.len()
        invariant
            i <= v.len(),
            items.len() == i,
            forall|j: int| 0 <= j < i ==> #[trigger] json_view(items@[j]) == JsonView::Text(v@[j]@),
        decreases v.len() - i,
    {
        items.push(JsonValue::Text(v[i].clone()));
        i = i + 1;
    }
    proof {
        lemma_items_view(items@);
        assert(items_view(items@) =~= views(v@).map_values(|t: Seq<char>| JsonView::Text(t)));
    }
    JsonValue::Array(items)
}

/// The manifest of a backup as a JSON object (see `manifest_view`).
pub fn backup_manifest_json(m: &BackupManifest) -> (r: JsonValue)
    ensures
        json_view(r) == manifest_view(*m),
{
    let mut members: Vec<(String, JsonValue)> = Vec::new();
    members.push(("createdAt".to_string(), JsonValue::Text(m.created_at.clone())));
    members.push(("hasGlobalStateBackup".to_string(), JsonValue::Bool(m.has_global_state_backup)));
    members.push(("hasSessionIndexBackup".to_string(), JsonValue::Bool(m.has_session_index_backup)));
    members.push(("hasSqliteBackup".to_string(), JsonValue::Bool(m.sqlite_files.len() > 0)));
    members.push(("instanceId".to_string(), JsonValue::Text(m.instance_id.clone())));
    members.push(("instanceRoot".to_string(), JsonValue::Text(m.instance_root.clone())));
    members.push(("rolloutFiles".to_string(), text_array(&m.rollout_files)));
    members.push(("sqliteFiles".to_string(), text_array(&m.sqlite_files)));
    members.push(("targetProvider".to_string(), JsonValue::Text(m.target_provider.clone())));
    proof {
        lemma_members_view(members@);
        assert(members_view(members@) =~= manifest_view(*m)->Object_0);
    }
    JsonValue::Object(members)
}

} // verus!
