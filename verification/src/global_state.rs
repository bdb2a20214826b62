//! The global state of the desktop app (`.codex-global-state.json`): the
//! workspace paths it keeps are put into desktop form, and the entries that
//! change are counted and written back. Objects are kept with their keys in
//! ascending order, as serde_json keeps them.
use vstd::prelude::*;
use crate::json::{
    items_view, json_duplicate, json_equal, json_view, lemma_items_view, lemma_members_view,
    members_view, JsonValue, JsonView,
};
use crate::order::{
    lemma_lex_asymmetric, lemma_lex_irreflexive, lemma_lex_total, lemma_lex_transitive, lex_lt,
    string_lt, strictly_sorted,
};
use crate::text::{trim, trim_str};
use crate::workspace_path::{
    desktop_workspace_path, normalized_paths, normalized_workspace_paths, to_desktop_workspace_path,
    views,
};

verus! {

/// The keys of object members.
pub open spec fn member_keys(mv: Seq<(Seq<char>, JsonView)>) -> Seq<Seq<char>> {
    mv.map_values(|m: (Seq<char>, JsonView)| m.0)
}

/// The members' keys are in strictly ascending order.
pub open spec fn keys_sorted(mv: Seq<(Seq<char>, JsonView)>) -> bool {
    strictly_sorted(member_keys(mv))
}

/// Object members as a map from key to value (a later member wins).
pub open spec fn members_map(mv: Seq<(Seq<char>, JsonView)>) -> Map<Seq<char>, JsonView>
    decreases mv.len(),
{
    if mv.len() == 0 {
        Map::empty()
    } else {
        members_map(mv.drop_last()).insert(mv.last().0, mv.last().1)
    }
}

proof fn lemma_members_map_index(mv: Seq<(Seq<char>, JsonView)>)
    requires
        member_keys(mv).no_duplicates(),
    ensures
        forall|k: Seq<char>| #[trigger] members_map(mv).contains_key(k) <==> member_keys(mv).contains(k),
        forall|i: int| 0 <= i < mv.len() ==> members_map(mv)[(#[trigger] mv[i]).0] == mv[i].1,
    decreases mv.len(),
{
    if mv.len() > 0 {
        let p = mv.drop_last();
        assert(member_keys(p) =~= member_keys(mv).drop_last());
        lemma_members_map_index(p);
        assert(member_keys(mv) =~= member_keys(p).push(mv.last().0));
        assert forall|k: Seq<char>| #[trigger] members_map(mv).contains_key(k) <==> member_keys(
            mv,
        ).contains(k) by {
            assert(members_map(p).contains_key(k) <==> member_keys(p).contains(k));
            crate::providers::lemma_push_contains(member_keys(p), mv.last().0, k);
        }
        assert forall|i: int| 0 <= i < mv.len() implies members_map(mv)[(#[trigger] mv[i]).0]
            == mv[i].1 by {
            if i < mv.len() - 1 {
                assert(mv[i] == p[i]);
                assert(member_keys(mv)[i] != member_keys(mv)[mv.len() - 1]);
            }
        }
    }
}

proof fn lemma_sorted_no_dup_keys(mv: Seq<(Seq<char>, JsonView)>)
    requires
        keys_sorted(mv),
    ensures
        member_keys(mv).no_duplicates(),
{
    crate::order::lemma_sorted_no_duplicates(member_keys(mv));
}

/// Two member lists with distinct keys describe the same map when they agree
/// on keys and on each key's value.
proof fn lemma_members_map_ext(a: Seq<(Seq<char>, JsonView)>, m: Map<Seq<char>, JsonView>)
    requires
        member_keys(a).no_duplicates(),
        forall|k: Seq<char>| member_keys(a).contains(k) <==> m.contains_key(k),
        forall|i: int| 0 <= i < a.len() ==> m[(#[trigger] a[i]).0] == a[i].1,
    ensures
        members_map(a) == m,
{
    lemma_members_map_index(a);
    assert forall|k: Seq<char>| #[trigger] members_map(a).contains_key(k) implies members_map(a)[k]
        == m[k] by {
        assert(member_keys(a).contains(k));
        let i = choose|i: int| 0 <= i < member_keys(a).len() && member_keys(a)[i] == k;
        assert(a[i].0 == k);
    }
    assert(members_map(a) =~= m);
}

/// Sets the member `key` of an object whose keys are in ascending order,
/// keeping them so: in place when the key is there, at its place otherwise.
pub fn insert_sorted_member(members: &mut Vec<(String, JsonValue)>, key: String, value: JsonValue)
    requires
        keys_sorted(members_view(old(members)@)),
    ensures
        keys_sorted(members_view(final(members)@)),
        members_map(members_view(final(members)@)) == members_map(members_view(old(members)@)).insert(
            key@,
            json_view(value),
        ),
{
    let ghost old_mv = members_view(members@);
    proof {
        lemma_members_view(members@);
    }
    let mut p: usize = 0;
    while p < members.len() && string_lt(&members[p].0, &key)
        invariant
            p <= members.len(),
            old_mv == members_view(members@),
            old_mv.len() == members.len(),
            forall|i: int| 0 <= i < members.len() ==> #[trigger] old_mv[i] == (
                members@[i].0@,
                json_view(members@[i].1),
            ),
            forall|k: int| 0 <= k < p ==> lex_lt(#[trigger] old_mv[k].0, key@),
        decreases members.len() - p,
    {
        p = p + 1;
    }
    let ghost vv = json_view(value);
    let replace = p < members.len() && members[p].0 == key;
    if replace {
        members.remove(p);
        members.insert(p, (key, value));
    } else {
        members.insert(p, (key, value));
    }
    proof {
        let new_mv = members_view(members@);
        lemma_members_view(members@);
        lemma_sorted_no_dup_keys(old_mv);
        let ok = member_keys(old_mv);
        if p < old_mv.len() && !replace {
            lemma_lex_total(ok[p as int], key@);
        }
        // every key after p is above the inserted key
        assert forall|k: int| p <= k < old_mv.len() && !(replace && k == p) implies lex_lt(
            key@,
            #[trigger] ok[k],
        ) by {
            if k == p {
                lemma_lex_total(ok[p as int], key@);
            } else {
                if replace {
                    assert(lex_lt(ok[p as int], ok[k]));
                } else {
                    lemma_lex_total(ok[p as int], key@);
                    assert(lex_lt(ok[p as int], ok[k]));
                    lemma_lex_transitive(key@, ok[p as int], ok[k]);
                }
            }
        }
        if replace {
            assert(new_mv =~= old_mv.update(p as int, (key@, vv)));
        } else {
            assert(new_mv =~= old_mv.insert(p as int, (key@, vv)));
        }
        let nk = member_keys(new_mv);
        assert forall|i: int, j: int| 0 <= i < j < nk.len() implies lex_lt(
            #[trigger] nk[i],
            #[trigger] nk[j],
        ) by {
            if replace {
                if i == p {
                    assert(lex_lt(key@, ok[j]));
                } else if j == p {
                    assert(lex_lt(ok[i], key@));
                } else {
                    assert(lex_lt(ok[i], ok[j]));
                }
            } else {
                if j < p {
                    assert(lex_lt(ok[i], ok[j]));
                } else if j == p {
                    assert(lex_lt(ok[i], key@));
                } else if i < p {
                    assert(lex_lt(ok[i], key@));
                    assert(lex_lt(key@, ok[j - 1]));
                    lemma_lex_transitive(ok[i], key@, ok[j - 1]);
                } else if i == p {
                    assert(lex_lt(key@, ok[j - 1]));
                } else {
                    assert(lex_lt(ok[i - 1], ok[j - 1]));
                }
            }
        }
        lemma_sorted_no_dup_keys(new_mv);
        lemma_members_map_index(old_mv);
        let target = members_map(old_mv).insert(key@, vv);
        assert forall|k: Seq<char>| member_keys(new_mv).contains(k) <==> target.contains_key(k) by {
            assert(members_map(old_mv).contains_key(k) <==> ok.contains(k));
            if member_keys(new_mv).contains(k) {
                let i = choose|i: int| 0 <= i < nk.len() && nk[i] == k;
                if replace {
                    if i != p {
                        assert(ok[i] == k);
                    }
                } else {
                    if i < p {
                        assert(ok[i] == k);
                    } else if i > p {
                        assert(ok[i - 1] == k);
                    }
                }
            }
            if ok.contains(k) {
                let i = choose|i: int| 0 <= i < ok.len() && ok[i] == k;
                if replace {
                    assert(nk[i] == k || i == p);
                    if i == p {
                        assert(nk[p as int] == key@);
                    }
                } else {
                    if i < p {
                        assert(nk[i] == k);
                    } else {
                        assert(nk[i + 1] == k);
                    }
                }
            }
            if k == key@ {
                assert(nk[p as int] == key@);
            }
        }
        assert forall|i: int| 0 <= i < new_mv.len() implies target[(#[trigger] new_mv[i]).0]
            == new_mv[i].1 by {
            if replace {
                if i != p {
                    assert(new_mv[i] == old_mv[i]);
                    assert(old_mv[i].0 != key@) by {
                        assert(ok[i] != ok[p as int]);
                    }
                }
            } else {
                if i < p {
                    assert(new_mv[i] == old_mv[i]);
                    assert(lex_lt(ok[i], key@));
                    lemma_lex_irreflexive(key@);
                } else if i > p {
                    assert(new_mv[i] == old_mv[i - 1]);
                    assert(lex_lt(key@, ok[i - 1]));
                    lemma_lex_irreflexive(key@);
                }
            }
        }
        lemma_members_map_ext(new_mv, target);
    }
}


/// The key under which a member is filed again: its desktop workspace form,
/// or itself when it is blank.
pub open spec fn remap_key(k: Seq<char>) -> Seq<char> {
    match desktop_workspace_path(k) {
        Some(n) => n,
        None => k,
    }
}

/// Object members filed again under `remap_key` of their keys, in order (a
/// later member wins).
pub open spec fn remapped_map(mv: Seq<(Seq<char>, JsonView)>) -> Map<Seq<char>, JsonView>
    decreases mv.len(),
{
    if mv.len() == 0 {
        Map::empty()
    } else {
        remapped_map(mv.drop_last()).insert(remap_key(mv.last().0), mv.last().1)
    }
}

/// The members of a map with their keys in ascending order.
pub open spec fn sorted_members(m: Map<Seq<char>, JsonView>) -> Seq<(Seq<char>, JsonView)> {
    choose|s: Seq<(Seq<char>, JsonView)>| keys_sorted(s) && members_map(s) == m
}

/// The object holding the members of `m`, keys in ascending order.
pub open spec fn object_of(m: Map<Seq<char>, JsonView>) -> JsonView {
    JsonView::Object(sorted_members(m))
}

/// Member lists with ascending keys are determined by the map they describe.
pub proof fn lemma_sorted_members_unique(s: Seq<(Seq<char>, JsonView)>)
    requires
        keys_sorted(s),
    ensures
        sorted_members(members_map(s)) == s,
{
    let m = members_map(s);
    let t = sorted_members(m);
    assert(keys_sorted(t) && members_map(t) == m);
    lemma_sorted_no_dup_keys(s);
    lemma_sorted_no_dup_keys(t);
    lemma_members_map_index(s);
    lemma_members_map_index(t);
    let ks = member_keys(s);
    let kt = member_keys(t);
    assert(ks.to_set() =~= kt.to_set()) by {
        assert forall|k: Seq<char>| ks.to_set().contains(k) <==> kt.to_set().contains(k) by {
            assert(ks.to_set().contains(k) == ks.contains(k));
            assert(kt.to_set().contains(k) == kt.contains(k));
            assert(m.contains_key(k) <==> ks.contains(k));
            assert(m.contains_key(k) <==> kt.contains(k));
        }
    }
    crate::order::lemma_sorted_unique(ks, kt);
    assert forall|i: int| 0 <= i < s.len() implies #[trigger] s[i] == t[i] by {
        assert(ks[i] == kt[i]);
        assert(m[s[i].0] == s[i].1);
        assert(m[t[i].0] == t[i].1);
    }
    assert(s =~= t);
}

/// The map of a member list is found at the last member with a given key.
proof fn lemma_members_map_last(mv: Seq<(Seq<char>, JsonView)>, key: Seq<char>, i: int)
    requires
        0 <= i < mv.len(),
        mv[i].0 == key,
        forall|j: int| i < j < mv.len() ==> (#[trigger] mv[j]).0 != key,
    ensures
        members_map(mv).contains_key(key),
        members_map(mv)[key] == mv[i].1,
    decreases mv.len(),
{
    if i < mv.len() - 1 {
        let p = mv.drop_last();
        assert forall|j: int| i < j < p.len() implies (#[trigger] p[j]).0 != key by {
            assert(p[j] == mv[j]);
        }
        lemma_members_map_last(p, key, i);
        assert(mv[mv.len() - 1].0 != key);
    }
}

/// A key that no member has is not in the map.
proof fn lemma_members_map_absent(mv: Seq<(Seq<char>, JsonView)>, key: Seq<char>)
    requires
        forall|j: int| 0 <= j < mv.len() ==> (#[trigger] mv[j]).0 != key,
    ensures
        !members_map(mv).contains_key(key),
    decreases mv.len(),
{
    if mv.len() > 0 {
        let p = mv.drop_last();
        assert forall|j: int| 0 <= j < p.len() implies (#[trigger] p[j]).0 != key by {
            assert(p[j] == mv[j]);
        }
        lemma_members_map_absent(p, key);
        assert(mv[mv.len() - 1].0 != key);
    }
}

/// The member `key` of an object, as a later member overrides an earlier one.
pub fn member_lookup<'a>(members: &'a Vec<(String, JsonValue)>, key: &str) -> (r: Option<
    &'a JsonValue,
>)
    ensures
        match r {
            Some(v) => members_map(members_view(members@)).contains_key(key@) && json_view(*v)
                == members_map(members_view(members@))[key@],
            None => !members_map(members_view(members@)).contains_key(key@),
        },
{
    let ghost mv = members_view(members@);
    proof {
        lemma_members_view(members@);
    }
    let k = key.to_string();
    let mut i: usize = members.len();
    while i > 0
        invariant
            i <= members.len(),
            k@ == key@,
            mv == members_view(members@),
            mv.len() == members.len(),
            forall|j: int| 0 <= j < members.len() ==> #[trigger] mv[j] == (
                members@[j].0@,
                json_view(members@[j].1),
            ),
            forall|j: int| i <= j < members.len() ==> (#[trigger] mv[j]).0 != key@,
        decreases i,
    {
        if members[i - 1].0 == k {
            proof {
                lemma_members_map_last(mv, key@, i - 1);
            }
            return Some(&members[i - 1].1);
        }
        i = i - 1;
    }
    proof {
        lemma_members_map_absent(mv, key@);
    }
    None
}

/// A copy of an object's members with their keys in ascending order (a later
/// member wins over an earlier one with the same key).
pub fn sorted_copy(members: &Vec<(String, JsonValue)>) -> (r: Vec<(String, JsonValue)>)
    ensures
        keys_sorted(members_view(r@)),
        members_map(members_view(r@)) == members_map(members_view(members@)),
{
    let ghost mv = members_view(members@);
    proof {
        lemma_members_view(members@);
    }
    let mut out: Vec<(String, JsonValue)> = Vec::new();
    let mut i: usize = 0;
    while i < members.len()
        invariant
            i <= members.len(),
            mv == members_view(members@),
            mv.len() == members.len(),
            forall|j: int| 0 <= j < members.len() ==> #[trigger] mv[j] == (
                members@[j].0@,
                json_view(members@[j].1),
            ),
            keys_sorted(members_view(out@)),
            members_map(members_view(out@)) == members_map(mv.subrange(0, i as int)),
        decreases members.len() - i,
    {
        let v = json_duplicate(&members[i].1);
        insert_sorted_member(&mut out, members[i].0.clone(), v);
        proof {
            assert(mv.subrange(0, i + 1).drop_last() =~= mv.subrange(0, i as int));
            assert(mv.subrange(0, i + 1).last() == mv[i as int]);
        }
        i = i + 1;
    }
    proof {
        assert(mv.subrange(0, members.len() as int) =~= mv);
    }
    out
}

/// An object's members filed again under the desktop form of their keys (a
/// blank key stays as it is), keys in ascending order.
pub fn remap_workspace_keys(members: &Vec<(String, JsonValue)>) -> (r: Vec<(String, JsonValue)>)
    ensures
        keys_sorted(members_view(r@)),
        members_map(members_view(r@)) == remapped_map(members_view(members@)),
{
    let ghost mv = members_view(members@);
    proof {
        lemma_members_view(members@);
    }
    let mut out: Vec<(String, JsonValue)> = Vec::new();
    let mut i: usize = 0;
    while i < members.len()
        invariant
            i <= members.len(),
            mv == members_view(members@),
            mv.len() == members.len(),
            forall|j: int| 0 <= j < members.len() ==> #[trigger] mv[j] == (
                members@[j].0@,
                json_view(members@[j].1),
            ),
            keys_sorted(members_view(out@)),
            members_map(members_view(out@)) == remapped_map(mv.subrange(0, i as int)),
        decreases members.len() - i,
    {
        let key = match to_desktop_workspace_path(members[i].0.as_str()) {
            Some(n) => n,
            None => members[i].0.clone(),
        };
        let v = json_duplicate(&members[i].1);
        insert_sorted_member(&mut out, key, v);
        proof {
            assert(mv.subrange(0, i + 1).drop_last() =~= mv.subrange(0, i as int));
            assert(mv.subrange(0, i + 1).last() == mv[i as int]);
        }
        i = i + 1;
    }
    proof {
        assert(mv.subrange(0, members.len() as int) =~= mv);
    }
    out
}


/// The texts among array items, in order.
pub open spec fn text_items(items: Seq<JsonView>) -> Seq<Seq<char>>
    decreases items.len(),
{
    if items.len() == 0 {
        seq![]
    } else {
        let rest = text_items(items.drop_last());
        match items.last() {
            JsonView::Text(t) => rest.push(t),
            _ => rest,
        }
    }
}

/// The strings a workspace-path entry holds: the string items of an array,
/// or a single string.
pub open spec fn string_values(v: JsonView) -> Seq<Seq<char>> {
    match v {
        JsonView::Array(items) => text_items(items),
        JsonView::Text(t) => seq![t],
        _ => seq![],
    }
}

/// A list of paths as an array of strings.
pub open spec fn text_array(paths: Seq<Seq<char>>) -> JsonView {
    JsonView::Array(paths.map_values(|p: Seq<char>| JsonView::Text(p)))
}

/// The normalised value of a workspace-path entry: the array of its distinct
/// desktop paths. An entry that may hold a single path (`scalar_kept`) and is
/// not an array becomes its first path, or stays as it is when it has none.
pub open spec fn path_list_value(scalar_kept: bool, v: JsonView) -> JsonView {
    let paths = normalized_paths(string_values(v));
    if scalar_kept && !(v is Array) {
        if paths.len() > 0 {
            JsonView::Text(paths[0])
        } else {
            v
        }
    } else {
        text_array(paths)
    }
}

/// The strings held by a workspace-path entry (see `string_values`).
fn string_values_of(v: &JsonValue) -> (r: Vec<String>)
    ensures
        views(r@) == string_values(json_view(*v)),
{
    match v {
        JsonValue::Array(items) => {
            let ghost iv = items_view(items@);
            proof {
                lemma_items_view(items@);
            }
            let mut out: Vec<String> = Vec::new();
            let mut i: usize = 0;
            while i < items.len()
                invariant
                    i <= items.len(),
                    *v == JsonValue::Array(*items),
                    iv == items_view(items@),
                    iv.len() == items.len(),
                    forall|j: int| 0 <= j < items.len() ==> #[trigger] iv[j] == json_view(items@[j]),
                    views(out@) == text_items(iv.subrange(0, i as int)),
                decreases items.len() - i,
            {
                proof {
                    assert(iv.subrange(0, i + 1).drop_last() =~= iv.subrange(0, i as int));
                    assert(iv.subrange(0, i + 1).last() == iv[i as int]);
                }
                match &items[i] {
                    JsonValue::Text(t) => {
                        out.push(t.clone());
                        proof {
                            assert(views(out@) =~= views(out@.drop_last()).push(t@));
                        }
                    },
                    _ => {},
                }
                i = i + 1;
            }
            proof {
                assert(iv.subrange(0, items.len() as int) =~= iv);
            }
            out
        },
        JsonValue::Text(t) => {
            let mut out: Vec<String> = Vec::new();
            out.push(t.clone());
            proof {
                assert(views(out@) =~= seq![t@]);
            }
            out
        },
        _ => {
            let out: Vec<String> = Vec::new();
            proof {
                assert(views(out@) =~= seq![]);
            }
            out
        },
    }
}

/// An array of the given strings.
fn text_array_of(paths: &Vec<String>) -> (r: JsonValue)
    ensures
        json_view(r) == text_array(views(paths@)),
{
    let mut items: Vec<JsonValue> = Vec::new();
    let mut i: usize = 0;
    while i < paths.len()
        invariant
            i <= paths.len(),
            items.len() == i,
            forall|j: int| 0 <= j < i ==> #[trigger] json_view(items@[j]) == JsonView::Text(
                paths@[j]@,
            ),
        decreases paths.len() - i,
    {
        items.push(JsonValue::Text(paths[i].clone()));
        i = i + 1;
    }
    proof {
        lemma_items_view(items@);
        assert(items_view(items@) =~= views(paths@).map_values(|p: Seq<char>| JsonView::Text(p)));
    }
    JsonValue::Array(items)
}

/// The normalised value of a workspace-path entry (see `path_list_value`).
pub fn path_list_entry(v: &JsonValue, scalar_kept: bool) -> (r: JsonValue)
    ensures
        json_view(r) == path_list_value(scalar_kept, json_view(*v)),
{
    let values = string_values_of(v);
    let paths = normalized_workspace_paths(&values);
    let is_array = match v {
        JsonValue::Array(_) => true,
        _ => false,
    };
    if scalar_kept && !is_array {
        if paths.len() > 0 {
            proof {
                assert(views(paths@)[0] == paths@[0]@);
            }
            JsonValue::Text(paths[0].clone())
        } else {
            json_duplicate(v)
        }
    } else {
        text_array_of(&paths)
    }
}


/// The entry listing the workspace roots the desktop app has saved.
pub open spec fn saved_roots_key() -> Seq<char> {
    "electron-saved-workspace-roots"@
}

/// The entry ordering the projects.
pub open spec fn project_order_key() -> Seq<char> {
    "project-order"@
}

/// The entry naming the active workspace root(s).
pub open spec fn active_roots_key() -> Seq<char> {
    "active-workspace-roots"@
}

/// The entry mapping workspace roots to their labels.
pub open spec fn root_labels_key() -> Seq<char> {
    "electron-workspace-root-labels"@
}

/// The entry holding the open-in-target preferences.
pub open spec fn preferences_key() -> Seq<char> {
    "open-in-target-preferences"@
}

/// The preferences' member mapping workspace paths to a preference.
pub open spec fn per_path_key() -> Seq<char> {
    "perPath"@
}

/// `acc` with the workspace-path entry `key` of `state` normalised, when
/// `state` has it.
pub open spec fn with_path_entry(
    acc: Map<Seq<char>, JsonView>,
    state: Map<Seq<char>, JsonView>,
    key: Seq<char>,
    scalar_kept: bool,
) -> Map<Seq<char>, JsonView> {
    if state.contains_key(key) {
        acc.insert(key, path_list_value(scalar_kept, state[key]))
    } else {
        acc
    }
}

/// The normalised preferences object: its `perPath` object, when it has
/// one, filed under the desktop form of its paths.
pub open spec fn preferences_value(prefs: Seq<(Seq<char>, JsonView)>) -> JsonView {
    let pm = members_map(prefs);
    if pm.contains_key(per_path_key()) && pm[per_path_key()] is Object {
        object_of(pm.insert(per_path_key(), object_of(remapped_map(pm[per_path_key()]->Object_0))))
    } else {
        object_of(pm)
    }
}

/// The entries of the global state that hold workspace paths, normalised:
/// the saved roots, the project order and the active roots as path lists,
/// the root labels and the per-path preferences filed under desktop paths.
/// Entries that are missing (or, for the labels and preferences, are not
/// objects) are left out.
pub open spec fn normalized_entries(state: Seq<(Seq<char>, JsonView)>) -> Map<Seq<char>, JsonView> {
    let s = members_map(state);
    let m1 = with_path_entry(Map::empty(), s, saved_roots_key(), false);
    let m2 = with_path_entry(m1, s, project_order_key(), false);
    let m3 = with_path_entry(m2, s, active_roots_key(), true);
    let m4 = if s.contains_key(root_labels_key()) && s[root_labels_key()] is Object {
        m3.insert(root_labels_key(), object_of(remapped_map(s[root_labels_key()]->Object_0)))
    } else {
        m3
    };
    if s.contains_key(preferences_key()) && s[preferences_key()] is Object {
        m4.insert(preferences_key(), preferences_value(s[preferences_key()]->Object_0))
    } else {
        m4
    }
}

/// Adds the normalised workspace-path entry `key` of `state`, if present.
fn add_path_entry(
    out: &mut Vec<(String, JsonValue)>,
    state: &Vec<(String, JsonValue)>,
    key: &str,
    scalar_kept: bool,
)
    requires
        keys_sorted(members_view(old(out)@)),
    ensures
        keys_sorted(members_view(final(out)@)),
        members_map(members_view(final(out)@)) == with_path_entry(
            members_map(members_view(old(out)@)),
            members_map(members_view(state@)),
            key@,
            scalar_kept,
        ),
{
    match member_lookup(state, key) {
        Some(v) => {
            let next = path_list_entry(v, scalar_kept);
            insert_sorted_member(out, key.to_string(), next);
        },
        None => {},
    }
}

/// The normalised preferences object (see `preferences_value`).
fn preferences_entry(prefs: &Vec<(String, JsonValue)>) -> (r: JsonValue)
    ensures
        json_view(r) == preferences_value(members_view(prefs@)),
{
    let mut next = sorted_copy(prefs);
    let ghost pm = members_map(members_view(prefs@));
    match member_lookup(prefs, "perPath") {
        Some(JsonValue::Object(per_path)) => {
            let remapped = remap_workspace_keys(per_path);
            proof {
                lemma_sorted_members_unique(members_view(remapped@));
            }
            insert_sorted_member(&mut next, "perPath".to_string(), JsonValue::Object(remapped));
        },
        _ => {},
    }
    proof {
        lemma_sorted_members_unique(members_view(next@));
    }
    JsonValue::Object(next)
}

/// The normalised workspace-path entries of the desktop app's global state
/// (see `normalized_entries`), keys in ascending order.
pub fn normalized_global_state_entries(state: &Vec<(String, JsonValue)>) -> (r: Vec<
    (String, JsonValue),
>)
    ensures
        keys_sorted(members_view(r@)),
        members_map(members_view(r@)) == normalized_entries(members_view(state@)),
{
    let mut out: Vec<(String, JsonValue)> = Vec::new();
    proof {
        assert(members_view(out@) =~= seq![]);
        assert(members_map(members_view(out@)) =~= Map::empty());
    }
    add_path_entry(&mut out, state, "electron-saved-workspace-roots", false);
    add_path_entry(&mut out, state, "project-order", false);
    add_path_entry(&mut out, state, "active-workspace-roots", true);
    match member_lookup(state, "electron-workspace-root-labels") {
        Some(JsonValue::Object(labels)) => {
            let next = remap_workspace_keys(labels);
            proof {
                lemma_sorted_members_unique(members_view(next@));
            }
            insert_sorted_member(
                &mut out,
                "electron-workspace-root-labels".to_string(),
                JsonValue::Object(next),
            );
        },
        _ => {},
    }
    match member_lookup(state, "open-in-target-preferences") {
        Some(JsonValue::Object(prefs)) => {
            let next = preferences_entry(prefs);
            insert_sorted_member(&mut out, "open-in-target-preferences".to_string(), next);
        },
        _ => {},
    }
    out
}


/// A normalised entry differs from what the state holds under its key.
pub open spec fn entry_changed(state: Map<Seq<char>, JsonView>, key: Seq<char>, v: JsonView) -> bool {
    !(state.contains_key(key) && state[key] == v)
}

/// How many of the entries `entries` differ from what `state` holds.
pub open spec fn changed_count(
    state: Map<Seq<char>, JsonView>,
    entries: Seq<(Seq<char>, JsonView)>,
) -> nat
    decreases entries.len(),
{
    if entries.len() == 0 {
        0
    } else {
        changed_count(state, entries.drop_last()) + if entry_changed(
            state,
            entries.last().0,
            entries.last().1,
        ) {
            1nat
        } else {
            0nat
        }
    }
}

proof fn lemma_changed_count_bound(
    state: Map<Seq<char>, JsonView>,
    entries: Seq<(Seq<char>, JsonView)>,
)
    ensures
        changed_count(state, entries) <= entries.len(),
    decreases entries.len(),
{
    if entries.len() > 0 {
        lemma_changed_count_bound(state, entries.drop_last());
    }
}

/// How many of the entries `entries` differ from the member of `state` under
/// the same key (see `changed_count`).
pub fn count_changed_entries(
    state: &Vec<(String, JsonValue)>,
    entries: &Vec<(String, JsonValue)>,
) -> (n: usize)
    ensures
        n == changed_count(members_map(members_view(state@)), members_view(entries@)),
{
    let ghost sm = members_map(members_view(state@));
    let ghost ev = members_view(entries@);
    proof {
        lemma_members_view(entries@);
    }
    let mut n: usize = 0;
    let mut i: usize = 0;
    while i < entries.len()
        invariant
            i <= entries.len(),
            sm == members_map(members_view(state@)),
            ev == members_view(entries@),
            ev.len() == entries.len(),
            forall|j: int| 0 <= j < entries.len() ==> #[trigger] ev[j] == (
                entries@[j].0@,
                json_view(entries@[j].1),
            ),
            n == changed_count(sm, ev.subrange(0, i as int)),
            n <= i,
        decreases entries.len() - i,
    {
        proof {
            assert(ev.subrange(0, i + 1).drop_last() =~= ev.subrange(0, i as int));
            assert(ev.subrange(0, i + 1).last() == ev[i as int]);
        }
        let same = match member_lookup(state, entries[i].0.as_str()) {
            Some(v) => json_equal(v, &entries[i].1),
            None => false,
        };
        if !same {
            n = n + 1;
        }
        i = i + 1;
    }
    proof {
        assert(ev.subrange(0, entries.len() as int) =~= ev);
    }
    n
}

/// The members of `state` with the members of `entries` set over them, keys
/// in ascending order.
pub fn merged_members(state: &Vec<(String, JsonValue)>, entries: &Vec<(String, JsonValue)>) -> (r: Vec<
    (String, JsonValue),
>)
    ensures
        keys_sorted(members_view(r@)),
        members_map(members_view(r@)) == members_map(members_view(state@)).union_prefer_right(
            members_map(members_view(entries@)),
        ),
{
    let ghost sm = members_map(members_view(state@));
    let ghost ev = members_view(entries@);
    proof {
        lemma_members_view(entries@);
    }
    let mut out = sorted_copy(state);
    proof {
        assert(members_map(ev.subrange(0, 0)) =~= Map::empty());
        assert(sm.union_prefer_right(Map::empty()) =~= sm);
    }
    let mut i: usize = 0;
    while i < entries.len()
        invariant
            i <= entries.len(),
            sm == members_map(members_view(state@)),
            ev == members_view(entries@),
            ev.len() == entries.len(),
            forall|j: int| 0 <= j < entries.len() ==> #[trigger] ev[j] == (
                entries@[j].0@,
                json_view(entries@[j].1),
            ),
            keys_sorted(members_view(out@)),
            members_map(members_view(out@)) == sm.union_prefer_right(
                members_map(ev.subrange(0, i as int)),
            ),
        decreases entries.len() - i,
    {
        let v = json_duplicate(&entries[i].1);
        insert_sorted_member(&mut out, entries[i].0.clone(), v);
        proof {
            let a = ev.subrange(0, i as int);
            let b = ev.subrange(0, i + 1);
            assert(b.drop_last() =~= a);
            assert(b.last() == ev[i as int]);
            assert(sm.union_prefer_right(members_map(a)).insert(ev[i as int].0, ev[i as int].1)
                =~= sm.union_prefer_right(members_map(b)));
        }
        i = i + 1;
    }
    proof {
        assert(ev.subrange(0, entries.len() as int) =~= ev);
    }
    out
}

/// What normalising the global state comes to: how many entries change, and
/// the state to write back when there is one to write.
pub struct GlobalStateNormalization {
    pub changed: usize,
    pub rewritten: Option<Vec<(String, JsonValue)>>,
}

/// Normalises the workspace paths of the desktop app's global state: counts
/// the normalised entries that differ from the state, and, when some do and
/// this is no dry run, gives the state with them set (keys in ascending
/// order) to be written back.
pub fn normalize_global_state(state: &Vec<(String, JsonValue)>, dry_run: bool) -> (r:
    GlobalStateNormalization)
    ensures
        r.changed == changed_count(
            members_map(members_view(state@)),
            sorted_members(normalized_entries(members_view(state@))),
        ),
        (r.rewritten is Some) == (r.changed > 0 && !dry_run),
        match r.rewritten {
            Some(w) => keys_sorted(members_view(w@)) && members_map(members_view(w@)) == members_map(
                members_view(state@),
            ).union_prefer_right(normalized_entries(members_view(state@))),
            None => true,
        },
{
    let entries = normalized_global_state_entries(state);
    proof {
        lemma_sorted_members_unique(members_view(entries@));
    }
    let changed = count_changed_entries(state, &entries);
    if changed == 0 || dry_run {
        return GlobalStateNormalization { changed, rewritten: None };
    }
    let merged = merged_members(state, &entries);
    GlobalStateNormalization { changed, rewritten: Some(merged) }
}

fn is_array(v: &JsonValue) -> (b: bool)
    ensures
        b == (json_view(*v) is Array),
{
    match v {
        JsonValue::Array(_) => true,
        _ => false,
    }
}

/// The threads that the global state keeps without a project: the trimmed,
/// non-blank strings of its `projectless-thread-ids` array.
pub open spec fn projectless_ids(state: Seq<(Seq<char>, JsonView)>) -> Seq<Seq<char>> {
    let s = members_map(state);
    let key = "projectless-thread-ids"@;
    if s.contains_key(key) && s[key] is Array {
        text_items(s[key]->Array_0).map_values(|t: Seq<char>| trim(t)).filter(
            |t: Seq<char>| t.len() > 0,
        )
    } else {
        seq![]
    }
}

/// The threads the global state keeps without a project (see
/// `projectless_ids`).
pub fn load_projectless_thread_ids(state: &Vec<(String, JsonValue)>) -> (r: Vec<String>)
    ensures
        views(r@) == projectless_ids(members_view(state@)),
{
    let mut out: Vec<String> = Vec::new();
    match member_lookup(state, "projectless-thread-ids") {
        Some(v) if is_array(v) => {
            let texts = string_values_of(v);
            let ghost tv = views(texts@);
            let ghost trimmed = tv.map_values(|t: Seq<char>| trim(t));
            let mut i: usize = 0;
            while i < texts.len()
                invariant
                    i <= texts.len(),
                    tv == views(texts@),
                    trimmed == tv.map_values(|t: Seq<char>| trim(t)),
                    views(out@) == trimmed.subrange(0, i as int).filter(
                        |t: Seq<char>| t.len() > 0,
                    ),
                decreases texts.len() - i,
            {
                let t = trim_str(texts[i].as_str());
                proof {
                    assert(trimmed.subrange(0, i + 1).drop_last() =~= trimmed.subrange(0, i as int));
                    assert(trimmed.subrange(0, i + 1).last() == trim(texts@[i as int]@));
                    reveal(Seq::filter);
                }
                if !t.as_str().is_empty() {
                    out.push(t);
                    proof {
                        assert(views(out@) =~= views(out@.drop_last()).push(out@.last()@));
                    }
                }
                i = i + 1;
            }
            proof {
                assert(trimmed.subrange(0, texts.len() as int) =~= trimmed);
            }
        },
        _ => {
            proof {
                assert(views(out@) =~= seq![]);
            }
        },
    }
    out
}

} // verus!
