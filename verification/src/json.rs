//! JSON values as the repair reads and edits them (rollout records, session
//! index entries, the global state); the caller parses text into them and
//! writes them back out with serde_json.
use vstd::prelude::*;
use crate::text::{chars_eq, chars_of};

verus! {

/// A JSON value. Numbers keep their text and, when they are integers that fit
/// an `i64`, their value; objects keep their members in order, keys distinct.
#[derive(Debug)]
pub enum JsonValue {
    Null,
    Bool(bool),
    Number(Option<i64>, String),
    Text(String),
    Array(Vec<JsonValue>),
    Object(Vec<(String, JsonValue)>),
}

/// The value of the first member named `key`.
pub open spec fn member_value(members: Seq<(String, JsonValue)>, key: Seq<char>) -> Option<JsonValue>
    decreases members.len(),
{
    if members.len() == 0 {
        None
    } else if members[0].0@ == key {
        Some(members[0].1)
    } else {
        member_value(members.drop_first(), key)
    }
}

/// The member `key` of an object; `None` for a non-object or a missing key.
pub open spec fn json_get(v: JsonValue, key: Seq<char>) -> Option<JsonValue> {
    match v {
        JsonValue::Object(members) => member_value(members@, key),
        _ => None,
    }
}

/// The text of a string value.
pub open spec fn json_str(v: JsonValue) -> Option<Seq<char>> {
    match v {
        JsonValue::Text(s) => Some(s@),
        _ => None,
    }
}

/// The text of the string member `key` of an object.
pub open spec fn json_str_member(v: JsonValue, key: Seq<char>) -> Option<Seq<char>> {
    match json_get(v, key) {
        Some(m) => json_str(m),
        None => None,
    }
}

/// An object has a member named `key`.
pub open spec fn has_member(members: Seq<(String, JsonValue)>, key: Seq<char>) -> bool {
    exists|i: int| 0 <= i < members.len() && (#[trigger] members[i]).0@ == key
}

proof fn lemma_member_found(members: Seq<(String, JsonValue)>, key: Seq<char>)
    ensures
        member_value(members, key) is Some <==> has_member(members, key),
    decreases members.len(),
{
    if members.len() > 0 {
        lemma_member_found(members.drop_first(), key);
        if has_member(members, key) && members[0].0@ != key {
            let i = choose|i: int| 0 <= i < members.len() && (#[trigger] members[i]).0@ == key;
            assert(members.drop_first()[i - 1] == members[i]);
        }
        if has_member(members.drop_first(), key) {
            let i = choose|i: int|
                0 <= i < members.drop_first().len() && (#[trigger] members.drop_first()[i]).0@
                    == key;
            assert(members[i + 1] == members.drop_first()[i]);
        }
        if members[0].0@ == key {
            assert(has_member(members, key));
        }
    }
}

/// The member `key` of an object (see `json_get`).
pub fn get_member<'a>(v: &'a JsonValue, key: &str) -> (r: Option<&'a JsonValue>)
    ensures
        match r {
            Some(m) => json_get(*v, key@) == Some(*m),
            None => json_get(*v, key@) is None,
        },
{
    match v {
        JsonValue::Object(members) => {
            let k = chars_of(key);
            let mut i: usize = 0;
            proof {
                assert(members@.subrange(0, members.len() as int) =~= members@);
            }
            while i < members.len()
                invariant
                    i <= members.len(),
                    k@ == key@,
                    *v == JsonValue::Object(*members),
                    member_value(members@, key@) == member_value(
                        members@.subrange(i as int, members.len() as int),
                        key@,
                    ),
                decreases members.len() - i,
            {
                proof {
                    let rest = members@.subrange(i as int, members.len() as int);
                    assert(rest[0] == members@[i as int]);
                    assert(rest.drop_first() =~= members@.subrange(i + 1, members.len() as int));
                }
                if chars_eq(&chars_of(members[i].0.as_str()), &k) {
                    proof {
                        let rest = members@.subrange(i as int, members.len() as int);
                        assert(member_value(rest, key@) == Some(members@[i as int].1));
                    }
                    return Some(&members[i].1);
                }
                i = i + 1;
            }
            None
        },
        _ => None,
    }
}

/// The text of a string value.
pub fn as_text(v: &JsonValue) -> (r: Option<&String>)
    ensures
        match r {
            Some(s) => json_str(*v) == Some(s@),
            None => json_str(*v) is None,
        },
{
    match v {
        JsonValue::Text(s) => Some(s),
        _ => None,
    }
}

/// The text of the string member `key` of an object.
pub fn str_member(v: &JsonValue, key: &str) -> (r: Option<String>)
    ensures
        match r {
            Some(s) => json_str_member(*v, key@) == Some(s@),
            None => json_str_member(*v, key@) is None,
        },
{
    match get_member(v, key) {
        Some(m) => match as_text(m) {
            Some(s) => Some(s.clone()),
            None => None,
        },
        None => None,
    }
}

/// Whether an object has a member named `key`.
pub fn contains_member(members: &Vec<(String, JsonValue)>, key: &str) -> (b: bool)
    ensures
        b == has_member(members@, key@),
{
    let k = chars_of(key);
    let mut i: usize = 0;
    while i < members.len()
        invariant
            i <= members.len(),
            k@ == key@,
            forall|j: int| 0 <= j < i ==> (#[trigger] members@[j]).0@ != key@,
        decreases members.len() - i,
    {
        if chars_eq(&chars_of(members[i].0.as_str()), &k) {
            return true;
        }
        i = i + 1;
    }
    false
}

/// A JSON value taken by the views of its strings.
pub enum JsonView {
    Null,
    Bool(bool),
    Number(Option<i64>, Seq<char>),
    Text(Seq<char>),
    Array(Seq<JsonView>),
    Object(Seq<(Seq<char>, JsonView)>),
}

/// The view of a JSON value.
pub open spec fn json_view(v: JsonValue) -> JsonView
    decreases v,
{
    match v {
        JsonValue::Null => JsonView::Null,
        JsonValue::Bool(b) => JsonView::Bool(b),
        JsonValue::Number(n, t) => JsonView::Number(n, t@),
        JsonValue::Text(t) => JsonView::Text(t@),
        JsonValue::Array(items) => JsonView::Array(items_view(items@)),
        JsonValue::Object(members) => JsonView::Object(members_view(members@)),
    }
}

/// The views of array items.
pub open spec fn items_view(s: Seq<JsonValue>) -> Seq<JsonView>
    decreases s,
{
    if s.len() == 0 {
        seq![]
    } else {
        items_view(s.drop_last()).push(json_view(s.last()))
    }
}

/// The views of object members.
pub open spec fn members_view(s: Seq<(String, JsonValue)>) -> Seq<(Seq<char>, JsonView)>
    decreases s,
{
    if s.len() == 0 {
        seq![]
    } else {
        members_view(s.drop_last()).push((s.last().0@, json_view(s.last().1)))
    }
}

/// The views of items are those of each item.
pub proof fn lemma_items_view(s: Seq<JsonValue>)
    ensures
        items_view(s).len() == s.len(),
        forall|i: int| 0 <= i < s.len() ==> #[trigger] items_view(s)[i] == json_view(s[i]),
    decreases s.len(),
{
    if s.len() > 0 {
        lemma_items_view(s.drop_last());
    }
}

/// The views of members are those of each member.
pub proof fn lemma_members_view(s: Seq<(String, JsonValue)>)
    ensures
        members_view(s).len() == s.len(),
        forall|i: int|
            0 <= i < s.len() ==> #[trigger] members_view(s)[i] == (s[i].0@, json_view(s[i].1)),
    decreases s.len(),
{
    if s.len() > 0 {
        lemma_members_view(s.drop_last());
    }
}

/// A copy of a JSON value.
pub fn json_duplicate(v: &JsonValue) -> (r: JsonValue)
    ensures
        json_view(r) == json_view(*v),
    decreases v,
{
    match v {
        JsonValue::Null => JsonValue::Null,
        JsonValue::Bool(b) => JsonValue::Bool(*b),
        JsonValue::Number(n, t) => JsonValue::Number(*n, t.clone()),
        JsonValue::Text(t) => JsonValue::Text(t.clone()),
        JsonValue::Array(items) => {
            let mut out: Vec<JsonValue> = Vec::new();
            let mut i: usize = 0;
            while i < items.len()
                invariant
                    i <= items.len(),
                    *v == JsonValue::Array(*items),
                    items_view(out@) == items_view(items@.subrange(0, i as int)),
                decreases items.len() - i,
            {
                proof {
                    assert(decreases_to!(*v => (*v)->Array_0));
                    assert((*v)->Array_0 == *items);
                    assert(decreases_to!(*items => items@));
                    assert(decreases_to!(items@ => items@[i as int]));
                    assert(decreases_to!(*v => items@[i as int]));
                }
                let x = json_duplicate(&items[i]);
                let ghost before = out@;
                out.push(x);
                proof {
                    assert(out@.drop_last() == before);
                    assert(items@.subrange(0, i + 1).drop_last() =~= items@.subrange(0, i as int));
                }
                i = i + 1;
            }
            proof {
                assert(items@.subrange(0, items.len() as int) =~= items@);
            }
            JsonValue::Array(out)
        },
        JsonValue::Object(members) => {
            let mut out: Vec<(String, JsonValue)> = Vec::new();
            let mut i: usize = 0;
            while i < members.len()
                invariant
                    i <= members.len(),
                    *v == JsonValue::Object(*members),
                    members_view(out@) == members_view(members@.subrange(0, i as int)),
                decreases members.len() - i,
            {
                proof {
                    assert(decreases_to!(*v => (*v)->Object_0));
                    assert((*v)->Object_0 == *members);
                    assert(decreases_to!(*members => members@));
                    assert(decreases_to!(members@ => members@[i as int]));
                    assert(decreases_to!(members@[i as int] => members@[i as int].1));
                    assert(decreases_to!(*v => members@[i as int].1));
                }
                let x = json_duplicate(&members[i].1);
                let ghost before = out@;
                out.push((members[i].0.clone(), x));
                proof {
                    assert(out@.drop_last() == before);
                    assert(members@.subrange(0, i + 1).drop_last() =~= members@.subrange(
                        0,
                        i as int,
                    ));
                }
                i = i + 1;
            }
            proof {
                assert(members@.subrange(0, members.len() as int) =~= members@);
            }
            JsonValue::Object(out)
        },
    }
}

/// Whether two JSON values are equal (by their views).
pub fn json_equal(a: &JsonValue, b: &JsonValue) -> (r: bool)
    ensures
        r == (json_view(*a) == json_view(*b)),
    decreases a,
{
    match (a, b) {
        (JsonValue::Null, JsonValue::Null) => true,
        (JsonValue::Bool(x), JsonValue::Bool(y)) => *x == *y,
        (JsonValue::Number(m, x), JsonValue::Number(n, y)) => {
            let same_value = match (m, n) {
                (Some(a), Some(b)) => *a == *b,
                (None, None) => true,
                _ => false,
            };
            same_value && *x == *y
        },
        (JsonValue::Text(x), JsonValue::Text(y)) => *x == *y,
        (JsonValue::Array(x), JsonValue::Array(y)) => {
            proof {
                lemma_items_view(x@);
                lemma_items_view(y@);
            }
            if x.len() != y.len() {
                return false;
            }
            let mut i: usize = 0;
            while i < x.len()
                invariant
                    i <= x.len(),
                    x.len() == y.len(),
                    *a == JsonValue::Array(*x),
                    *b == JsonValue::Array(*y),
                    items_view(x@).len() == x.len(),
                    items_view(y@).len() == y.len(),
                    forall|k: int| 0 <= k < x.len() ==> #[trigger] items_view(x@)[k] == json_view(x@[k]),
                    forall|k: int| 0 <= k < y.len() ==> #[trigger] items_view(y@)[k] == json_view(y@[k]),
                    forall|k: int| 0 <= k < i ==> json_view(x@[k]) == json_view(y@[k]),
                decreases x.len() - i,
            {
                proof {
                    assert(decreases_to!(*a => x@[i as int]));
                }
                if !json_equal(&x[i], &y[i]) {
                    proof {
                        assert(items_view(x@)[i as int] != items_view(y@)[i as int]);
                    }
                    return false;
                }
                i = i + 1;
            }
            proof {
                assert(items_view(x@) =~= items_view(y@));
            }
            true
        },
        (JsonValue::Object(x), JsonValue::Object(y)) => {
            proof {
                lemma_members_view(x@);
                lemma_members_view(y@);
            }
            if x.len() != y.len() {
                return false;
            }
            let mut i: usize = 0;
            while i < x.len()
                invariant
                    i <= x.len(),
                    x.len() == y.len(),
                    *a == JsonValue::Object(*x),
                    *b == JsonValue::Object(*y),
                    members_view(x@).len() == x.len(),
                    members_view(y@).len() == y.len(),
                    forall|k: int|
                        0 <= k < x.len() ==> #[trigger] members_view(x@)[k] == (
                            x@[k].0@,
                            json_view(x@[k].1),
                        ),
                    forall|k: int|
                        0 <= k < y.len() ==> #[trigger] members_view(y@)[k] == (
                            y@[k].0@,
                            json_view(y@[k].1),
                        ),
                    forall|k: int| 0 <= k < i ==> members_view(x@)[k] == members_view(y@)[k],
                decreases x.len() - i,
            {
                proof {
                    assert(decreases_to!(*a => x@[i as int].1));
                }
                if x[i].0 != y[i].0 || !json_equal(&x[i].1, &y[i].1) {
                    proof {
                        assert(members_view(x@)[i as int] != members_view(y@)[i as int]);
                    }
                    return false;
                }
                proof {
                    assert(members_view(x@)[i as int] == members_view(y@)[i as int]);
                }
                i = i + 1;
            }
            proof {
                assert(members_view(x@) =~= members_view(y@));
            }
            true
        },
        _ => false,
    }
}


/// The value of the first member named `key`, by views.
pub open spec fn view_member(mv: Seq<(Seq<char>, JsonView)>, key: Seq<char>) -> Option<JsonView>
    decreases mv.len(),
{
    if mv.len() == 0 {
        None
    } else if mv[0].0 == key {
        Some(mv[0].1)
    } else {
        view_member(mv.drop_first(), key)
    }
}

/// The member `key` of an object, by views; `None` for a non-object or a
/// missing key.
pub open spec fn view_get(v: JsonView, key: Seq<char>) -> Option<JsonView> {
    match v {
        JsonView::Object(mv) => view_member(mv, key),
        _ => None,
    }
}

/// An optional JSON value taken by its view.
pub open spec fn opt_json_view(o: Option<JsonValue>) -> Option<JsonView> {
    match o {
        Some(v) => Some(json_view(v)),
        None => None,
    }
}

proof fn lemma_view_member(s: Seq<(String, JsonValue)>, key: Seq<char>)
    ensures
        view_member(members_view(s), key) == opt_json_view(member_value(s, key)),
    decreases s.len(),
{
    if s.len() > 0 {
        let t = s.drop_first();
        lemma_members_view(s);
        lemma_members_view(t);
        assert(members_view(s).drop_first() =~= members_view(t));
        lemma_view_member(t, key);
    }
}

/// Looking up a member by views agrees with looking it up in the value.
pub proof fn lemma_view_get(v: JsonValue, key: Seq<char>)
    ensures
        view_get(json_view(v), key) == opt_json_view(json_get(v, key)),
{
    match v {
        JsonValue::Object(members) => {
            lemma_view_member(members@, key);
        },
        _ => {},
    }
}


/// The member `key` of an object (see `view_get`).
pub fn member_of<'a>(v: &'a JsonValue, key: &str) -> (r: Option<&'a JsonValue>)
    ensures
        view_get(json_view(*v), key@) == opt_json_view(
            match r {
                Some(m) => Some(*m),
                None => None,
            },
        ),
{
    proof {
        lemma_view_get(*v, key@);
    }
    get_member(v, key)
}

} // verus!
