//! Rollout files: their lines, the `session_meta` records that name a
//! thread's provider, and how those records are moved to the target provider.
//! The caller parses each line into a `JsonValue` and writes edited records
//! back out as JSON text.
use vstd::prelude::*;
use crate::json::{
    as_text, contains_member, get_member, has_member, json_get, json_str, json_str_member,
    member_value, str_member, JsonValue,
};
use crate::text::{
    ascii_lower, chars_eq, chars_of, has_char, has_prefix, has_suffix, lower_chars, lower_seq,
    push_str, starts_with_chars, string_from_range, trim, trim_str,
};

verus! {

/// A segment of a file split after each newline, taken apart into its line and
/// its line ending (`\r\n`, `\n`, or none for a last line without one).
pub open spec fn split_ending(segment: Seq<char>) -> (Seq<char>, Seq<char>) {
    if has_suffix(segment, seq!['\r', '\n']) {
        (segment.subrange(0, segment.len() - 2), seq!['\r', '\n'])
    } else if has_suffix(segment, seq!['\n']) {
        (segment.subrange(0, segment.len() - 1), seq!['\n'])
    } else {
        (segment, seq![])
    }
}

/// A segment taken apart into its line and its line ending (see `split_ending`).
pub fn split_line_ending(segment: &str) -> (r: (String, String))
    ensures
        (r.0@, r.1@) == split_ending(segment@),
{
    let v = chars_of(segment);
    let n = v.len();
    if n >= 2 && v[n - 2] == '\r' && v[n - 1] == '\n' {
        proof {
            assert(v@.subrange(n - 2, n as int) =~= seq!['\r', '\n']);
        }
        let mut ending = String::new();
        crate::text::push_char(&mut ending, '\r');
        crate::text::push_char(&mut ending, '\n');
        proof {
            assert(ending@ =~= seq!['\r', '\n']);
        }
        (string_from_range(&v, 0, n - 2), ending)
    } else if n >= 1 && v[n - 1] == '\n' {
        proof {
            assert(v@.subrange(n - 1, n as int) =~= seq!['\n']);
            if n >= 2 {
                assert(!has_suffix(v@, seq!['\r', '\n'])) by {
                    if has_suffix(v@, seq!['\r', '\n']) {
                        assert(v@.subrange(n - 2, n as int)[0] == v@[n - 2]);
                    }
                }
            }
        }
        let mut ending = String::new();
        crate::text::push_char(&mut ending, '\n');
        proof {
            assert(ending@ =~= seq!['\n']);
        }
        (string_from_range(&v, 0, n - 1), ending)
    } else {
        proof {
            if has_suffix(v@, seq!['\r', '\n']) {
                assert(v@.subrange(n - 2, n as int)[1] == v@[n - 1]);
            }
            if has_suffix(v@, seq!['\n']) {
                assert(v@.subrange(n - 1, n as int)[0] == v@[n - 1]);
            }
        }
        (segment.to_string(), String::new())
    }
}

/// The lines and line endings of a file, concatenated back.
pub open spec fn joined_parts(parts: Seq<(Seq<char>, Seq<char>)>) -> Seq<char>
    decreases parts.len(),
{
    if parts.len() == 0 {
        seq![]
    } else {
        joined_parts(parts.drop_last()) + parts.last().0 + parts.last().1
    }
}

/// `parts` is how a file splits into lines: they give back the file, no line
/// holds a newline, each ends with `\n` or `\r\n` (a line followed by `\n`
/// alone does not end in `\r`) except a non-empty last line without one.
pub open spec fn framed(content: Seq<char>, parts: Seq<(Seq<char>, Seq<char>)>) -> bool {
    &&& joined_parts(parts) == content
    &&& forall|i: int| 0 <= i < parts.len() ==> !has_char(#[trigger] parts[i].0, '\n')
    &&& forall|i: int|
        0 <= i < parts.len() ==> {
            ||| (#[trigger] parts[i]).1 == seq!['\n'] && !(parts[i].0.len() > 0 && parts[i].0.last()
                == '\r')
            ||| parts[i].1 == seq!['\r', '\n']
            ||| parts[i].1 == Seq::<char>::empty() && i == parts.len() - 1 && parts[i].0.len() > 0
        }
}

/// Parts taken by the views of their strings.
pub open spec fn part_views(parts: Seq<(String, String)>) -> Seq<(Seq<char>, Seq<char>)> {
    parts.map_values(|p: (String, String)| (p.0@, p.1@))
}

/// Splits a file into its lines and line endings, after each `\n` as
/// `str::split_inclusive` does.
pub fn split_rollout_lines(content: &str) -> (r: Vec<(String, String)>)
    ensures
        framed(content@, part_views(r@)),
{
    let v = chars_of(content);
    let mut parts: Vec<(String, String)> = Vec::new();
    let mut start: usize = 0;
    let mut k: usize = 0;
    while k < v.len()
        invariant
            start <= k <= v.len(),
            v@ == content@,
            joined_parts(part_views(parts@)) == v@.subrange(0, start as int),
            forall|j: int| start <= j < k ==> v@[j] != '\n',
            forall|i: int|
                0 <= i < parts.len() ==> !has_char(#[trigger] part_views(parts@)[i].0, '\n'),
            forall|i: int|
                0 <= i < parts.len() ==> {
                    ||| (#[trigger] part_views(parts@)[i]).1 == seq!['\n'] && !(part_views(
                        parts@,
                    )[i].0.len() > 0 && part_views(parts@)[i].0.last() == '\r')
                    ||| part_views(parts@)[i].1 == seq!['\r', '\n']
                },
        decreases v.len() - k,
    {
        if v[k] == '\n' {
            let segment = string_from_range(&v, start, k + 1);
            let (line, ending) = split_line_ending(segment.as_str());
            let ghost seg = v@.subrange(start as int, k + 1);
            let ghost before = part_views(parts@);
            proof {
                assert(segment@ == seg);
                assert(has_suffix(seg, seq!['\n'])) by {
                    assert(seg.subrange(seg.len() - 1, seg.len() as int) =~= seq!['\n']);
                }
                assert(line@ + ending@ =~= seg);
                assert forall|j: int| 0 <= j < line@.len() implies line@[j] != '\n' by {
                    assert(line@[j] == seg[j]);
                    assert(seg[j] == v@[start + j]);
                }
                if ending@ == seq!['\n'] && line@.len() > 0 && line@.last() == '\r' {
                    assert(seg.subrange(seg.len() - 2, seg.len() as int) =~= seq!['\r', '\n']);
                }
            }
            parts.push((line, ending));
            proof {
                assert(part_views(parts@) =~= before.push((line@, ending@)));
                assert(v@.subrange(0, k + 1) =~= v@.subrange(0, start as int) + seg);
                assert(part_views(parts@).drop_last() =~= before);
                assert(joined_parts(part_views(parts@)) == joined_parts(before) + line@ + ending@);
                assert forall|i: int| 0 <= i < parts.len() implies !has_char(
                    #[trigger] part_views(parts@)[i].0,
                    '\n',
                ) by {
                    if i == parts.len() - 1 {
                        assert(part_views(parts@)[i].0 == line@);
                    } else {
                        assert(part_views(parts@)[i] == before[i]);
                    }
                }
                assert forall|i: int| 0 <= i < parts.len() implies {
                    ||| (#[trigger] part_views(parts@)[i]).1 == seq!['\n'] && !(part_views(
                        parts@,
                    )[i].0.len() > 0 && part_views(parts@)[i].0.last() == '\r')
                    ||| part_views(parts@)[i].1 == seq!['\r', '\n']
                } by {
                    if i < parts.len() - 1 {
                        assert(part_views(parts@)[i] == before[i]);
                    }
                }
            }
            start = k + 1;
        }
        k = k + 1;
    }
    if start < v.len() {
        let line = string_from_range(&v, start, v.len());
        let ghost before = part_views(parts@);
        parts.push((line, String::new()));
        proof {
            assert(part_views(parts@) =~= before.push((line@, Seq::<char>::empty())));
            assert(v@.subrange(0, v.len() as int) =~= v@.subrange(0, start as int) + line@);
            assert(part_views(parts@).drop_last() =~= before);
            assert(joined_parts(part_views(parts@)) == joined_parts(before) + line@ + Seq::<
                char,
            >::empty());
            assert forall|i: int| 0 <= i < parts.len() implies !has_char(
                #[trigger] part_views(parts@)[i].0,
                '\n',
            ) by {
                if i == parts.len() - 1 {
                    assert forall|j: int| 0 <= j < line@.len() implies line@[j] != '\n' by {
                        assert(line@[j] == v@[start + j]);
                    }
                } else {
                    assert(part_views(parts@)[i] == before[i]);
                }
            }
            assert forall|i: int| 0 <= i < parts.len() implies {
                ||| (#[trigger] part_views(parts@)[i]).1 == seq!['\n'] && !(part_views(
                    parts@,
                )[i].0.len() > 0 && part_views(parts@)[i].0.last() == '\r')
                ||| part_views(parts@)[i].1 == seq!['\r', '\n']
                ||| part_views(parts@)[i].1 == Seq::<char>::empty() && i == parts.len() - 1
                    && part_views(parts@)[i].0.len() > 0
            } by {
                if i < parts.len() - 1 {
                    assert(part_views(parts@)[i] == before[i]);
                }
            }
        }
    } else {
        proof {
            assert(v@.subrange(0, v.len() as int) =~= v@);
            assert forall|i: int| 0 <= i < parts.len() implies {
                ||| (#[trigger] part_views(parts@)[i]).1 == seq!['\n'] && !(part_views(
                    parts@,
                )[i].0.len() > 0 && part_views(parts@)[i].0.last() == '\r')
                ||| part_views(parts@)[i].1 == seq!['\r', '\n']
                ||| part_views(parts@)[i].1 == Seq::<char>::empty() && i == parts.len() - 1
                    && part_views(parts@)[i].0.len() > 0
            } by {
            }
        }
    }
    proof {
        assert(joined_parts(part_views(parts@)) == content@);
    }
    parts
}

/// A source text marks a subagent or internal thread: after trimming and ASCII
/// lower-casing it is `subagent` or `internal`, or starts with `subagent_` or
/// `internal_`.
pub open spec fn marks_non_root_text(source: Seq<char>) -> bool {
    let s = lower_seq(trim(source));
    s == "subagent"@ || s == "internal"@ || has_prefix(s, "subagent_"@) || has_prefix(
        s,
        "internal_"@,
    )
}

/// Whether a source text marks a subagent or internal thread.
pub fn source_text_marks_non_root_agent(source: &str) -> (b: bool)
    ensures
        b == marks_non_root_text(source@),
{
    let s = lower_chars(&chars_of(trim_str(source).as_str()));
    chars_eq(&s, &chars_of("subagent")) || chars_eq(&s, &chars_of("internal")) || starts_with_chars(
        &s,
        &chars_of("subagent_"),
    ) || starts_with_chars(&s, &chars_of("internal_"))
}

/// A `source` value marks a subagent or internal thread: an object with a
/// `sub_agent`, `subagent` or `internal` member, or a text that does.
pub open spec fn marks_non_root_value(source: JsonValue) -> bool {
    match source {
        JsonValue::Object(m) => has_member(m@, "sub_agent"@) || has_member(m@, "subagent"@)
            || has_member(m@, "internal"@),
        JsonValue::Text(s) => marks_non_root_text(s@),
        _ => false,
    }
}

/// Whether a `source` value marks a subagent or internal thread.
pub fn source_value_marks_non_root_agent(source: &JsonValue) -> (b: bool)
    ensures
        b == marks_non_root_value(*source),
{
    match source {
        JsonValue::Object(m) => contains_member(m, "sub_agent") || contains_member(m, "subagent")
            || contains_member(m, "internal"),
        JsonValue::Text(s) => source_text_marks_non_root_agent(s.as_str()),
        _ => false,
    }
}

/// A thread source that marks a thread the sidebar does not list: trimmed, it
/// is `subagent` or `memory_consolidation` in any ASCII case.
pub open spec fn marks_non_root_thread_source(value: Option<Seq<char>>) -> bool {
    match value {
        Some(v) => lower_seq(trim(v)) == "subagent"@ || lower_seq(trim(v)) == "memory_consolidation"@,
        None => false,
    }
}

/// Whether a thread source marks a thread the sidebar does not list.
pub fn thread_source_marks_non_root(value: &Option<String>) -> (b: bool)
    ensures
        b == marks_non_root_thread_source(crate::selection::opt_string_view(*value)),
{
    match value {
        Some(v) => {
            let s = lower_chars(&chars_of(trim_str(v.as_str()).as_str()));
            chars_eq(&s, &chars_of("subagent")) || chars_eq(&s, &chars_of("memory_consolidation"))
        },
        None => false,
    }
}

/// A thread source that marks a thread as the user's own: `user` in any ASCII
/// case once trimmed.
pub open spec fn marks_user_thread_source(value: Option<Seq<char>>) -> bool {
    match value {
        Some(v) => lower_seq(trim(v)) == "user"@,
        None => false,
    }
}

/// Whether a thread source marks a thread as the user's own.
pub fn thread_source_marks_user(value: &Option<String>) -> (b: bool)
    ensures
        b == marks_user_thread_source(crate::selection::opt_string_view(*value)),
{
    match value {
        Some(v) => {
            let s = lower_chars(&chars_of(trim_str(v.as_str()).as_str()));
            chars_eq(&s, &chars_of("user"))
        },
        None => false,
    }
}

/// The index of the first member named `key`; the number of members when none is.
pub open spec fn key_index(members: Seq<(String, JsonValue)>, key: Seq<char>) -> int
    decreases members.len(),
{
    if members.len() == 0 {
        0
    } else if members[0].0@ == key {
        0
    } else {
        key_index(members.drop_first(), key) + 1
    }
}

proof fn lemma_key_index(members: Seq<(String, JsonValue)>, key: Seq<char>)
    ensures
        0 <= key_index(members, key) <= members.len(),
        key_index(members, key) < members.len() ==> members[key_index(members, key)].0@ == key
            && member_value(members, key) == Some(members[key_index(members, key)].1),
        key_index(members, key) == members.len() ==> member_value(members, key) is None,
        forall|j: int| 0 <= j < key_index(members, key) ==> (#[trigger] members[j]).0@ != key,
    decreases members.len(),
{
    if members.len() > 0 && members[0].0@ != key {
        lemma_key_index(members.drop_first(), key);
        assert forall|j: int| 0 <= j < key_index(members, key) implies (
        #[trigger] members[j]).0@ != key by {
            if j > 0 {
                assert(members[j] == members.drop_first()[j - 1]);
            }
        }
    }
}

/// `new` is `old` with the member `key` set to the text `text`: replaced in
/// place when it exists, appended otherwise.
pub open spec fn text_member_set(
    old: Seq<(String, JsonValue)>,
    new: Seq<(String, JsonValue)>,
    key: Seq<char>,
    text: Seq<char>,
) -> bool {
    let i = key_index(old, key);
    &&& new.len() == (if i < old.len() {
        old.len() as int
    } else {
        old.len() + 1int
    })
    &&& forall|j: int| 0 <= j < old.len() && j != i ==> new[j] == old[j]
    &&& new[i].0@ == key
    &&& new[i].1 matches JsonValue::Text(t) && t@ == text
}

fn find_key(members: &Vec<(String, JsonValue)>, key: &str) -> (i: usize)
    ensures
        i == key_index(members@, key@),
{
    proof {
        lemma_key_index(members@, key@);
    }
    let k = chars_of(key);
    let mut i: usize = 0;
    while i < members.len()
        invariant
            i <= members.len(),
            k@ == key@,
            i <= key_index(members@, key@),
            0 <= key_index(members@, key@) <= members.len(),
            key_index(members@, key@) < members.len() ==> members@[key_index(members@, key@)].0@
                == key@,
            forall|j: int| 0 <= j < key_index(members@, key@) ==> (#[trigger] members@[j]).0@ != key@,
        decreases members.len() - i,
    {
        if chars_eq(&chars_of(members[i].0.as_str()), &k) {
            return i;
        }
        i = i + 1;
    }
    i
}

/// Sets the member `key` of an object's members to the text `text`.
pub fn set_text_member(members: &mut Vec<(String, JsonValue)>, key: &str, text: &str)
    ensures
        text_member_set(old(members)@, final(members)@, key@, text@),
{
    let i = find_key(members, key);
    proof {
        lemma_key_index(members@, key@);
    }
    if i < members.len() {
        let (name, _) = members.remove(i);
        members.insert(i, (name, JsonValue::Text(text.to_string())));
    } else {
        members.push((key.to_string(), JsonValue::Text(text.to_string())));
    }
}

/// The record is a `session_meta` record whose payload is an object.
pub open spec fn session_meta_payload(r: JsonValue) -> Option<JsonValue> {
    if json_str_member(r, "type"@) == Some("session_meta"@) {
        match json_get(r, "payload"@) {
            Some(p) => if p is Object {
                Some(p)
            } else {
                None
            },
            None => None,
        }
    } else {
        None
    }
}

/// The thread id of a payload: its `id` member if it has one, else its
/// `session_id` member, when that is a string.
pub open spec fn payload_thread_id(p: JsonValue) -> Option<Seq<char>> {
    let v = if json_get(p, "id"@) is Some {
        json_get(p, "id"@)
    } else {
        json_get(p, "session_id"@)
    };
    match v {
        Some(x) => json_str(x),
        None => None,
    }
}

/// The payload's source marks a subagent or internal thread.
pub open spec fn payload_marks_non_root(p: JsonValue) -> bool {
    match json_get(p, "source"@) {
        Some(s) => marks_non_root_value(s),
        None => false,
    }
}

/// The thread id of a payload (see `payload_thread_id`).
pub fn thread_id_of_payload(p: &JsonValue) -> (r: Option<String>)
    ensures
        crate::selection::opt_string_view(r) == payload_thread_id(*p),
{
    let v = match get_member(p, "id") {
        Some(x) => Some(x),
        None => get_member(p, "session_id"),
    };
    match v {
        Some(x) => match as_text(x) {
            Some(s) => Some(s.clone()),
            None => None,
        },
        None => None,
    }
}

/// Whether a payload's source marks a subagent or internal thread.
pub fn payload_source_marks_non_root(p: &JsonValue) -> (b: bool)
    ensures
        b == payload_marks_non_root(*p),
{
    match get_member(p, "source") {
        Some(s) => source_value_marks_non_root_agent(s),
        None => false,
    }
}

/// The payload of a `session_meta` record whose payload is an object.
pub fn session_meta_payload_of(r: &JsonValue) -> (p: Option<&JsonValue>)
    ensures
        match p {
            Some(x) => session_meta_payload(*r) == Some(*x),
            None => session_meta_payload(*r) is None,
        },
{
    let is_meta = match str_member(r, "type") {
        Some(t) => chars_eq(&chars_of(t.as_str()), &chars_of("session_meta")),
        None => false,
    };
    if !is_meta {
        return None;
    }
    match get_member(r, "payload") {
        Some(p) => match p {
            JsonValue::Object(_) => Some(p),
            _ => None,
        },
        None => None,
    }
}

/// Two member lists with the same keys, position by position, find a key at
/// the same index.
proof fn lemma_key_index_same_keys(a: Seq<(String, JsonValue)>, b: Seq<(String, JsonValue)>, key: Seq<char>)
    requires
        a.len() == b.len(),
        forall|j: int| 0 <= j < a.len() ==> (#[trigger] a[j]).0@ == b[j].0@,
    ensures
        key_index(a, key) == key_index(b, key),
{
    lemma_key_index(a, key);
    lemma_key_index(b, key);
    let ka = key_index(a, key);
    let kb = key_index(b, key);
    if ka < kb {
        assert(b[ka].0@ == a[ka].0@);
    } else if kb < ka {
        assert(a[kb].0@ == b[kb].0@);
    }
}

/// The member `key` of an object, found at the first index with that key.
proof fn lemma_member_at(m: Seq<(String, JsonValue)>, key: Seq<char>, i: int)
    requires
        0 <= i < m.len(),
        m[i].0@ == key,
        forall|j: int| 0 <= j < i ==> (#[trigger] m[j]).0@ != key,
    ensures
        key_index(m, key) == i,
        member_value(m, key) == Some(m[i].1),
{
    lemma_key_index(m, key);
    let k = key_index(m, key);
    if k < i {
        assert(m[k].0@ == key);
    } else if k > i {
        assert(m[i].0@ != key);
    }
}

/// `new` is the record `old` with its payload's provider set to `target`.
pub open spec fn provider_set(old: JsonValue, new: JsonValue, target: Seq<char>) -> bool {
    old matches JsonValue::Object(m) && new matches JsonValue::Object(m2) && {
        let i = key_index(m@, "payload"@);
        &&& i < m@.len()
        &&& m2@.len() == m@.len()
        &&& forall|j: int| 0 <= j < m@.len() && j != i ==> m2@[j] == m@[j]
        &&& m2@[i].0 == m@[i].0
        &&& m@[i].1 matches JsonValue::Object(pm) && m2@[i].1 matches JsonValue::Object(pm2)
            && text_member_set(pm@, pm2@, "model_provider"@, target)
    }
}

/// The record with its payload's `model_provider` set to `target`.
pub fn with_payload_provider(record: JsonValue, target: &str) -> (r: JsonValue)
    requires
        session_meta_payload(record) is Some,
    ensures
        provider_set(record, r, target@),
{
    let ghost old_record = record;
    match record {
        JsonValue::Object(mut m) => {
            let i = find_key(&m, "payload");
            proof {
                lemma_key_index(m@, "payload"@);
            }
            let (name, payload) = m.remove(i);
            match payload {
                JsonValue::Object(mut pm) => {
                    set_text_member(&mut pm, "model_provider", target);
                    m.insert(i, (name, JsonValue::Object(pm)));
                    proof {
                        assert forall|j: int|
                            0 <= j < m@.len() && j != i implies m@[j] == old_record->Object_0@[j] by {
                            if j < i {
                            } else {
                            }
                        }
                    }
                    JsonValue::Object(m)
                },
                _ => {
                    proof {
                        assert(false);
                    }
                    JsonValue::Null
                },
            }
        },
        _ => {
            proof {
                assert(false);
            }
            JsonValue::Null
        },
    }
}

/// Rewriting a `session_meta` record to a provider leaves it a `session_meta`
/// record that names that provider, so a second repair to the same provider
/// finds nothing to rewrite, and a repair to another provider moves it again.
pub proof fn rewritten_record_names_target(old_record: JsonValue, new_record: JsonValue, target: Seq<char>)
    requires
        session_meta_payload(old_record) is Some,
        provider_set(old_record, new_record, target),
    ensures
        session_meta_payload(new_record) matches Some(p) && json_str_member(p, "model_provider"@)
            == Some(target),
        !line_needs_rewrite(Some(new_record), target),
        forall|other: Seq<char>| other != target ==> line_needs_rewrite(Some(new_record), other),
{
    let m = old_record->Object_0@;
    let m2 = new_record->Object_0@;
    let i = key_index(m, "payload"@);
    lemma_key_index(m, "payload"@);
    assert forall|j: int| 0 <= j < m.len() implies (#[trigger] m[j]).0@ == m2[j].0@ by {
        if j != i {
            assert(m2[j] == m[j]);
        }
    }
    lemma_key_index_same_keys(m, m2, "type"@);
    lemma_key_index_same_keys(m, m2, "payload"@);
    lemma_key_index(m, "type"@);
    lemma_key_index(m2, "type"@);
    lemma_key_index(m2, "payload"@);
    let t = key_index(m, "type"@);
    if t < m.len() {
        assert(t != i) by {
            reveal_strlit("type");
            reveal_strlit("payload");
            if t == i {
                assert(m[t].0@ == "type"@);
                assert(m[i].0@ == "payload"@);
                assert(m[t].0@[0] == 't');
                assert(m[i].0@[0] == 'p');
            }
        }
        assert(m2[t] == m[t]);
    }
    let pm = m[i].1->Object_0@;
    let pm2 = m2[i].1->Object_0@;
    let key = "model_provider"@;
    let k = key_index(pm, key);
    lemma_key_index(pm, key);
    assert forall|j: int| 0 <= j < k implies (#[trigger] pm2[j]).0@ != key by {
        assert(pm2[j] == pm[j]);
    }
    lemma_member_at(pm2, key, k);
}

/// The payload of a line's record, when the line holds a `session_meta`
/// record with an object payload.
pub open spec fn line_payload(o: Option<JsonValue>) -> Option<JsonValue> {
    match o {
        Some(r) => session_meta_payload(r),
        None => None,
    }
}

/// The line's record names another provider than the target and is rewritten.
pub open spec fn line_needs_rewrite(o: Option<JsonValue>, target: Seq<char>) -> bool {
    line_payload(o) matches Some(p) && json_str_member(p, "model_provider"@) != Some(target)
}

/// How many lines hold a `session_meta` record with an object payload.
pub open spec fn meta_count(recs: Seq<Option<JsonValue>>) -> nat
    decreases recs.len(),
{
    if recs.len() == 0 {
        0
    } else {
        meta_count(recs.drop_last()) + if line_payload(recs.last()) is Some {
            1nat
        } else {
            0nat
        }
    }
}

/// The first thread id that a `session_meta` record gives.
pub open spec fn first_thread_id(recs: Seq<Option<JsonValue>>) -> Option<Seq<char>>
    decreases recs.len(),
{
    if recs.len() == 0 {
        None
    } else {
        let rest = first_thread_id(recs.drop_last());
        if rest is Some {
            rest
        } else {
            match line_payload(recs.last()) {
                Some(p) => payload_thread_id(p),
                None => None,
            }
        }
    }
}

/// Some `session_meta` record's source marks a subagent or internal thread.
pub open spec fn any_non_root(recs: Seq<Option<JsonValue>>) -> bool {
    exists|i: int|
        0 <= i < recs.len() && (line_payload(#[trigger] recs[i]) matches Some(p)
            && payload_marks_non_root(p))
}

/// Some line is rewritten.
pub open spec fn any_rewrite(recs: Seq<Option<JsonValue>>, target: Seq<char>) -> bool {
    exists|i: int| 0 <= i < recs.len() && line_needs_rewrite(#[trigger] recs[i], target)
}

/// The records of a rollout file after its edits: each edited line holds its
/// new record, every other line keeps its own.
pub open spec fn records_after_edits(recs: Seq<Option<JsonValue>>, edited: Seq<Option<JsonValue>>) -> Seq<
    Option<JsonValue>,
> {
    Seq::new(recs.len(), |i: int| if edited[i] is Some { edited[i] } else { recs[i] })
}

/// Moving a rollout file's records to a provider is idempotent: once the edits
/// are applied, a second repair to the same provider finds no line to rewrite;
/// and every line that was moved is moved again by a repair to any other
/// provider.
pub proof fn repaired_rollout_needs_no_second_repair(
    recs: Seq<Option<JsonValue>>,
    edited: Seq<Option<JsonValue>>,
    target: Seq<char>,
)
    requires
        edits_match(recs, edited, target),
    ensures
        !any_rewrite(records_after_edits(recs, edited), target),
        forall|i: int, other: Seq<char>|
            0 <= i < recs.len() && edited[i] is Some && other != target ==> #[trigger] line_needs_rewrite(
                records_after_edits(recs, edited)[i],
                other,
            ),
{
    let after = records_after_edits(recs, edited);
    assert forall|i: int| 0 <= i < after.len() implies !line_needs_rewrite(#[trigger] after[i], target) by {
        if line_needs_rewrite(recs[i], target) {
            rewritten_record_names_target(recs[i]->0, edited[i]->0, target);
        }
    }
    assert forall|i: int, other: Seq<char>|
        0 <= i < recs.len() && edited[i] is Some && other != target implies #[trigger] line_needs_rewrite(
            records_after_edits(recs, edited)[i],
            other,
        ) by {
        rewritten_record_names_target(recs[i]->0, edited[i]->0, target);
    }
}

/// What moving the `session_meta` records of a rollout file to a provider gives.
#[derive(Debug)]
pub struct RolloutProviderRewrite {
    /// For each line, the record to write in its place; `None` keeps the line.
    pub edited: Vec<Option<JsonValue>>,
    pub rewrite_needed: bool,
    pub thread_id: Option<String>,
    pub session_meta_count: usize,
    pub non_root_agent: bool,
}

/// The edits of each line: a rewritten line gets its record with the payload's
/// provider set to the target; any other line is kept.
pub open spec fn edits_match(
    recs: Seq<Option<JsonValue>>,
    edited: Seq<Option<JsonValue>>,
    target: Seq<char>,
) -> bool {
    &&& edited.len() == recs.len()
    &&& forall|i: int|
        0 <= i < recs.len() ==> if line_needs_rewrite(#[trigger] recs[i], target) {
            edited[i] matches Some(e) && provider_set(recs[i]->0, e, target)
        } else {
            edited[i] is None
        }
}

/// Moves the `session_meta` records of a rollout file to `target_provider`.
/// `records` holds, for each line, its record when the line is not blank and
/// parses as JSON. Every `session_meta` record with an object payload is
/// counted and, when its payload names another provider, rewritten; the file's
/// thread is the first thread id such a record gives, and it is a subagent or
/// internal thread when any such record's source says so.
pub fn rewrite_rollout_session_meta_providers(records: Vec<Option<JsonValue>>, target_provider: &str) -> (r:
    RolloutProviderRewrite)
    requires
        records.len() < usize::MAX,
    ensures
        edits_match(records@, r.edited@, target_provider@),
        r.rewrite_needed == any_rewrite(records@, target_provider@),
        crate::selection::opt_string_view(r.thread_id) == first_thread_id(records@),
        r.session_meta_count == meta_count(records@),
        r.non_root_agent == any_non_root(records@),
{
    let ghost recs = records@;
    let mut records = records;
    let mut reversed: Vec<Option<JsonValue>> = Vec::new();
    while records.len() > 0
        invariant
            recs == records@ + reversed@.reverse(),
        decreases records.len(),
    {
        let ghost before = records@;
        match records.pop() {
            Some(x) => {
                reversed.push(x);
                proof {
                    assert(reversed@.reverse() =~= seq![x] + reversed@.drop_last().reverse());
                    assert(before =~= records@.push(x));
                    assert(records@ + reversed@.reverse() =~= before + reversed@.drop_last().reverse());
                }
            },
            None => {},
        }
    }
    proof {
        assert(records@ + reversed@.reverse() =~= reversed@.reverse());
    }
    let mut edited: Vec<Option<JsonValue>> = Vec::new();
    let mut rewrite_needed = false;
    let mut thread_id: Option<String> = None;
    let mut count: usize = 0;
    let mut non_root = false;
    let mut k: usize = 0;
    loop
        invariant
            recs == recs.subrange(0, k as int) + reversed@.reverse(),
            k + reversed.len() == recs.len(),
            recs.len() < usize::MAX,
            edits_match(recs.subrange(0, k as int), edited@, target_provider@),
            rewrite_needed == any_rewrite(recs.subrange(0, k as int), target_provider@),
            crate::selection::opt_string_view(thread_id) == first_thread_id(recs.subrange(0, k as int)),
            count == meta_count(recs.subrange(0, k as int)),
            count <= k,
            non_root == any_non_root(recs.subrange(0, k as int)),
        ensures
            k == recs.len(),
            edits_match(recs.subrange(0, k as int), edited@, target_provider@),
            rewrite_needed == any_rewrite(recs.subrange(0, k as int), target_provider@),
            crate::selection::opt_string_view(thread_id) == first_thread_id(recs.subrange(0, k as int)),
            count == meta_count(recs.subrange(0, k as int)),
            non_root == any_non_root(recs.subrange(0, k as int)),
        decreases reversed.len(),
    {
        let ghost prefix = recs.subrange(0, k as int);
        let item = match reversed.pop() {
            Some(x) => x,
            None => {
                break ;
            },
        };
        let ghost next = recs.subrange(0, k + 1);
        proof {
            assert(recs[k as int] == item) by {
                assert(recs == recs.subrange(0, k as int) + (reversed@.push(item)).reverse());
                assert((reversed@.push(item)).reverse()[0] == item);
            }
            assert(next.drop_last() =~= prefix);
            assert(next.last() == item);
        }
        let mut out: Option<JsonValue> = None;
        match &item {
            Some(record) => {
                match session_meta_payload_of(record) {
                    Some(payload) => {
                        count = count + 1;
                        if payload_source_marks_non_root(payload) {
                            non_root = true;
                        }
                        if thread_id.is_none() {
                            thread_id = thread_id_of_payload(payload);
                        }
                        let same = match str_member(payload, "model_provider") {
                            Some(p) => chars_eq(&chars_of(p.as_str()), &chars_of(target_provider)),
                            None => false,
                        };
                        if !same {
                            rewrite_needed = true;
                        }
                    },
                    None => {},
                }
            },
            None => {},
        }
        let needs = match &item {
            Some(record) => match session_meta_payload_of(record) {
                Some(payload) => match str_member(payload, "model_provider") {
                    Some(p) => !chars_eq(&chars_of(p.as_str()), &chars_of(target_provider)),
                    None => true,
                },
                None => false,
            },
            None => false,
        };
        if needs {
            match item {
                Some(record) => {
                    out = Some(with_payload_provider(record, target_provider));
                },
                None => {},
            }
        }
        let ghost before_edits = edited@;
        edited.push(out);
        proof {
            assert(needs == line_needs_rewrite(recs[k as int], target_provider@));
            assert forall|i: int| 0 <= i < next.len() implies if line_needs_rewrite(
                #[trigger] next[i],
                target_provider@,
            ) {
                edited@[i] matches Some(e) && provider_set(next[i]->0, e, target_provider@)
            } else {
                edited@[i] is None
            } by {
                if i < k {
                    assert(next[i] == prefix[i]);
                    assert(edited@[i] == before_edits[i]);
                }
            }
            if any_rewrite(next, target_provider@) && !needs {
                let i = choose|i: int| 0 <= i < next.len() && line_needs_rewrite(#[trigger] next[i], target_provider@);
                assert(prefix[i] == next[i]);
            }
            if any_rewrite(prefix, target_provider@) {
                let i = choose|i: int| 0 <= i < prefix.len() && line_needs_rewrite(#[trigger] prefix[i], target_provider@);
                assert(next[i] == prefix[i]);
            }
            if needs {
                assert(line_needs_rewrite(next[k as int], target_provider@));
            }
            if any_non_root(next) && !(line_payload(item) matches Some(p) && payload_marks_non_root(p)) {
                let i = choose|i: int| 0 <= i < next.len() && (line_payload(#[trigger] next[i]) matches Some(p) && payload_marks_non_root(p));
                assert(prefix[i] == next[i]);
            }
            if any_non_root(prefix) {
                let i = choose|i: int| 0 <= i < prefix.len() && (line_payload(#[trigger] prefix[i]) matches Some(p) && payload_marks_non_root(p));
                assert(next[i] == prefix[i]);
            }
            if line_payload(item) matches Some(p) && payload_marks_non_root(p) {
                assert(line_payload(next[k as int]) matches Some(p) && payload_marks_non_root(p));
            }
        }
        k = k + 1;
    }
    proof {
        assert(recs.subrange(0, k as int) =~= recs);
    }
    RolloutProviderRewrite {
        edited,
        rewrite_needed,
        thread_id,
        session_meta_count: count,
        non_root_agent: non_root,
    }
}

/// A file's text rebuilt from its lines, each replaced where a replacement is
/// given, with its line ending.
pub open spec fn rebuilt_lines(parts: Seq<(Seq<char>, Seq<char>)>, reps: Seq<Option<Seq<char>>>) -> Seq<
    char,
>
    decreases parts.len(),
{
    if parts.len() == 0 {
        seq![]
    } else {
        let line = match reps[parts.len() - 1] {
            Some(t) => t,
            None => parts.last().0,
        };
        rebuilt_lines(parts.drop_last(), reps) + line + parts.last().1
    }
}

/// The rewritten file: the rebuilt lines, without a final newline the original
/// file did not have.
pub open spec fn rebuilt_content(
    original: Seq<char>,
    parts: Seq<(Seq<char>, Seq<char>)>,
    reps: Seq<Option<Seq<char>>>,
) -> Seq<char> {
    let out = rebuilt_lines(parts, reps);
    if !has_suffix(original, seq!['\n']) && has_suffix(out, seq!['\n']) {
        out.drop_last()
    } else {
        out
    }
}

/// Optional strings taken by their views.
pub open spec fn opt_views(v: Seq<Option<String>>) -> Seq<Option<Seq<char>>> {
    v.map_values(|o: Option<String>| crate::selection::opt_string_view(o))
}

/// Rebuilds a rollout file from its lines (see `rebuilt_content`); `replacements`
/// holds, for each line, the text written in its place.
pub fn assemble_rollout_content(
    original: &str,
    parts: &Vec<(String, String)>,
    replacements: &Vec<Option<String>>,
) -> (r: String)
    requires
        replacements.len() == parts.len(),
    ensures
        r@ == rebuilt_content(original@, part_views(parts@), opt_views(replacements@)),
{
    let mut out = String::new();
    let mut k: usize = 0;
    while k < parts.len()
        invariant
            k <= parts.len(),
            replacements.len() == parts.len(),
            out@ == rebuilt_lines(
                part_views(parts@).subrange(0, k as int),
                opt_views(replacements@),
            ),
        decreases parts.len() - k,
    {
        proof {
            let next = part_views(parts@).subrange(0, k + 1);
            assert(next.drop_last() =~= part_views(parts@).subrange(0, k as int));
            assert(next.last() == (parts@[k as int].0@, parts@[k as int].1@));
        }
        match &replacements[k] {
            Some(t) => push_str(&mut out, t.as_str()),
            None => push_str(&mut out, parts[k].0.as_str()),
        }
        push_str(&mut out, parts[k].1.as_str());
        k = k + 1;
    }
    proof {
        assert(part_views(parts@).subrange(0, parts.len() as int) =~= part_views(parts@));
    }
    let ov = chars_of(original);
    let outv = chars_of(out.as_str());
    let nl: Vec<char> = vec!['\n'];
    proof {
        assert(nl@ =~= seq!['\n']);
    }
    if !crate::text::ends_with_chars(&ov, &nl) && crate::text::ends_with_chars(&outv, &nl) {
        string_from_range(&outv, 0, outv.len() - 1)
    } else {
        out
    }
}

/// Whether a rollout file found by scanning the session directories is
/// repaired: it has a `session_meta` record, is not a subagent or internal
/// thread (by its records or the databases), is a session the run includes
/// (a file without a thread id only when the run is not limited to sessions),
/// and either its provider or its modification time is off.
pub open spec fn scanned_change_kept(
    session_meta_count: nat,
    non_root_agent: bool,
    thread_id: Option<Seq<char>>,
    non_root_ids: Seq<Seq<char>>,
    selection: crate::selection::RepairTargetSelection,
    rewrite_needed: bool,
    target_time_known: bool,
    time_matches: bool,
) -> bool {
    &&& session_meta_count > 0
    &&& !non_root_agent
    &&& !(thread_id matches Some(t) && non_root_ids.contains(t))
    &&& match thread_id {
        Some(t) => crate::selection::selection_includes_session(selection, t),
        None => selection.session_ids is None,
    }
    &&& (rewrite_needed || (target_time_known && !time_matches))
}

/// A scanned rollout file is repaired only when the run covers its session: a
/// file whose thread the run's session list leaves out, or a file without a
/// thread id in a run limited to sessions, is never repaired; neither is a file
/// without `session_meta` records, a subagent or internal thread, or a file
/// whose provider and modification time are both already right. A file of a
/// selected, ordinary thread whose provider is off is always repaired.
pub proof fn scanned_file_repaired_only_when_selected(
    session_meta_count: nat,
    non_root_agent: bool,
    thread_id: Option<Seq<char>>,
    non_root_ids: Seq<Seq<char>>,
    selection: crate::selection::RepairTargetSelection,
    rewrite_needed: bool,
    target_time_known: bool,
    time_matches: bool,
)
    ensures
        scanned_change_kept(
            session_meta_count,
            non_root_agent,
            thread_id,
            non_root_ids,
            selection,
            rewrite_needed,
            target_time_known,
            time_matches,
        ) ==> {
            &&& thread_id is Some && selection.session_ids is Some ==> crate::workspace_path::views(
                selection.session_ids->0@,
            ).contains(thread_id->0)
            &&& thread_id is None ==> selection.session_ids is None
            &&& thread_id is Some ==> !non_root_ids.contains(thread_id->0)
            &&& session_meta_count > 0 && !non_root_agent
            &&& rewrite_needed || (target_time_known && !time_matches)
        },
        session_meta_count > 0 && !non_root_agent && rewrite_needed && thread_id is Some
            && !non_root_ids.contains(thread_id->0) && (selection.session_ids is None
            || crate::workspace_path::views(selection.session_ids->0@).contains(thread_id->0))
            ==> scanned_change_kept(
            session_meta_count,
            non_root_agent,
            thread_id,
            non_root_ids,
            selection,
            rewrite_needed,
            target_time_known,
            time_matches,
        ),
{
}

/// Whether a scanned rollout file is repaired (see `scanned_change_kept`).
pub fn rollout_change_is_kept(
    session_meta_count: usize,
    non_root_agent: bool,
    thread_id: &Option<String>,
    non_root_ids: &Vec<String>,
    selection: &crate::selection::RepairTargetSelection,
    rewrite_needed: bool,
    target_time_known: bool,
    time_matches: bool,
) -> (b: bool)
    ensures
        b == scanned_change_kept(
            session_meta_count as nat,
            non_root_agent,
            crate::selection::opt_string_view(*thread_id),
            crate::workspace_path::views(non_root_ids@),
            *selection,
            rewrite_needed,
            target_time_known,
            time_matches,
        ),
        b && thread_id is Some && selection.session_ids is Some ==> crate::workspace_path::views(
            selection.session_ids->0@,
        ).contains(thread_id->0@),
        b && thread_id is None ==> selection.session_ids is None,
{
    proof {
        scanned_file_repaired_only_when_selected(
            session_meta_count as nat,
            non_root_agent,
            crate::selection::opt_string_view(*thread_id),
            crate::workspace_path::views(non_root_ids@),
            *selection,
            rewrite_needed,
            target_time_known,
            time_matches,
        );
    }
    if session_meta_count == 0 || non_root_agent {
        return false;
    }
    match thread_id {
        Some(t) => {
            if crate::threads_sql::contains_name(non_root_ids, t.as_str()) {
                return false;
            }
            if !selection.includes_session_id(t.as_str()) {
                return false;
            }
        },
        None => {
            if selection.has_session_filter() {
                return false;
            }
        },
    }
    let provider_matches = !rewrite_needed;
    let time_ok = !target_time_known || time_matches;
    !(provider_matches && time_ok)
}

/// Whether a rollout file that a database references is repaired: it has a
/// `session_meta` record, names another provider, and is not a subagent or
/// internal thread.
pub open spec fn referenced_change_kept(
    session_meta_count: nat,
    rewrite_needed: bool,
    non_root_agent: bool,
) -> bool {
    session_meta_count > 0 && rewrite_needed && !non_root_agent
}

/// Whether a referenced rollout file is repaired (see `referenced_change_kept`).
pub fn referenced_change_is_kept(session_meta_count: usize, rewrite_needed: bool, non_root_agent: bool) -> (b:
    bool)
    ensures
        b == referenced_change_kept(session_meta_count as nat, rewrite_needed, non_root_agent),
{
    session_meta_count > 0 && rewrite_needed && !non_root_agent
}

/// The thread id of a `session_meta` record: its payload's (see
/// `payload_thread_id`), else its own `id`, else its own `session_id`.
pub open spec fn record_thread_id(record: JsonValue, payload: JsonValue) -> Option<Seq<char>> {
    if payload_thread_id(payload) is Some {
        payload_thread_id(payload)
    } else {
        payload_thread_id(record)
    }
}

/// What moving the first-line `session_meta` record of a rollout file gives.
#[derive(Debug)]
pub struct FirstLineRewrite {
    /// The record to write as the first line; `None` keeps the file.
    pub updated: Option<JsonValue>,
    pub rewrite_needed: bool,
    pub thread_id: Option<String>,
    pub session_meta_count: usize,
    pub non_root_agent: bool,
}

/// The provider the first-line record names, or the empty text.
pub open spec fn current_provider(payload: JsonValue) -> Seq<char> {
    match json_str_member(payload, "model_provider"@) {
        Some(p) => p,
        None => seq![],
    }
}

/// Moves the first-line `session_meta` record of a rollout file to
/// `target_provider`. `first` is the record of the first line when that line
/// is not blank and parses as JSON. A file whose first line is no
/// `session_meta` record with an object payload is left as it is; otherwise its
/// record is rewritten unless it already names the target provider.
pub fn rewrite_rollout_first_session_meta_provider(first: Option<JsonValue>, target_provider: &str) -> (r:
    FirstLineRewrite)
    ensures
        match line_payload(first) {
            None => r.updated is None && !r.rewrite_needed && r.thread_id is None
                && r.session_meta_count == 0 && !r.non_root_agent,
            Some(p) => {
                &&& r.session_meta_count == 1
                &&& crate::selection::opt_string_view(r.thread_id) == record_thread_id(first->0, p)
                &&& r.non_root_agent == payload_marks_non_root(p)
                &&& r.rewrite_needed == (current_provider(p) != target_provider@)
                &&& match r.updated {
                    Some(u) => current_provider(p) != target_provider@ && provider_set(
                        first->0,
                        u,
                        target_provider@,
                    ),
                    None => current_provider(p) == target_provider@,
                }
            },
        },
{
    let empty = FirstLineRewrite {
        updated: None,
        rewrite_needed: false,
        thread_id: None,
        session_meta_count: 0,
        non_root_agent: false,
    };
    let record = match first {
        Some(r) => r,
        None => {
            return empty;
        },
    };
    let (thread_id, non_root_agent, same) = match session_meta_payload_of(&record) {
        Some(payload) => {
            let tid = match thread_id_of_payload(payload) {
                Some(t) => Some(t),
                None => thread_id_of_payload(&record),
            };
            let current = match str_member(payload, "model_provider") {
                Some(p) => p,
                None => String::new(),
            };
            (
                tid,
                payload_source_marks_non_root(payload),
                chars_eq(&chars_of(current.as_str()), &chars_of(target_provider)),
            )
        },
        None => {
            return empty;
        },
    };
    if same {
        return FirstLineRewrite {
            updated: None,
            rewrite_needed: false,
            thread_id,
            session_meta_count: 1,
            non_root_agent,
        };
    }
    let updated = with_payload_provider(record, target_provider);
    FirstLineRewrite {
        updated: Some(updated),
        rewrite_needed: true,
        thread_id,
        session_meta_count: 1,
        non_root_agent,
    }
}

} // verus!
