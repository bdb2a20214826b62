//! Which provider, sessions and instances a repair run targets, and the
//! rules a provider id has to meet.
use vstd::prelude::*;
use crate::text::{chars_eq, chars_of, trim, trim_str, utf8_len, utf8_len_of, utf8_width};
use crate::workspace_path::views;

verus! {

/// A control character (`char::is_control`: general category Cc).
pub open spec fn is_control(c: char) -> bool {
    (c as u32) <= 0x1f || (0x7f <= (c as u32) && (c as u32) <= 0x9f)
}

/// Some character of `s` is a control character.
pub open spec fn has_control(s: Seq<char>) -> bool {
    exists|i: int| 0 <= i < s.len() && is_control(#[trigger] s[i])
}

/// Why a provider id is refused, or `None` when it is accepted: after trimming
/// it must be non-empty, at most 200 bytes long and free of control characters.
pub open spec fn provider_id_error(provider_id: Seq<char>) -> Option<Seq<char>> {
    let t = trim(provider_id);
    if t.len() == 0 {
        Some("provider 不能为空"@)
    } else if utf8_len(t) > 200 || has_control(t) {
        Some("provider 包含非法字符"@)
    } else {
        None
    }
}

proof fn lemma_utf8_len_at_least_len(s: Seq<char>)
    ensures
        utf8_len(s) >= s.len(),
    decreases s.len(),
{
    if s.len() > 0 {
        lemma_utf8_len_at_least_len(s.drop_last());
    }
}

fn is_control_char(c: char) -> (b: bool)
    ensures
        b == is_control(c),
{
    (c as u32) <= 0x1f || (0x7f <= (c as u32) && (c as u32) <= 0x9f)
}

/// Checks a provider id: after trimming it must be non-empty, at most 200
/// bytes of UTF-8 and free of control characters.
pub fn validate_provider_id(provider_id: &str) -> (r: Result<(), String>)
    ensures
        r is Ok <==> provider_id_error(provider_id@) is None,
        r matches Err(e) ==> provider_id_error(provider_id@) == Some(e@),
{
    let trimmed = trim_str(provider_id);
    let t = chars_of(trimmed.as_str());
    if t.len() == 0 {
        return Err("provider 不能为空".to_string());
    }
    let too_long = if t.len() > 200 {
        proof {
            lemma_utf8_len_at_least_len(t@);
        }
        true
    } else {
        utf8_len_of(&t) > 200
    };
    let mut control = false;
    let mut i: usize = 0;
    while i < t.len()
        invariant
            i <= t.len(),
            control == (exists|j: int| 0 <= j < i && is_control(#[trigger] t@[j])),
        decreases t.len() - i,
    {
        if is_control_char(t[i]) {
            control = true;
        }
        i = i + 1;
    }
    if too_long || control {
        return Err("provider 包含非法字符".to_string());
    }
    Ok(())
}

/// Whether a provider id found in a config file or database may be offered.
pub fn is_valid_provider_id_for_discovery(provider_id: &str) -> (b: bool)
    ensures
        b == (provider_id_error(provider_id@) is None),
{
    validate_provider_id(provider_id).is_ok()
}

/// The provider, sessions and instances a repair run is limited to; `None`
/// means no limit. The id lists hold trimmed, non-empty, distinct ids.
#[derive(Debug, Clone)]
pub struct RepairTargetSelection {
    pub target_provider: Option<String>,
    pub session_ids: Option<Vec<String>>,
    pub instance_ids: Option<Vec<String>>,
}

/// The ids of an optional id list, as a set.
pub open spec fn id_set(ids: Option<Vec<String>>) -> Option<Set<Seq<char>>> {
    match ids {
        None => None,
        Some(v) => Some(views(v@).to_set()),
    }
}

/// The trimmed, non-empty values of the first `n` inputs.
pub open spec fn cleaned_ids_upto(values: Seq<Seq<char>>, n: int) -> Set<Seq<char>> {
    Set::new(|t: Seq<char>| t.len() > 0 && exists|j: int| 0 <= j < n && trim(values[j]) == t)
}

/// The trimmed, non-empty values of an optional list of inputs.
pub open spec fn cleaned_ids(values: Option<Vec<String>>) -> Set<Seq<char>> {
    match values {
        None => Set::empty(),
        Some(v) => cleaned_ids_upto(views(v@), v.len() as int),
    }
}

/// The limit that a list of inputs gives: none when no non-blank id is given.
pub open spec fn id_limit(values: Option<Vec<String>>) -> Option<Set<Seq<char>>> {
    if cleaned_ids(values).len() == 0 && cleaned_ids(values).finite() {
        None
    } else {
        Some(cleaned_ids(values))
    }
}

/// The trimmed provider override; a blank one counts as none.
pub open spec fn provider_override(target_provider: Option<String>) -> Option<Seq<char>> {
    match target_provider {
        None => None,
        Some(p) => if trim(p@).len() == 0 {
            None
        } else {
            Some(trim(p@))
        },
    }
}

/// The selection is well formed: its id lists are non-empty and hold no repeats.
pub open spec fn selection_wf(s: RepairTargetSelection) -> bool {
    &&& (s.session_ids matches Some(v) ==> v.len() > 0 && views(v@).no_duplicates())
    &&& (s.instance_ids matches Some(v) ==> v.len() > 0 && views(v@).no_duplicates())
}

/// Whether a session id is in the selection (every id is when there is no limit).
pub open spec fn selection_includes_session(s: RepairTargetSelection, id: Seq<char>) -> bool {
    match s.session_ids {
        None => true,
        Some(v) => views(v@).contains(id),
    }
}

/// Whether an instance id is in the selection.
pub open spec fn selection_includes_instance(s: RepairTargetSelection, id: Seq<char>) -> bool {
    match s.instance_ids {
        None => true,
        Some(v) => views(v@).contains(id),
    }
}

fn contains_string(v: &Vec<String>, id: &Vec<char>) -> (b: bool)
    ensures
        b == views(v@).contains(id@),
{
    let ghost vs = views(v@);
    let mut i: usize = 0;
    while i < v.len()
        invariant
            i <= v.len(),
            vs == views(v@),
            forall|j: int| 0 <= j < i ==> vs[j] != id@,
        decreases v.len() - i,
    {
        let c = chars_of(v[i].as_str());
        if chars_eq(&c, id) {
            assert(vs[i as int] == id@);
            return true;
        }
        i = i + 1;
    }
    false
}

/// The distinct trimmed, non-empty values of `values`, in first-seen order.
fn clean_id_list(values: Option<Vec<String>>) -> (r: Option<Vec<String>>)
    ensures
        id_set(r) == id_limit(values),
        r matches Some(v) ==> v.len() > 0 && views(v@).no_duplicates(),
{
    let input = match values {
        None => {
            assert(cleaned_ids(values) =~= Set::empty());
            return None;
        },
        Some(v) => v,
    };
    let ghost vs = views(input@);
    let mut out: Vec<String> = Vec::new();
    let mut i: usize = 0;
    while i < input.len()
        invariant
            i <= input.len(),
            vs == views(input@),
            views(out@).to_set() == cleaned_ids_upto(vs, i as int),
            views(out@).no_duplicates(),
            out.len() <= i,
        decreases input.len() - i,
    {
        let t = trim_str(input[i].as_str());
        let tc = chars_of(t.as_str());
        assert(vs[i as int] == input@[i as int]@);
        if tc.len() > 0 && !contains_string(&out, &tc) {
            proof {
                assert(views(out@.push(t)) == views(out@).push(t@));
                views(out@).lemma_push_to_set_commute(t@);
                assert(cleaned_ids_upto(vs, i + 1) =~= cleaned_ids_upto(vs, i as int).insert(t@));
            }
            out.push(t);
        } else {
            proof {
                if tc.len() > 0 {
                    assert(views(out@).to_set().contains(t@));
                }
                assert(cleaned_ids_upto(vs, i + 1) =~= cleaned_ids_upto(vs, i as int));
            }
        }
        i = i + 1;
    }
    proof {
        views(out@).unique_seq_to_set();
    }
    if out.len() == 0 {
        assert(views(out@).to_set() =~= Set::empty());
        None
    } else {
        assert(views(out@).to_set().contains(views(out@)[0]));
        Some(out)
    }
}

impl Default for RepairTargetSelection {
    fn default() -> (r: Self)
        ensures
            r.target_provider is None,
            r.session_ids is None,
            r.instance_ids is None,
    {
        RepairTargetSelection { target_provider: None, session_ids: None, instance_ids: None }
    }
}

impl RepairTargetSelection {
    /// Builds a selection from user input: the provider override is trimmed
    /// (blank means none) and must pass `validate_provider_id`; the id lists
    /// are trimmed, blanks dropped and repeats merged, and an empty list means
    /// no limit.
    pub fn from_inputs(
        target_provider: Option<String>,
        session_ids: Option<Vec<String>>,
        instance_ids: Option<Vec<String>>,
    ) -> (r: Result<Self, String>)
        ensures
            r is Ok <==> (provider_override(target_provider) matches Some(p) ==> provider_id_error(
                p,
            ) is None),
            r matches Err(e) ==> provider_override(target_provider) matches Some(p)
                && provider_id_error(p) == Some(e@),
            r matches Ok(s) ==> {
                &&& opt_string_view(s.target_provider) == provider_override(target_provider)
                &&& id_set(s.session_ids) == id_limit(session_ids)
                &&& id_set(s.instance_ids) == id_limit(instance_ids)
                &&& selection_wf(s)
            },
    {
        let provider = match target_provider {
            None => None,
            Some(p) => {
                let t = trim_str(p.as_str());
                let tc = chars_of(t.as_str());
                if tc.len() == 0 {
                    None
                } else {
                    Some(t)
                }
            },
        };
        if let Some(p) = &provider {
            proof {
                assert(trim(trim(target_provider->0@)) == trim(target_provider->0@)) by {
                    lemma_trim_idempotent(target_provider->0@);
                }
            }
            validate_provider_id(p.as_str())?;
        }
        let sessions = clean_id_list(session_ids);
        let instances = clean_id_list(instance_ids);
        Ok(RepairTargetSelection { target_provider: provider, session_ids: sessions, instance_ids: instances })
    }

    /// The provider to repair towards: the override if there is one, otherwise
    /// what `read_configured` reports (the provider the instance is configured for).
    pub fn target_provider_for<F: FnOnce() -> Result<String, String>>(
        &self,
        read_configured: F,
    ) -> (r: Result<String, String>)
        requires
            self.target_provider is None ==> call_requires(read_configured, ()),
        ensures
            self.target_provider matches Some(p) ==> r matches Ok(q) && q@ == p@,
            self.target_provider is None ==> call_ensures(read_configured, (), r),
    {
        match self.target_provider.as_ref() {
            Some(provider) => Ok(provider.clone()),
            None => read_configured(),
        }
    }

    /// Whether a session is included (all are when there is no session limit).
    pub fn includes_session_id(&self, session_id: &str) -> (b: bool)
        ensures
            b == selection_includes_session(*self, session_id@),
    {
        match &self.session_ids {
            None => true,
            Some(ids) => contains_string(ids, &chars_of(session_id)),
        }
    }

    /// Whether an instance is included (all are when there is no instance limit).
    pub fn includes_instance_id(&self, instance_id: &str) -> (b: bool)
        ensures
            b == selection_includes_instance(*self, instance_id@),
    {
        match &self.instance_ids {
            None => true,
            Some(ids) => contains_string(ids, &chars_of(instance_id)),
        }
    }

    /// Whether the run is limited to some sessions.
    pub fn has_session_filter(&self) -> (b: bool)
        ensures
            b == self.session_ids is Some,
    {
        self.session_ids.is_some()
    }

    /// The session limit, if any.
    pub fn session_ids(&self) -> (r: Option<&Vec<String>>)
        ensures
            r matches Some(v) ==> self.session_ids == Some(*v),
            r is None <==> self.session_ids is None,
    {
        self.session_ids.as_ref()
    }
}

/// The view of an optional string.
pub open spec fn opt_string_view(o: Option<String>) -> Option<Seq<char>> {
    match o {
        Some(s) => Some(s@),
        None => None,
    }
}

/// Trimming twice is trimming once.
pub proof fn lemma_trim_idempotent(s: Seq<char>)
    ensures
        trim(trim(s)) == trim(s),
{
    lemma_trim_start_of_trimmed(s);
    lemma_trim_end_of_trimmed(crate::text::trim_start(s));
}

proof fn lemma_trim_start_fixed(s: Seq<char>)
    ensures
        crate::text::trim_start(crate::text::trim_start(s)) == crate::text::trim_start(s),
    decreases s.len(),
{
    if s.len() > 0 && crate::text::is_ws(s[0]) {
        lemma_trim_start_fixed(s.drop_first());
    }
}

proof fn lemma_trim_end_fixed(s: Seq<char>)
    ensures
        crate::text::trim_end(crate::text::trim_end(s)) == crate::text::trim_end(s),
    decreases s.len(),
{
    if s.len() > 0 && crate::text::is_ws(s.last()) {
        lemma_trim_end_fixed(s.drop_last());
    }
}

/// Trimming the end of a sequence that does not start with white space gives
/// one that does not start with white space either.
proof fn lemma_trim_end_keeps_start(s: Seq<char>)
    requires
        !(s.len() > 0 && crate::text::is_ws(s[0])),
    ensures
        crate::text::trim_start(crate::text::trim_end(s)) == crate::text::trim_end(s),
    decreases s.len(),
{
    if s.len() > 0 && crate::text::is_ws(s.last()) {
        if s.len() > 1 {
            assert(s.drop_last()[0] == s[0]);
        }
        lemma_trim_end_keeps_start(s.drop_last());
    }
}

proof fn lemma_trim_start_of_trimmed(s: Seq<char>)
    ensures
        crate::text::trim_start(trim(s)) == trim(s),
    decreases s.len(),
{
    lemma_trim_start_no_ws(s);
    lemma_trim_end_keeps_start(crate::text::trim_start(s));
}

proof fn lemma_trim_start_no_ws(s: Seq<char>)
    ensures
        !(crate::text::trim_start(s).len() > 0 && crate::text::is_ws(crate::text::trim_start(s)[0])),
    decreases s.len(),
{
    if s.len() > 0 && crate::text::is_ws(s[0]) {
        lemma_trim_start_no_ws(s.drop_first());
    }
}

proof fn lemma_trim_end_of_trimmed(t: Seq<char>)
    ensures
        crate::text::trim_end(crate::text::trim_end(t)) == crate::text::trim_end(t),
{
    lemma_trim_end_fixed(t);
}

} // verus!
