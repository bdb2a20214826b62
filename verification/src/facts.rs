//! What the rollout files of an instance say about its threads: which are
//! subagent threads, which had user input, the workspace each ran in, and which
//! providers' encrypted content they hold.
use vstd::prelude::*;
use crate::json::{json_str_member, str_member, JsonValue};
use crate::messages::ProviderCount;
use crate::order::{sorted_distinct, strictly_sorted};
use crate::providers::lemma_push_contains;
use crate::rollout::{
    line_payload, payload_marks_non_root, payload_source_marks_non_root, payload_thread_id,
    session_meta_payload_of, thread_id_of_payload,
};
use crate::selection::{selection_includes_session, RepairTargetSelection};
use crate::text::{chars_of, contains_infix, has_infix, trim, trim_str};
use crate::threads_sql::contains_name;
use crate::workspace_path::{desktop_workspace_path, opt_view, to_desktop_workspace_path, views};

verus! {

/// A thread a record speaks of: a `session_meta` record with an object payload
/// and a thread id that the selection includes; its id and payload.
pub open spec fn selected_thread(r: Option<JsonValue>, sel: RepairTargetSelection) -> Option<
    (Seq<char>, JsonValue),
> {
    match line_payload(r) {
        Some(p) => match payload_thread_id(p) {
            Some(t) => if selection_includes_session(sel, t) {
                Some((t, p))
            } else {
                None
            },
            None => None,
        },
        None => None,
    }
}

/// The trimmed, non-empty provider a payload names.
pub open spec fn payload_provider(p: JsonValue) -> Option<Seq<char>> {
    match json_str_member(p, "model_provider"@) {
        Some(m) => if trim(m).len() > 0 {
            Some(trim(m))
        } else {
            None
        },
        None => None,
    }
}

/// The workspace a payload's `cwd` names, in desktop form.
pub open spec fn payload_cwd(p: JsonValue) -> Option<Seq<char>> {
    match json_str_member(p, "cwd"@) {
        Some(c) => desktop_workspace_path(c),
        None => None,
    }
}

/// The facts gathered so far: subagent threads, threads with user input,
/// the workspace of each thread (the first one found), and the providers of
/// the current file.
pub open spec fn fact_step(
    f: (Set<Seq<char>>, Set<Seq<char>>, Map<Seq<char>, Seq<char>>, Set<Seq<char>>),
    r: Option<JsonValue>,
    sel: RepairTargetSelection,
    has_user_event: bool,
    projectless: Set<Seq<char>>,
) -> (Set<Seq<char>>, Set<Seq<char>>, Map<Seq<char>, Seq<char>>, Set<Seq<char>>) {
    match selected_thread(r, sel) {
        None => f,
        Some((t, p)) => if payload_marks_non_root(p) {
            (f.0.insert(t), f.1, f.2, f.3)
        } else {
            let providers = match payload_provider(p) {
                Some(m) => f.3.insert(m),
                None => f.3,
            };
            let users = if has_user_event {
                f.1.insert(t)
            } else {
                f.1
            };
            let cwd = if !projectless.contains(t) && !f.2.contains_key(t) && payload_cwd(p) is Some {
                f.2.insert(t, payload_cwd(p)->0)
            } else {
                f.2
            };
            (f.0, users, cwd, providers)
        },
    }
}

/// The facts after the records of a file, in order.
pub open spec fn facts_after(
    f: (Set<Seq<char>>, Set<Seq<char>>, Map<Seq<char>, Seq<char>>, Set<Seq<char>>),
    recs: Seq<Option<JsonValue>>,
    sel: RepairTargetSelection,
    has_user_event: bool,
    projectless: Set<Seq<char>>,
) -> (Set<Seq<char>>, Set<Seq<char>>, Map<Seq<char>, Seq<char>>, Set<Seq<char>>)
    decreases recs.len(),
{
    if recs.len() == 0 {
        f
    } else {
        fact_step(
            facts_after(f, recs.drop_last(), sel, has_user_event, projectless),
            recs.last(),
            sel,
            has_user_event,
            projectless,
        )
    }
}

/// Workspace pairs taken by the views of their strings, as a map (keys distinct).
pub open spec fn pair_map(pairs: Seq<(String, String)>) -> Map<Seq<char>, Seq<char>>
    decreases pairs.len(),
{
    if pairs.len() == 0 {
        Map::empty()
    } else {
        pair_map(pairs.drop_last()).insert(pairs.last().0@, pairs.last().1@)
    }
}

/// The keys of workspace pairs.
pub open spec fn pair_keys(pairs: Seq<(String, String)>) -> Seq<Seq<char>> {
    pairs.map_values(|p: (String, String)| p.0@)
}

/// What the rollout files of an instance say about its threads.
#[derive(Debug)]
pub struct RolloutThreadFacts {
    pub subagent_thread_ids: Vec<String>,
    pub user_event_thread_ids: Vec<String>,
    pub cwd_by_thread_id: Vec<(String, String)>,
    /// One entry per file and provider of encrypted content it holds.
    pub encrypted_content_counts: Vec<ProviderCount>,
}

/// The workspace pairs have distinct keys.
pub open spec fn facts_wf(f: RolloutThreadFacts) -> bool {
    pair_keys(f.cwd_by_thread_id@).no_duplicates()
}

/// The facts taken as sets and a map.
pub open spec fn facts_view(f: RolloutThreadFacts) -> (Set<Seq<char>>, Set<Seq<char>>, Map<Seq<char>, Seq<char>>) {
    (
        views(f.subagent_thread_ids@).to_set(),
        views(f.user_event_thread_ids@).to_set(),
        pair_map(f.cwd_by_thread_id@),
    )
}

proof fn lemma_pair_map_keys(pairs: Seq<(String, String)>)
    ensures
        forall|k: Seq<char>| pair_map(pairs).contains_key(k) <==> pair_keys(pairs).contains(k),
    decreases pairs.len(),
{
    if pairs.len() > 0 {
        lemma_pair_map_keys(pairs.drop_last());
        assert(pair_keys(pairs) =~= pair_keys(pairs.drop_last()).push(pairs.last().0@));
        assert forall|k: Seq<char>| pair_map(pairs).contains_key(k) <==> pair_keys(pairs).contains(
            k,
        ) by {
            lemma_push_contains(pair_keys(pairs.drop_last()), pairs.last().0@, k);
        }
    }
}

/// The text holds a user message or user input record.
pub open spec fn holds_user_event(content: Seq<char>) -> bool {
    has_infix(content, "\"user_message\""@) || has_infix(content, "\"user_input\""@)
}

/// The text holds encrypted content.
pub open spec fn holds_encrypted_content(content: Seq<char>) -> bool {
    has_infix(content, "encrypted_content"@)
}

proof fn lemma_to_set_push(s: Seq<Seq<char>>, y: Seq<char>, x: Seq<char>)
    ensures
        s.push(y).to_set().contains(x) <==> (s.to_set().contains(x) || x == y),
        s.to_set().contains(x) <==> s.contains(x),
{
    lemma_push_contains(s, y, x);
    assert(s.push(y).to_set().contains(x) == s.push(y).contains(x));
    assert(s.to_set().contains(x) == s.contains(x));
}

fn insert_string(set: &mut Vec<String>, s: &String)
    ensures
        views(final(set)@).to_set() == views(old(set)@).to_set().insert(s@),
{
    let ghost before = views(set@);
    set.push(s.clone());
    proof {
        assert(views(set@) =~= before.push(s@));
        assert forall|x: Seq<char>| views(set@).to_set().contains(x) <==> before.to_set().insert(
            s@,
        ).contains(x) by {
            lemma_push_contains(before, s@, x);
        }
        assert(views(set@).to_set() =~= before.to_set().insert(s@));
    }
}

fn find_pair(pairs: &Vec<(String, String)>, key: &String) -> (b: bool)
    ensures
        b == pair_keys(pairs@).contains(key@),
{
    let mut i: usize = 0;
    while i < pairs.len()
        invariant
            i <= pairs.len(),
            forall|j: int| 0 <= j < i ==> pair_keys(pairs@)[j] != key@,
        decreases pairs.len() - i,
    {
        if pairs[i].0 == *key {
            assert(pair_keys(pairs@)[i as int] == key@);
            return true;
        }
        i = i + 1;
    }
    false
}

impl RolloutThreadFacts {
    /// No facts yet.
    pub fn new() -> (f: Self)
        ensures
            facts_wf(f),
            facts_view(f) == (Set::<Seq<char>>::empty(), Set::<Seq<char>>::empty(), Map::<
                Seq<char>,
                Seq<char>,
            >::empty()),
            f.encrypted_content_counts@.len() == 0,
            f.subagent_thread_ids@.len() == 0,
            f.user_event_thread_ids@.len() == 0,
            f.cwd_by_thread_id@.len() == 0,
    {
        let f = RolloutThreadFacts {
            subagent_thread_ids: Vec::new(),
            user_event_thread_ids: Vec::new(),
            cwd_by_thread_id: Vec::new(),
            encrypted_content_counts: Vec::new(),
        };
        proof {
            assert(views(f.subagent_thread_ids@).to_set() =~= Set::<Seq<char>>::empty());
            assert(views(f.user_event_thread_ids@).to_set() =~= Set::<Seq<char>>::empty());
        }
        f
    }

    /// Adds what one rollout file says: `content` is its text and `records`
    /// the record of each of its lines (trimmed) that parses as JSON;
    /// `projectless` lists the threads the global state keeps without a project.
    /// Each file that holds encrypted content adds one count to each provider
    /// its included, non-subagent `session_meta` records name.
    pub fn add_file(
        &mut self,
        content: &str,
        records: &Vec<Option<JsonValue>>,
        selection: &RepairTargetSelection,
        projectless: &Vec<String>,
    )
        requires
            facts_wf(*old(self)),
        ensures
            facts_wf(*final(self)),
            ({
                let after = facts_after(
                    (
                        facts_view(*old(self)).0,
                        facts_view(*old(self)).1,
                        facts_view(*old(self)).2,
                        Set::<Seq<char>>::empty(),
                    ),
                    records@,
                    *selection,
                    holds_user_event(content@),
                    views(projectless@).to_set(),
                );
                &&& facts_view(*final(self)) == (after.0, after.1, after.2)
                &&& final(self).encrypted_content_counts@.len() >= old(
                    self,
                ).encrypted_content_counts@.len()
                &&& final(self).encrypted_content_counts@.subrange(
                    0,
                    old(self).encrypted_content_counts@.len() as int,
                ) == old(self).encrypted_content_counts@
                &&& forall|i: int|
                    old(self).encrypted_content_counts@.len() <= i
                        < final(self).encrypted_content_counts@.len() ==> (
                    #[trigger] final(self).encrypted_content_counts@[i]).count == 1
                &&& if holds_encrypted_content(content@) {
                    views(
                        final(self).encrypted_content_counts@.subrange(
                            old(self).encrypted_content_counts@.len() as int,
                            final(self).encrypted_content_counts@.len() as int,
                        ).map_values(|c: ProviderCount| c.provider),
                    ).to_set() == after.3
                } else {
                    final(self).encrypted_content_counts@ == old(self).encrypted_content_counts@
                }
            }),
    {
        let text = chars_of(content);
        let has_user_event = contains_infix(&text, &chars_of("\"user_message\"")) || contains_infix(
            &text,
            &chars_of("\"user_input\""),
        );
        let has_encrypted = contains_infix(&text, &chars_of("encrypted_content"));
        let ghost start = (
            facts_view(*self).0,
            facts_view(*self).1,
            facts_view(*self).2,
            Set::<Seq<char>>::empty(),
        );
        let ghost sel = *selection;
        let ghost pl = views(projectless@).to_set();
        let ghost old_counts = self.encrypted_content_counts@;
        let mut providers: Vec<String> = Vec::new();
        let mut k: usize = 0;
        proof {
            assert(views(providers@).to_set() =~= Set::<Seq<char>>::empty());
            assert(records@.subrange(0, 0) =~= Seq::<Option<JsonValue>>::empty());
        }
        while k < records.len()
            invariant
                k <= records.len(),
                facts_wf(*self),
                sel == *selection,
                pl == views(projectless@).to_set(),
                self.encrypted_content_counts@ == old_counts,
                ({
                    let f = facts_after(
                        start,
                        records@.subrange(0, k as int),
                        sel,
                        has_user_event,
                        pl,
                    );
                    &&& facts_view(*self) == (f.0, f.1, f.2)
                    &&& views(providers@).to_set() == f.3
                }),
            decreases records.len() - k,
        {
            proof {
                assert(records@.subrange(0, k + 1).drop_last() =~= records@.subrange(0, k as int));
                assert(records@.subrange(0, k + 1).last() == records@[k as int]);
            }
            match &records[k] {
                Some(record) => match session_meta_payload_of(record) {
                    Some(payload) => match thread_id_of_payload(payload) {
                        Some(tid) => {
                            if selection.includes_session_id(tid.as_str()) {
                                if payload_source_marks_non_root(payload) {
                                    insert_string(&mut self.subagent_thread_ids, &tid);
                                } else {
                                    match str_member(payload, "model_provider") {
                                        Some(m) => {
                                            let t = trim_str(m.as_str());
                                            if !t.as_str().is_empty() {
                                                insert_string(&mut providers, &t);
                                            }
                                        },
                                        None => {},
                                    }
                                    if has_user_event {
                                        insert_string(&mut self.user_event_thread_ids, &tid);
                                    }
                                    if !contains_name(projectless, tid.as_str()) {
                                        let known = find_pair(&self.cwd_by_thread_id, &tid);
                                        if !known {
                                            match str_member(payload, "cwd") {
                                                Some(c) => match to_desktop_workspace_path(
                                                    c.as_str(),
                                                ) {
                                                    Some(w) => {
                                                        let ghost before = self.cwd_by_thread_id@;
                                                        self.cwd_by_thread_id.push((tid.clone(), w));
                                                        proof {
                                                            assert(self.cwd_by_thread_id@.drop_last()
                                                                == before);
                                                            assert(pair_keys(self.cwd_by_thread_id@)
                                                                =~= pair_keys(before).push(tid@));
                                                            lemma_pair_map_keys(before);
                                                        }
                                                    },
                                                    None => {},
                                                },
                                                None => {},
                                            }
                                        } else {
                                            proof {
                                                lemma_pair_map_keys(self.cwd_by_thread_id@);
                                            }
                                        }
                                    } else {
                                    }
                                }
                            }
                        },
                        None => {},
                    },
                    None => {},
                },
                None => {},
            }
            proof {
                lemma_pair_map_keys(self.cwd_by_thread_id@);
            }
            k = k + 1;
        }
        proof {
            assert(records@.subrange(0, records.len() as int) =~= records@);
        }
        let ghost mid = *self;
        if has_encrypted {
            let mut j: usize = 0;
            while j < providers.len()
                invariant
                    j <= providers.len(),
                    self.subagent_thread_ids == mid.subagent_thread_ids,
                    self.user_event_thread_ids == mid.user_event_thread_ids,
                    self.cwd_by_thread_id == mid.cwd_by_thread_id,
                    self.encrypted_content_counts@.len() == old_counts.len() + j,
                    self.encrypted_content_counts@.subrange(0, old_counts.len() as int) == old_counts,
                    forall|i: int|
                        old_counts.len() <= i < self.encrypted_content_counts@.len() ==> (
                        #[trigger] self.encrypted_content_counts@[i]).count == 1,
                    views(
                        self.encrypted_content_counts@.subrange(
                            old_counts.len() as int,
                            self.encrypted_content_counts@.len() as int,
                        ).map_values(|c: ProviderCount| c.provider),
                    ) == views(providers@.subrange(0, j as int)),
                decreases providers.len() - j,
            {
                let ghost before = self.encrypted_content_counts@;
                self.encrypted_content_counts.push(
                    ProviderCount { provider: providers[j].clone(), count: 1 },
                );
                proof {
                    let now = self.encrypted_content_counts@;
                    assert(now.subrange(0, old_counts.len() as int) =~= before.subrange(
                        0,
                        old_counts.len() as int,
                    ));
                    assert(now.subrange(old_counts.len() as int, now.len() as int) =~= before.subrange(
                        old_counts.len() as int,
                        before.len() as int,
                    ).push(now.last()));
                    assert(views(providers@.subrange(0, j + 1)) =~= views(
                        providers@.subrange(0, j as int),
                    ).push(providers@[j as int]@));
                    assert(views(
                        now.subrange(old_counts.len() as int, now.len() as int).map_values(
                            |c: ProviderCount| c.provider,
                        ),
                    ) =~= views(
                        before.subrange(old_counts.len() as int, before.len() as int).map_values(
                            |c: ProviderCount| c.provider,
                        ),
                    ).push(providers@[j as int]@));
                }
                j = j + 1;
            }
            proof {
                assert(providers@.subrange(0, providers.len() as int) =~= providers@);
            }
        } else {
            proof {
                assert(self.encrypted_content_counts@.subrange(0, old_counts.len() as int)
                    =~= old_counts);
            }
        }
    }

    /// Completes the facts with the subagent threads the databases know of:
    /// those and the subagent threads found in rollout files have no user
    /// input and no workspace recorded. The thread lists end up in ascending
    /// order, each thread once.
    pub fn finish(&mut self, non_root_ids: &Vec<String>)
        requires
            facts_wf(*old(self)),
        ensures
            facts_wf(*final(self)),
            facts_view(*final(self)).0 == facts_view(*old(self)).0.union(
                views(non_root_ids@).to_set(),
            ),
            facts_view(*final(self)).1 == facts_view(*old(self)).1.difference(
                facts_view(*final(self)).0,
            ),
            facts_view(*final(self)).2 == facts_view(*old(self)).2.remove_keys(
                facts_view(*final(self)).0,
            ),
            final(self).encrypted_content_counts == old(self).encrypted_content_counts,
            strictly_sorted(views(final(self).subagent_thread_ids@)),
            strictly_sorted(views(final(self).user_event_thread_ids@)),
    {
        let ghost start = facts_view(*self);
        let mut k: usize = 0;
        while k < non_root_ids.len()
            invariant
                k <= non_root_ids.len(),
                views(self.subagent_thread_ids@).to_set() == start.0.union(
                    views(non_root_ids@).subrange(0, k as int).to_set(),
                ),
                self.user_event_thread_ids == old(self).user_event_thread_ids,
                self.cwd_by_thread_id == old(self).cwd_by_thread_id,
                self.encrypted_content_counts == old(self).encrypted_content_counts,
            decreases non_root_ids.len() - k,
        {
            insert_string(&mut self.subagent_thread_ids, &non_root_ids[k]);
            proof {
                assert forall|x: Seq<char>| views(non_root_ids@).subrange(0, k + 1).to_set().contains(
                    x,
                ) <==> views(non_root_ids@).subrange(0, k as int).to_set().insert(
                    non_root_ids@[k as int]@,
                ).contains(x) by {
                    assert(views(non_root_ids@).subrange(0, k + 1) =~= views(non_root_ids@).subrange(
                        0,
                        k as int,
                    ).push(non_root_ids@[k as int]@));
                    lemma_to_set_push(
                        views(non_root_ids@).subrange(0, k as int),
                        non_root_ids@[k as int]@,
                        x,
                    );
                }
                assert(views(non_root_ids@).subrange(0, k + 1).to_set() =~= views(
                    non_root_ids@,
                ).subrange(0, k as int).to_set().insert(non_root_ids@[k as int]@));
                assert(views(self.subagent_thread_ids@).to_set() =~= start.0.union(
                    views(non_root_ids@).subrange(0, k + 1).to_set(),
                ));
            }
            k = k + 1;
        }
        proof {
            assert(views(non_root_ids@).subrange(0, non_root_ids.len() as int) =~= views(
                non_root_ids@,
            ));
        }
        let ghost subs = views(self.subagent_thread_ids@).to_set();
        let mut users: Vec<String> = Vec::new();
        let mut u: usize = 0;
        while u < self.user_event_thread_ids.len()
            invariant
                u <= self.user_event_thread_ids.len(),
                subs == views(self.subagent_thread_ids@).to_set(),
                views(users@).to_set() == views(self.user_event_thread_ids@).subrange(
                    0,
                    u as int,
                ).to_set().difference(subs),
            decreases self.user_event_thread_ids.len() - u,
        {
            let id = &self.user_event_thread_ids[u];
            let ghost before = views(users@);
            let drop = contains_name(&self.subagent_thread_ids, id.as_str());
            if !drop {
                users.push(id.clone());
            }
            proof {
                let pre = views(self.user_event_thread_ids@).subrange(0, u as int);
                assert(views(self.user_event_thread_ids@).subrange(0, u + 1) =~= pre.push(id@));
                assert(subs.contains(id@) == drop);
                assert forall|x: Seq<char>| views(users@).to_set().contains(x) <==> views(
                    self.user_event_thread_ids@,
                ).subrange(0, u + 1).to_set().difference(subs).contains(x) by {
                    lemma_to_set_push(pre, id@, x);
                    lemma_to_set_push(before, id@, x);
                    if !drop {
                        assert(views(users@) =~= before.push(id@));
                    } else {
                        assert(views(users@) == before);
                    }
                }
                assert(views(users@).to_set() =~= views(self.user_event_thread_ids@).subrange(
                    0,
                    u + 1,
                ).to_set().difference(subs));
            }
            u = u + 1;
        }
        proof {
            assert(views(self.user_event_thread_ids@).subrange(
                0,
                self.user_event_thread_ids.len() as int,
            ) =~= views(self.user_event_thread_ids@));
        }
        let mut cwd: Vec<(String, String)> = Vec::new();
        let mut c: usize = 0;
        while c < self.cwd_by_thread_id.len()
            invariant
                c <= self.cwd_by_thread_id.len(),
                subs == views(self.subagent_thread_ids@).to_set(),
                facts_wf(*self),
                pair_map(cwd@) == pair_map(self.cwd_by_thread_id@.subrange(0, c as int)).remove_keys(
                    subs,
                ),
                pair_keys(cwd@).no_duplicates(),
                forall|x: Seq<char>|
                    pair_keys(cwd@).contains(x) ==> pair_keys(
                        self.cwd_by_thread_id@.subrange(0, c as int),
                    ).contains(x),
            decreases self.cwd_by_thread_id.len() - c,
        {
            let key = &self.cwd_by_thread_id[c].0;
            let drop = contains_name(&self.subagent_thread_ids, key.as_str());
            let ghost before = cwd@;
            let ghost pre = self.cwd_by_thread_id@.subrange(0, c as int);
            proof {
                assert(self.cwd_by_thread_id@.subrange(0, c + 1).drop_last() =~= pre);
                assert(pair_keys(self.cwd_by_thread_id@.subrange(0, c + 1)) =~= pair_keys(pre).push(
                    key@,
                ));
                assert(!pair_keys(pre).contains(key@)) by {
                    if pair_keys(pre).contains(key@) {
                        let j = choose|j: int| 0 <= j < pair_keys(pre).len() && pair_keys(pre)[j] == key@;
                        assert(pair_keys(self.cwd_by_thread_id@)[j] == pair_keys(self.cwd_by_thread_id@)[c as int]);
                    }
                }
            }
            if !drop {
                cwd.push((key.clone(), self.cwd_by_thread_id[c].1.clone()));
                proof {
                    assert(cwd@.drop_last() == before);
                    assert(pair_keys(cwd@) =~= pair_keys(before).push(key@));
                    assert forall|x: Seq<char>| pair_keys(cwd@).contains(x) implies pair_keys(
                        self.cwd_by_thread_id@.subrange(0, c + 1),
                    ).contains(x) by {
                        lemma_push_contains(pair_keys(before), key@, x);
                        lemma_push_contains(pair_keys(pre), key@, x);
                    }
                    assert(!pair_keys(before).contains(key@));
                    assert(pair_keys(cwd@).no_duplicates()) by {
                        assert forall|i: int, j: int|
                            0 <= i < j < pair_keys(cwd@).len() implies pair_keys(cwd@)[i]
                            != pair_keys(cwd@)[j] by {
                            if j == pair_keys(cwd@).len() - 1 {
                                assert(pair_keys(before)[i] == pair_keys(cwd@)[i]);
                            }
                        }
                    }
                }
            } else {
                proof {
                    assert forall|x: Seq<char>| pair_keys(cwd@).contains(x) implies pair_keys(
                        self.cwd_by_thread_id@.subrange(0, c + 1),
                    ).contains(x) by {
                        lemma_push_contains(pair_keys(pre), key@, x);
                    }
                }
            }
            proof {
                assert(pair_map(self.cwd_by_thread_id@.subrange(0, c + 1)) == pair_map(pre).insert(
                    key@,
                    self.cwd_by_thread_id@[c as int].1@,
                ));
                assert(pair_map(cwd@) =~= pair_map(self.cwd_by_thread_id@.subrange(0, c + 1)).remove_keys(subs));
            }
            c = c + 1;
        }
        proof {
            assert(self.cwd_by_thread_id@.subrange(0, self.cwd_by_thread_id.len() as int)
                =~= self.cwd_by_thread_id@);
        }
        self.user_event_thread_ids = sorted_distinct(&users);
        self.cwd_by_thread_id = cwd;
        self.subagent_thread_ids = sorted_distinct(&self.subagent_thread_ids);
    }
}

} // verus!
