//! The provider each instance's `config.toml` selects, the providers a repair
//! can target (as the settings page lists them), and the instances it can run on.
use vstd::prelude::*;
use crate::order::{sorted_distinct, sorted_of};
use crate::run::{default_provider_id, CodexSyncInstance};
use crate::selection::{is_valid_provider_id_for_discovery, provider_id_error};
use crate::text::{chars_eq, chars_of, push_str, trim, trim_str};
use crate::workspace_path::views;

verus! {

/// The parts of an instance's `config.toml` that name providers.
#[derive(Debug, Clone)]
pub struct CodexConfigProviders {
    /// The top-level `model_provider` string, where there is one.
    pub model_provider: Option<String>,
    /// The keys of the `[model_providers]` table, in the file's order.
    pub model_provider_ids: Vec<String>,
}

/// What reading an instance's `config.toml` gave.
#[derive(Debug)]
pub enum CodexConfigRead {
    /// There is no config file.
    Missing,
    /// The file exists but could not be read; the reason.
    ReadFailed(String),
    /// The file's text, and what parsing it gave (the parser's error text on failure).
    Loaded(String, Result<CodexConfigProviders, String>),
}

/// A string result taken by the views of its strings.
pub open spec fn string_result_view(r: Result<String, String>) -> Result<Seq<char>, Seq<char>> {
    match r {
        Ok(s) => Ok(s@),
        Err(e) => Err(e@),
    }
}

/// The error text for a config file that could not be used.
pub open spec fn config_error(action: Seq<char>, config_path: Seq<char>, reason: Seq<char>) -> Seq<
    char,
> {
    action + " ("@ + config_path + "): "@ + reason
}

/// The provider a config selects: its trimmed `model_provider` when that is
/// non-empty, else the default provider. A missing or blank file selects the
/// default; a file that cannot be read or parsed is an error.
pub open spec fn configured_target_provider(config_path: Seq<char>, config: CodexConfigRead) -> Result<
    Seq<char>,
    Seq<char>,
> {
    match config {
        CodexConfigRead::Missing => Ok(default_provider_id()),
        CodexConfigRead::ReadFailed(e) => Err(
            config_error("读取 config.toml 失败"@, config_path, e@),
        ),
        CodexConfigRead::Loaded(content, parsed) => {
            if trim(content@).len() == 0 {
                Ok(default_provider_id())
            } else {
                match parsed {
                    Err(e) => Err(config_error("解析 config.toml 失败"@, config_path, e@)),
                    Ok(p) => match p.model_provider {
                        Some(m) => if trim(m@).len() > 0 {
                            Ok(trim(m@))
                        } else {
                            Ok(default_provider_id())
                        },
                        None => Ok(default_provider_id()),
                    },
                }
            }
        },
    }
}

/// The provider ids a parsed config names: its `model_provider` and the keys
/// of its `[model_providers]` table, trimmed, the empty ones left out.
pub open spec fn config_named_ids(p: CodexConfigProviders) -> Set<Seq<char>> {
    Set::new(
        |t: Seq<char>|
            t.len() > 0 && ((p.model_provider matches Some(m) && trim(m@) == t) || exists|i: int|
                0 <= i < p.model_provider_ids.len() && trim(
                    #[trigger] p.model_provider_ids@[i]@,
                ) == t),
    )
}

/// The provider ids a config offers: those it names, or the default provider
/// when it names none, is missing or is blank; errors as for the target provider.
pub open spec fn configured_provider_ids(config_path: Seq<char>, config: CodexConfigRead) -> Result<
    Set<Seq<char>>,
    Seq<char>,
> {
    match config {
        CodexConfigRead::Missing => Ok(set![default_provider_id()]),
        CodexConfigRead::ReadFailed(e) => Err(
            config_error("读取 config.toml 失败"@, config_path, e@),
        ),
        CodexConfigRead::Loaded(content, parsed) => {
            if trim(content@).len() == 0 {
                Ok(set![default_provider_id()])
            } else {
                match parsed {
                    Err(e) => Err(config_error("解析 config.toml 失败"@, config_path, e@)),
                    Ok(p) => if config_named_ids(p).is_empty() {
                        Ok(set![default_provider_id()])
                    } else {
                        Ok(config_named_ids(p))
                    },
                }
            }
        },
    }
}

fn config_failure(action: &str, config_path: &str, reason: &str) -> (r: String)
    ensures
        r@ == config_error(action@, config_path@, reason@),
{
    let mut r = String::new();
    push_str(&mut r, action);
    push_str(&mut r, " (");
    push_str(&mut r, config_path);
    push_str(&mut r, "): ");
    push_str(&mut r, reason);
    r
}

fn is_blank(s: &str) -> (b: bool)
    ensures
        b == (trim(s@).len() == 0),
{
    let t = trim_str(s);
    t.as_str().is_empty()
}

/// The provider an instance's config selects (see `configured_target_provider`);
/// `config_path` is the config file's path, as error texts show it.
pub fn read_target_provider(config_path: &str, config: &CodexConfigRead) -> (r: Result<String, String>)
    ensures
        string_result_view(r) == configured_target_provider(config_path@, *config),
{
    match config {
        CodexConfigRead::Missing => Ok("openai".to_string()),
        CodexConfigRead::ReadFailed(e) => Err(
            config_failure("读取 config.toml 失败", config_path, e.as_str()),
        ),
        CodexConfigRead::Loaded(content, parsed) => {
            if is_blank(content.as_str()) {
                return Ok("openai".to_string());
            }
            match parsed {
                Err(e) => Err(config_failure("解析 config.toml 失败", config_path, e.as_str())),
                Ok(p) => match &p.model_provider {
                    Some(m) => {
                        let t = trim_str(m.as_str());
                        if !t.as_str().is_empty() {
                            Ok(t)
                        } else {
                            Ok("openai".to_string())
                        }
                    },
                    None => Ok("openai".to_string()),
                },
            }
        },
    }
}

/// The provider whose history an instance shows: the one its config selects.
pub fn read_history_visibility_provider_for_dir(config_path: &str, config: &CodexConfigRead) -> (r:
    Result<String, String>)
    ensures
        string_result_view(r) == configured_target_provider(config_path@, *config),
{
    read_target_provider(config_path, config)
}

spec fn named_in_prefix(p: CodexConfigProviders, i: int, t: Seq<char>) -> bool {
    exists|j: int| 0 <= j < i && trim(#[trigger] p.model_provider_ids@[j]@) == t
}

spec fn named_upto(p: CodexConfigProviders, i: int, t: Seq<char>) -> bool {
    t.len() > 0 && ((p.model_provider matches Some(m) && trim(m@) == t) || named_in_prefix(p, i, t))
}

proof fn lemma_named_step(p: CodexConfigProviders, i: int, x: Seq<char>)
    requires
        0 <= i < p.model_provider_ids.len(),
    ensures
        named_in_prefix(p, i + 1, x) <==> (named_in_prefix(p, i, x) || trim(
            p.model_provider_ids@[i]@,
        ) == x),
{
    if named_in_prefix(p, i + 1, x) && !named_in_prefix(p, i, x) {
        let j = choose|j: int| 0 <= j < i + 1 && trim(#[trigger] p.model_provider_ids@[j]@) == x;
        assert(j == i);
    }
    if named_in_prefix(p, i, x) {
        let j = choose|j: int| 0 <= j < i && trim(#[trigger] p.model_provider_ids@[j]@) == x;
        assert(trim(p.model_provider_ids@[j]@) == x);
    }
    if trim(p.model_provider_ids@[i]@) == x {
        assert(trim(p.model_provider_ids@[i]@) == x);
    }
}

/// Appending `y` adds exactly `y` to what a sequence contains.
pub proof fn lemma_push_contains<A>(s: Seq<A>, y: A, x: A)
    ensures
        s.push(y).contains(x) <==> (s.contains(x) || x == y),
{
    if s.contains(x) {
        let k = choose|k: int| 0 <= k < s.len() && s[k] == x;
        assert(s.push(y)[k] == x);
    }
    if x == y {
        assert(s.push(y)[s.len() as int] == x);
    }
    if s.push(y).contains(x) && x != y {
        let k = choose|k: int| 0 <= k < s.push(y).len() && s.push(y)[k] == x;
        assert(s[k] == x);
    }
}

/// The trimmed, non-empty provider ids a parsed config names, with repeats.
fn config_named_id_list(p: &CodexConfigProviders) -> (r: Vec<String>)
    ensures
        views(r@).to_set() == config_named_ids(*p),
{
    let mut r: Vec<String> = Vec::new();
    match &p.model_provider {
        Some(m) => {
            let t = trim_str(m.as_str());
            if !t.as_str().is_empty() {
                r.push(t);
                proof {
                    assert(views(r@) =~= seq![t@]);
                }
            }
        },
        None => {},
    }
    proof {
        assert forall|x: Seq<char>| #[trigger] views(r@).contains(x) <==> named_upto(*p, 0, x) by {
            if views(r@).contains(x) {
                assert(views(r@)[0] == x);
            }
            if named_upto(*p, 0, x) {
                assert(views(r@)[0] == x);
            }
        }
    }
    let mut i: usize = 0;
    while i < p.model_provider_ids.len()
        invariant
            i <= p.model_provider_ids.len(),
            forall|x: Seq<char>| #[trigger] views(r@).contains(x) <==> named_upto(*p, i as int, x),
        decreases p.model_provider_ids.len() - i,
    {
        let t = trim_str(p.model_provider_ids[i].as_str());
        let ghost before = views(r@);
        if !t.as_str().is_empty() {
            r.push(t);
            proof {
                assert(views(r@) =~= before.push(t@));
            }
        }
        proof {
            assert forall|x: Seq<char>| #[trigger]
                views(r@).contains(x) <==> named_upto(*p, i + 1, x) by {
                lemma_named_step(*p, i as int, x);
                assert(before.contains(x) <==> named_upto(*p, i as int, x));
                if t@.len() > 0 {
                    lemma_push_contains(before, t@, x);
                }
            }
        }
        i = i + 1;
    }
    proof {
        assert forall|x: Seq<char>| views(r@).to_set().contains(x) <==> config_named_ids(
            *p,
        ).contains(x) by {
            assert(views(r@).contains(x) <==> named_upto(*p, p.model_provider_ids.len() as int, x));
            if named_in_prefix(*p, p.model_provider_ids.len() as int, x) {
                let j = choose|j: int|
                    0 <= j < p.model_provider_ids.len() && trim(
                        #[trigger] p.model_provider_ids@[j]@,
                    ) == x;
                assert(trim(p.model_provider_ids@[j]@) == x);
            }
            if exists|j: int|
                0 <= j < p.model_provider_ids.len() && trim(#[trigger] p.model_provider_ids@[j]@)
                    == x {
                let j = choose|j: int|
                    0 <= j < p.model_provider_ids.len() && trim(
                        #[trigger] p.model_provider_ids@[j]@,
                    ) == x;
                assert(named_in_prefix(*p, p.model_provider_ids.len() as int, x));
            }
        }
        assert(views(r@).to_set() =~= config_named_ids(*p));
    }
    r
}

/// The provider ids a config offers, in ascending order (see
/// `configured_provider_ids`).
pub fn list_configured_provider_ids(config_path: &str, config: &CodexConfigRead) -> (r: Result<
    Vec<String>,
    String,
>)
    ensures
        match r {
            Ok(v) => configured_provider_ids(config_path@, *config) matches Ok(set) && views(v@)
                == sorted_of(set),
            Err(e) => configured_provider_ids(config_path@, *config) == Err::<Set<Seq<char>>, Seq<char>>(e@),
        },
{
    match config {
        CodexConfigRead::Missing => default_id_list(),
        CodexConfigRead::ReadFailed(e) => Err(
            config_failure("读取 config.toml 失败", config_path, e.as_str()),
        ),
        CodexConfigRead::Loaded(content, parsed) => {
            if is_blank(content.as_str()) {
                return default_id_list();
            }
            match parsed {
                Err(e) => Err(config_failure("解析 config.toml 失败", config_path, e.as_str())),
                Ok(p) => {
                    let named = config_named_id_list(p);
                    if named.len() == 0 {
                        proof {
                            assert(views(named@).to_set() =~= Set::<Seq<char>>::empty());
                        }
                        default_id_list()
                    } else {
                        proof {
                            assert(views(named@).to_set().contains(views(named@)[0]));
                        }
                        Ok(sorted_distinct(&named))
                    }
                },
            }
        },
    }
}

fn default_id_list() -> (r: Result<Vec<String>, String>)
    ensures
        r matches Ok(v) && views(v@) == sorted_of(set![default_provider_id()]),
{
    let ids = vec!["openai".to_string()];
    proof {
        assert(views(ids@) =~= seq![default_provider_id()]);
        assert forall|x: Seq<char>| views(ids@).to_set().contains(x) <==> x == default_provider_id() by {
            if x == default_provider_id() {
                assert(views(ids@)[0] == x);
            }
        }
        assert(views(ids@).to_set() =~= set![default_provider_id()]);
    }
    Ok(sorted_distinct(&ids))
}

/// Where a provider id was found.
#[derive(Debug, Clone, Copy, PartialEq, Eq, Structural, PartialOrd, Ord, Hash)]
pub enum CodexSessionVisibilityRepairProviderSource {
    Config,
    Rollout,
    Sqlite,
}

/// A provider offered for repair, where it was found (in ascending order of
/// source) and whether it is the default one.
#[derive(Debug, Clone)]
pub struct CodexSessionVisibilityRepairProviderOption {
    pub id: String,
    pub sources: Vec<CodexSessionVisibilityRepairProviderSource>,
    pub is_default: bool,
}

/// The providers offered for repair: the default one first, then the others in
/// ascending order of id.
#[derive(Debug, Clone)]
pub struct CodexSessionVisibilityRepairProviderList {
    pub default_provider: String,
    pub providers: Vec<CodexSessionVisibilityRepairProviderOption>,
}

/// The provider ids found for one instance: those its config offers, and those
/// each of its official state databases holds; a read that failed is skipped.
#[derive(Debug)]
pub struct InstanceProviderSources {
    pub configured: Result<Vec<String>, String>,
    pub sqlite: Vec<Result<Vec<String>, String>>,
}

/// The ids a read found; none when it failed.
pub open spec fn found_ids(r: Result<Vec<String>, String>) -> Seq<Seq<char>> {
    match r {
        Ok(v) => views(v@),
        Err(_) => seq![],
    }
}

/// Each id paired with the source it was found in.
pub open spec fn tagged(ids: Seq<Seq<char>>, s: CodexSessionVisibilityRepairProviderSource) -> Seq<
    (Seq<char>, CodexSessionVisibilityRepairProviderSource),
> {
    ids.map_values(|id: Seq<char>| (id, s))
}

/// The candidates the databases of an instance give, in order.
pub open spec fn sqlite_candidates(dbs: Seq<Result<Vec<String>, String>>) -> Seq<
    (Seq<char>, CodexSessionVisibilityRepairProviderSource),
>
    decreases dbs.len(),
{
    if dbs.len() == 0 {
        seq![]
    } else {
        sqlite_candidates(dbs.drop_last()) + tagged(
            found_ids(dbs.last()),
            CodexSessionVisibilityRepairProviderSource::Sqlite,
        )
    }
}

/// The candidates one instance gives: its config's, then its databases'.
pub open spec fn instance_candidates(i: InstanceProviderSources) -> Seq<
    (Seq<char>, CodexSessionVisibilityRepairProviderSource),
> {
    tagged(found_ids(i.configured), CodexSessionVisibilityRepairProviderSource::Config)
        + sqlite_candidates(i.sqlite@)
}

/// The candidates of all instances, in order.
pub open spec fn instances_candidates(s: Seq<InstanceProviderSources>) -> Seq<
    (Seq<char>, CodexSessionVisibilityRepairProviderSource),
>
    decreases s.len(),
{
    if s.len() == 0 {
        seq![]
    } else {
        instances_candidates(s.drop_last()) + instance_candidates(s.last())
    }
}

/// A candidate is kept when its trimmed id is a valid provider id.
pub open spec fn accepted(c: (Seq<char>, CodexSessionVisibilityRepairProviderSource)) -> bool {
    provider_id_error(trim(c.0)) is None
}

/// The trimmed id `t` was found, valid, in source `s`.
pub open spec fn found_as(
    cands: Seq<(Seq<char>, CodexSessionVisibilityRepairProviderSource)>,
    t: Seq<char>,
    s: CodexSessionVisibilityRepairProviderSource,
) -> bool {
    exists|i: int| 0 <= i < cands.len() && accepted(#[trigger] cands[i]) && trim(cands[i].0) == t
        && cands[i].1 == s
}

/// The trimmed ids of the kept candidates.
pub open spec fn candidate_ids(cands: Seq<(Seq<char>, CodexSessionVisibilityRepairProviderSource)>) -> Set<
    Seq<char>,
> {
    Set::new(
        |t: Seq<char>|
            exists|i: int|
                0 <= i < cands.len() && accepted(#[trigger] cands[i]) && trim(cands[i].0) == t,
    )
}

/// All candidates: the default provider (from config) first, then those of the
/// instances; when none is kept, the default provider once more.
pub open spec fn discovery_candidates(default: Seq<char>, insts: Seq<InstanceProviderSources>) -> Seq<
    (Seq<char>, CodexSessionVisibilityRepairProviderSource),
> {
    let c = seq![(default, CodexSessionVisibilityRepairProviderSource::Config)]
        + instances_candidates(insts);
    if candidate_ids(c).is_empty() {
        c.push((default, CodexSessionVisibilityRepairProviderSource::Config))
    } else {
        c
    }
}

/// The listed order of provider ids: the default first, the rest ascending.
pub open spec fn provider_order(ids: Set<Seq<char>>, default: Seq<char>) -> Seq<Seq<char>> {
    if ids.contains(default) {
        seq![default] + sorted_of(ids.remove(default))
    } else {
        sorted_of(ids)
    }
}

/// The sources an id was found in, in ascending order.
pub open spec fn source_list(
    cands: Seq<(Seq<char>, CodexSessionVisibilityRepairProviderSource)>,
    t: Seq<char>,
) -> Seq<CodexSessionVisibilityRepairProviderSource> {
    (if found_as(cands, t, CodexSessionVisibilityRepairProviderSource::Config) {
        seq![CodexSessionVisibilityRepairProviderSource::Config]
    } else {
        seq![]
    }) + (if found_as(cands, t, CodexSessionVisibilityRepairProviderSource::Rollout) {
        seq![CodexSessionVisibilityRepairProviderSource::Rollout]
    } else {
        seq![]
    }) + (if found_as(cands, t, CodexSessionVisibilityRepairProviderSource::Sqlite) {
        seq![CodexSessionVisibilityRepairProviderSource::Sqlite]
    } else {
        seq![]
    })
}

/// The default provider of the listing: the one the first instance's config
/// selects, or the default provider when there is no instance.
pub open spec fn listed_default(first: Option<Result<String, String>>) -> Seq<char> {
    match first {
        Some(Ok(p)) => p@,
        _ => default_provider_id(),
    }
}

/// Candidate pairs taken by the views of their ids.
pub open spec fn cand_views(v: Seq<(String, CodexSessionVisibilityRepairProviderSource)>) -> Seq<
    (Seq<char>, CodexSessionVisibilityRepairProviderSource),
> {
    v.map_values(|p: (String, CodexSessionVisibilityRepairProviderSource)| (p.0@, p.1))
}

fn push_found(
    cands: &mut Vec<(String, CodexSessionVisibilityRepairProviderSource)>,
    found: &Result<Vec<String>, String>,
    s: CodexSessionVisibilityRepairProviderSource,
)
    ensures
        cand_views(final(cands)@) == cand_views(old(cands)@) + tagged(found_ids(*found), s),
{
    match found {
        Ok(ids) => {
            let ghost start = cand_views(cands@);
            let mut i: usize = 0;
            while i < ids.len()
                invariant
                    i <= ids.len(),
                    cand_views(cands@) == start + tagged(views(ids@).subrange(0, i as int), s),
                decreases ids.len() - i,
            {
                cands.push((ids[i].clone(), s));
                proof {
                    assert(tagged(views(ids@).subrange(0, i + 1), s) =~= tagged(
                        views(ids@).subrange(0, i as int),
                        s,
                    ).push((ids@[i as int]@, s)));
                    assert(cand_views(cands@) =~= (start + tagged(
                        views(ids@).subrange(0, i as int),
                        s,
                    )).push((ids@[i as int]@, s)));
                }
                i = i + 1;
            }
            proof {
                assert(views(ids@).subrange(0, ids.len() as int) =~= views(ids@));
            }
        },
        Err(_) => {
            proof {
                assert(cand_views(cands@) =~= cand_views(cands@) + tagged(seq![], s));
            }
        },
    }
}

fn gather_candidates(default: &String, instances: &Vec<InstanceProviderSources>) -> (r: Vec<
    (String, CodexSessionVisibilityRepairProviderSource),
>)
    ensures
        cand_views(r@) == seq![(default@, CodexSessionVisibilityRepairProviderSource::Config)]
            + instances_candidates(instances@),
{
    let mut cands: Vec<(String, CodexSessionVisibilityRepairProviderSource)> = Vec::new();
    cands.push((default.clone(), CodexSessionVisibilityRepairProviderSource::Config));
    let ghost head = seq![(default@, CodexSessionVisibilityRepairProviderSource::Config)];
    proof {
        assert(cand_views(cands@) =~= head);
        assert(instances@.subrange(0, 0) =~= Seq::<InstanceProviderSources>::empty());
        assert(head + instances_candidates(instances@.subrange(0, 0)) =~= head);
    }
    let mut i: usize = 0;
    while i < instances.len()
        invariant
            i <= instances.len(),
            cand_views(cands@) == head + instances_candidates(instances@.subrange(0, i as int)),
        decreases instances.len() - i,
    {
        let inst = &instances[i];
        let ghost before = cand_views(cands@);
        push_found(&mut cands, &inst.configured, CodexSessionVisibilityRepairProviderSource::Config);
        let ghost mid = cand_views(cands@);
        proof {
            assert(inst.sqlite@.subrange(0, 0) =~= Seq::<Result<Vec<String>, String>>::empty());
            assert(mid =~= mid + sqlite_candidates(inst.sqlite@.subrange(0, 0)));
        }
        let mut j: usize = 0;
        while j < inst.sqlite.len()
            invariant
                j <= inst.sqlite.len(),
                cand_views(cands@) == mid + sqlite_candidates(inst.sqlite@.subrange(0, j as int)),
            decreases inst.sqlite.len() - j,
        {
            let ghost b2 = cand_views(cands@);
            push_found(&mut cands, &inst.sqlite[j], CodexSessionVisibilityRepairProviderSource::Sqlite);
            proof {
                assert(inst.sqlite@.subrange(0, j + 1).drop_last() =~= inst.sqlite@.subrange(
                    0,
                    j as int,
                ));
                assert(cand_views(cands@) =~= mid + sqlite_candidates(
                    inst.sqlite@.subrange(0, j + 1),
                ));
            }
            j = j + 1;
        }
        proof {
            assert(inst.sqlite@.subrange(0, inst.sqlite.len() as int) =~= inst.sqlite@);
            assert(instances@.subrange(0, i + 1).drop_last() =~= instances@.subrange(0, i as int));
            assert(instances@.subrange(0, i + 1).last() == instances@[i as int]);
            assert(cand_views(cands@) =~= head + instances_candidates(
                instances@.subrange(0, i + 1),
            ));
        }
        i = i + 1;
    }
    proof {
        assert(instances@.subrange(0, instances.len() as int) =~= instances@);
    }
    cands
}

proof fn lemma_found_step(
    c: Seq<(Seq<char>, CodexSessionVisibilityRepairProviderSource)>,
    k: int,
    t: Seq<char>,
    s: CodexSessionVisibilityRepairProviderSource,
)
    requires
        0 <= k < c.len(),
    ensures
        found_as(c.subrange(0, k + 1), t, s) <==> (found_as(c.subrange(0, k), t, s) || (accepted(
            c[k],
        ) && trim(c[k].0) == t && c[k].1 == s)),
{
    let a = c.subrange(0, k);
    let b = c.subrange(0, k + 1);
    if found_as(b, t, s) {
        let i = choose|i: int|
            0 <= i < b.len() && accepted(#[trigger] b[i]) && trim(b[i].0) == t && b[i].1 == s;
        if i < k {
            assert(a[i] == b[i]);
        }
    }
    if found_as(a, t, s) {
        let i = choose|i: int|
            0 <= i < a.len() && accepted(#[trigger] a[i]) && trim(a[i].0) == t && a[i].1 == s;
        assert(b[i] == a[i]);
    }
    if accepted(c[k]) && trim(c[k].0) == t && c[k].1 == s {
        assert(b[k] == c[k]);
    }
}

/// An id is a candidate exactly when it was found in one of the sources.
proof fn lemma_candidate_ids_by_source(
    c: Seq<(Seq<char>, CodexSessionVisibilityRepairProviderSource)>,
    t: Seq<char>,
)
    ensures
        candidate_ids(c).contains(t) <==> (found_as(
            c,
            t,
            CodexSessionVisibilityRepairProviderSource::Config,
        ) || found_as(c, t, CodexSessionVisibilityRepairProviderSource::Rollout) || found_as(
            c,
            t,
            CodexSessionVisibilityRepairProviderSource::Sqlite,
        )),
{
    if candidate_ids(c).contains(t) {
        let i = choose|i: int| 0 <= i < c.len() && accepted(#[trigger] c[i]) && trim(c[i].0) == t;
        match c[i].1 {
            CodexSessionVisibilityRepairProviderSource::Config => {
                assert(found_as(c, t, CodexSessionVisibilityRepairProviderSource::Config));
            },
            CodexSessionVisibilityRepairProviderSource::Rollout => {
                assert(found_as(c, t, CodexSessionVisibilityRepairProviderSource::Rollout));
            },
            CodexSessionVisibilityRepairProviderSource::Sqlite => {
                assert(found_as(c, t, CodexSessionVisibilityRepairProviderSource::Sqlite));
            },
        }
    }
}

/// The kept candidates: each valid trimmed id with its source.
fn kept_pairs(cands: &Vec<(String, CodexSessionVisibilityRepairProviderSource)>) -> (acc: Vec<
    (String, CodexSessionVisibilityRepairProviderSource),
>)
    ensures
        forall|t: Seq<char>, s: CodexSessionVisibilityRepairProviderSource| #[trigger]
            cand_views(acc@).contains((t, s)) <==> found_as(cand_views(cands@), t, s),
{
    let ghost c = cand_views(cands@);
    let mut acc: Vec<(String, CodexSessionVisibilityRepairProviderSource)> = Vec::new();
    let mut k: usize = 0;
    proof {
        assert forall|t: Seq<char>, s: CodexSessionVisibilityRepairProviderSource| #[trigger]
            cand_views(acc@).contains((t, s)) <==> found_as(c.subrange(0, 0), t, s) by {
            assert(cand_views(acc@).len() == 0);
        }
    }
    while k < cands.len()
        invariant
            k <= cands.len(),
            c == cand_views(cands@),
            forall|t: Seq<char>, s: CodexSessionVisibilityRepairProviderSource| #[trigger]
                cand_views(acc@).contains((t, s)) <==> found_as(c.subrange(0, k as int), t, s),
        decreases cands.len() - k,
    {
        let t = trim_str(cands[k].0.as_str());
        let src = cands[k].1;
        let ghost before = cand_views(acc@);
        let keep = is_valid_provider_id_for_discovery(t.as_str());
        if keep {
            acc.push((t, src));
            proof {
                assert(cand_views(acc@) =~= before.push((t@, src)));
            }
        }
        proof {
            assert(c[k as int] == (cands@[k as int].0@, cands@[k as int].1));
            assert forall|u: Seq<char>, s: CodexSessionVisibilityRepairProviderSource| #[trigger]
                cand_views(acc@).contains((u, s)) <==> found_as(c.subrange(0, k + 1), u, s) by {
                lemma_found_step(c, k as int, u, s);
                assert(before.contains((u, s)) <==> found_as(c.subrange(0, k as int), u, s));
                if keep {
                    lemma_push_contains(before, (t@, src), (u, s));
                }
            }
        }
        k = k + 1;
    }
    proof {
        assert(c.subrange(0, cands.len() as int) =~= c);
    }
    acc
}

fn has_pair(
    acc: &Vec<(String, CodexSessionVisibilityRepairProviderSource)>,
    id: &String,
    s: CodexSessionVisibilityRepairProviderSource,
) -> (b: bool)
    ensures
        b == cand_views(acc@).contains((id@, s)),
{
    let mut j: usize = 0;
    while j < acc.len()
        invariant
            j <= acc.len(),
            forall|i: int| 0 <= i < j ==> cand_views(acc@)[i] != (id@, s),
        decreases acc.len() - j,
    {
        if acc[j].0 == *id && acc[j].1 == s {
            assert(cand_views(acc@)[j as int] == (id@, s));
            return true;
        }
        j = j + 1;
    }
    false
}

/// The ids of the kept pairs, leaving out one id (or none).
fn pair_ids_except(
    acc: &Vec<(String, CodexSessionVisibilityRepairProviderSource)>,
    skip: &Option<String>,
) -> (ids: Vec<String>)
    ensures
        forall|t: Seq<char>| #[trigger]
            views(ids@).contains(t) <==> ((exists|j: int|
                0 <= j < acc.len() && (#[trigger] cand_views(acc@)[j]).0 == t) && !(
            skip matches Some(d) && d@ == t)),
{
    let mut ids: Vec<String> = Vec::new();
    let mut j: usize = 0;
    while j < acc.len()
        invariant
            j <= acc.len(),
            forall|t: Seq<char>| #[trigger]
                views(ids@).contains(t) <==> ((exists|i: int|
                    0 <= i < j && (#[trigger] cand_views(acc@)[i]).0 == t) && !(
                skip matches Some(d) && d@ == t)),
        decreases acc.len() - j,
    {
        let ghost before = views(ids@);
        let skipped = match skip {
            Some(d) => acc[j].0 == *d,
            None => false,
        };
        if !skipped {
            ids.push(acc[j].0.clone());
            proof {
                assert(views(ids@) =~= before.push(acc@[j as int].0@));
            }
        }
        proof {
            assert(cand_views(acc@)[j as int].0 == acc@[j as int].0@);
            assert forall|t: Seq<char>| #[trigger]
                views(ids@).contains(t) <==> ((exists|i: int|
                    0 <= i < j + 1 && (#[trigger] cand_views(acc@)[i]).0 == t) && !(
                skip matches Some(d) && d@ == t)) by {
                if !skipped {
                    lemma_push_contains(before, acc@[j as int].0@, t);
                }
                if exists|i: int| 0 <= i < j + 1 && (#[trigger] cand_views(acc@)[i]).0 == t {
                    let i = choose|i: int| 0 <= i < j + 1 && (#[trigger] cand_views(acc@)[i]).0 == t;
                    if i < j {
                        assert(exists|i2: int| 0 <= i2 < j && (#[trigger] cand_views(acc@)[i2]).0 == t);
                    }
                }
                if exists|i: int| 0 <= i < j && (#[trigger] cand_views(acc@)[i]).0 == t {
                    let i = choose|i: int| 0 <= i < j && (#[trigger] cand_views(acc@)[i]).0 == t;
                    assert(0 <= i < j + 1 && cand_views(acc@)[i].0 == t);
                }
            }
        }
        j = j + 1;
    }
    ids
}

proof fn lemma_pair_ids(
    acc: Seq<(Seq<char>, CodexSessionVisibilityRepairProviderSource)>,
    c: Seq<(Seq<char>, CodexSessionVisibilityRepairProviderSource)>,
    t: Seq<char>,
)
    requires
        forall|u: Seq<char>, s: CodexSessionVisibilityRepairProviderSource| #[trigger]
            acc.contains((u, s)) <==> found_as(c, u, s),
    ensures
        (exists|j: int| 0 <= j < acc.len() && (#[trigger] acc[j]).0 == t) <==> candidate_ids(
            c,
        ).contains(t),
{
    lemma_candidate_ids_by_source(c, t);
    if exists|j: int| 0 <= j < acc.len() && (#[trigger] acc[j]).0 == t {
        let j = choose|j: int| 0 <= j < acc.len() && (#[trigger] acc[j]).0 == t;
        assert(acc.contains((t, acc[j].1)));
    }
    if candidate_ids(c).contains(t) {
        let s = if found_as(c, t, CodexSessionVisibilityRepairProviderSource::Config) {
            CodexSessionVisibilityRepairProviderSource::Config
        } else if found_as(c, t, CodexSessionVisibilityRepairProviderSource::Rollout) {
            CodexSessionVisibilityRepairProviderSource::Rollout
        } else {
            CodexSessionVisibilityRepairProviderSource::Sqlite
        };
        assert(acc.contains((t, s)));
        let j = choose|j: int| 0 <= j < acc.len() && acc[j] == (t, s);
        assert(acc[j].0 == t);
    }
}

/// The listing matches the candidates: the default provider, then the ids in
/// listed order, each with its sources and whether it is the default.
pub open spec fn provider_list_matches(
    list: CodexSessionVisibilityRepairProviderList,
    default: Seq<char>,
    cands: Seq<(Seq<char>, CodexSessionVisibilityRepairProviderSource)>,
) -> bool {
    let order = provider_order(candidate_ids(cands), default);
    &&& list.default_provider@ == default
    &&& list.providers.len() == order.len()
    &&& forall|i: int|
        0 <= i < order.len() ==> {
            &&& (#[trigger] list.providers@[i]).id@ == order[i]
            &&& list.providers@[i].sources@ == source_list(cands, order[i])
            &&& list.providers@[i].is_default == (order[i] == default)
        }
}

fn sources_of(
    acc: &Vec<(String, CodexSessionVisibilityRepairProviderSource)>,
    id: &String,
) -> (r: Vec<CodexSessionVisibilityRepairProviderSource>)
    ensures
        r@ == (if cand_views(acc@).contains((id@, CodexSessionVisibilityRepairProviderSource::Config)) {
            seq![CodexSessionVisibilityRepairProviderSource::Config]
        } else {
            seq![]
        }) + (if cand_views(acc@).contains(
            (id@, CodexSessionVisibilityRepairProviderSource::Rollout),
        ) {
            seq![CodexSessionVisibilityRepairProviderSource::Rollout]
        } else {
            seq![]
        }) + (if cand_views(acc@).contains((id@, CodexSessionVisibilityRepairProviderSource::Sqlite)) {
            seq![CodexSessionVisibilityRepairProviderSource::Sqlite]
        } else {
            seq![]
        }),
{
    let mut r: Vec<CodexSessionVisibilityRepairProviderSource> = Vec::new();
    let config = has_pair(acc, id, CodexSessionVisibilityRepairProviderSource::Config);
    let rollout = has_pair(acc, id, CodexSessionVisibilityRepairProviderSource::Rollout);
    let sqlite = has_pair(acc, id, CodexSessionVisibilityRepairProviderSource::Sqlite);
    if config {
        r.push(CodexSessionVisibilityRepairProviderSource::Config);
    }
    if rollout {
        r.push(CodexSessionVisibilityRepairProviderSource::Rollout);
    }
    if sqlite {
        r.push(CodexSessionVisibilityRepairProviderSource::Sqlite);
    }
    proof {
        let a = if config {
            seq![CodexSessionVisibilityRepairProviderSource::Config]
        } else {
            seq![]
        };
        let b = if rollout {
            seq![CodexSessionVisibilityRepairProviderSource::Rollout]
        } else {
            seq![]
        };
        let d = if sqlite {
            seq![CodexSessionVisibilityRepairProviderSource::Sqlite]
        } else {
            seq![]
        };
        assert(r@ =~= a + b + d);
    }
    r
}

/// The providers a repair can target, gathered from the instances: the
/// default provider (the one the first instance's config selects, or the
/// default provider when there is no instance), then for each instance the ids
/// its config offers and those its official state databases hold. Ids are
/// trimmed and kept only when valid; failed reads were skipped by the caller.
/// The default provider comes first, the others in ascending order of id.
pub fn collect_session_visibility_repair_providers_for_instances(
    first_instance_provider: &Option<Result<String, String>>,
    instances: &Vec<InstanceProviderSources>,
) -> (r: Result<CodexSessionVisibilityRepairProviderList, String>)
    ensures
        r is Err <==> first_instance_provider matches Some(Err(_)),
        r matches Err(e) ==> *first_instance_provider matches Some(Err(e2)) && e@ == e2@,
        r matches Ok(list) ==> provider_list_matches(
            list,
            listed_default(*first_instance_provider),
            discovery_candidates(listed_default(*first_instance_provider), instances@),
        ),
{
    let default = match first_instance_provider {
        Some(Ok(p)) => p.clone(),
        Some(Err(e)) => {
            return Err(e.clone());
        },
        None => "openai".to_string(),
    };
    let ghost d = default@;
    let mut cands = gather_candidates(&default, instances);
    let mut acc = kept_pairs(&cands);
    let ghost first_c = cand_views(cands@);
    if acc.len() == 0 {
        proof {
            assert forall|t: Seq<char>| !candidate_ids(first_c).contains(t) by {
                lemma_pair_ids(cand_views(acc@), first_c, t);
            }
            assert(candidate_ids(first_c) =~= Set::<Seq<char>>::empty());
        }
        cands.push((default.clone(), CodexSessionVisibilityRepairProviderSource::Config));
        proof {
            assert(cand_views(cands@) =~= first_c.push(
                (d, CodexSessionVisibilityRepairProviderSource::Config),
            ));
        }
        acc = kept_pairs(&cands);
    } else {
        proof {
            lemma_pair_ids(cand_views(acc@), first_c, cand_views(acc@)[0].0);
            assert(candidate_ids(first_c).contains(cand_views(acc@)[0].0));
        }
    }
    let ghost c = cand_views(cands@);
    assert(c == discovery_candidates(d, instances@));
    let ghost ids = candidate_ids(c);
    let all_ids = pair_ids_except(&acc, &None);
    let has_default = contains_string(&all_ids, &default);
    let rest = pair_ids_except(&acc, &Some(default.clone()));
    proof {
        assert forall|t: Seq<char>| views(all_ids@).contains(t) <==> ids.contains(t) by {
            lemma_pair_ids(cand_views(acc@), c, t);
        }
        assert(views(rest@).to_set() =~= ids.remove(d)) by {
            assert forall|t: Seq<char>| views(rest@).to_set().contains(t) <==> ids.remove(
                d,
            ).contains(t) by {
                lemma_pair_ids(cand_views(acc@), c, t);
            }
        }
    }
    let sorted = sorted_distinct(&rest);
    let mut order: Vec<String> = Vec::new();
    if has_default {
        order.push(default.clone());
    }
    let ghost head = views(order@);
    let mut k: usize = 0;
    while k < sorted.len()
        invariant
            k <= sorted.len(),
            views(order@) == head + views(sorted@).subrange(0, k as int),
        decreases sorted.len() - k,
    {
        let ghost before = views(order@);
        order.push(sorted[k].clone());
        proof {
            assert(views(order@) =~= before.push(sorted@[k as int]@));
            assert(views(sorted@).subrange(0, k + 1) =~= views(sorted@).subrange(0, k as int).push(
                views(sorted@)[k as int],
            ));
            assert(views(order@) =~= head + views(sorted@).subrange(0, k + 1));
        }
        k = k + 1;
    }
    proof {
        assert(views(sorted@).subrange(0, sorted.len() as int) =~= views(sorted@));
        if has_default {
            assert(head =~= seq![d]);
        } else {
            assert(head =~= Seq::<Seq<char>>::empty());
            assert(ids.remove(d) =~= ids);
        }
        assert(views(order@) =~= provider_order(ids, d));
    }
    let mut providers: Vec<CodexSessionVisibilityRepairProviderOption> = Vec::new();
    let mut m: usize = 0;
    while m < order.len()
        invariant
            m <= order.len(),
            views(order@) == provider_order(ids, d),
            d == default@,
            ids == candidate_ids(c),
            forall|t: Seq<char>, s: CodexSessionVisibilityRepairProviderSource| #[trigger]
                cand_views(acc@).contains((t, s)) <==> found_as(c, t, s),
            providers.len() == m,
            forall|i: int|
                0 <= i < m ==> {
                    &&& (#[trigger] providers@[i]).id@ == views(order@)[i]
                    &&& providers@[i].sources@ == source_list(c, views(order@)[i])
                    &&& providers@[i].is_default == (views(order@)[i] == d)
                },
        decreases order.len() - m,
    {
        let id = order[m].clone();
        let sources = sources_of(&acc, &id);
        let is_default = id == default;
        providers.push(CodexSessionVisibilityRepairProviderOption { id, sources, is_default });
        proof {
            assert(views(order@)[m as int] == order@[m as int]@);
        }
        m = m + 1;
    }
    let list = CodexSessionVisibilityRepairProviderList { default_provider: default, providers };
    proof {
        assert forall|i: int| 0 <= i < provider_order(ids, d).len() implies {
            &&& (#[trigger] list.providers@[i]).id@ == provider_order(ids, d)[i]
            &&& list.providers@[i].sources@ == source_list(c, provider_order(ids, d)[i])
            &&& list.providers@[i].is_default == (provider_order(ids, d)[i] == d)
        } by {
            assert(views(order@)[i] == provider_order(ids, d)[i]);
        }
    }
    Ok(list)
}

fn contains_string(v: &Vec<String>, x: &String) -> (b: bool)
    ensures
        b == views(v@).contains(x@),
{
    let mut i: usize = 0;
    while i < v.len()
        invariant
            i <= v.len(),
            forall|j: int| 0 <= j < i ==> views(v@)[j] != x@,
        decreases v.len() - i,
    {
        if v[i] == *x {
            assert(views(v@)[i as int] == x@);
            return true;
        }
        i = i + 1;
    }
    false
}

/// The providers a repair can target; the caller discovered the instances and
/// read their configs and databases (see
/// `collect_session_visibility_repair_providers_for_instances`).
pub fn list_session_visibility_repair_providers(
    first_instance_provider: &Option<Result<String, String>>,
    instances: &Vec<InstanceProviderSources>,
) -> (r: Result<CodexSessionVisibilityRepairProviderList, String>)
    ensures
        r is Err <==> first_instance_provider matches Some(Err(_)),
        r matches Err(e) ==> *first_instance_provider matches Some(Err(e2)) && e@ == e2@,
        r matches Ok(list) ==> provider_list_matches(
            list,
            listed_default(*first_instance_provider),
            discovery_candidates(listed_default(*first_instance_provider), instances@),
        ),
{
    collect_session_visibility_repair_providers_for_instances(first_instance_provider, instances)
}

/// The id of the instance that lives in the default Codex home.
pub open spec fn default_instance_id() -> Seq<char> {
    "__default__"@
}

/// An instance offered for repair.
#[derive(Debug, Clone)]
pub struct CodexSessionVisibilityRepairInstanceOption {
    pub id: String,
    pub name: String,
    pub user_data_dir: String,
    pub current_provider: String,
    pub is_default: bool,
    pub running: bool,
}

/// The instances offered for repair, in the order they were found.
#[derive(Debug, Clone)]
pub struct CodexSessionVisibilityRepairInstanceList {
    pub default_instance_id: String,
    pub instances: Vec<CodexSessionVisibilityRepairInstanceOption>,
}

/// Whether an id is that of the default instance.
pub fn is_default_instance_id(id: &String) -> (b: bool)
    ensures
        b == (id@ == default_instance_id()),
{
    chars_eq(&chars_of(id.as_str()), &chars_of("__default__"))
}

/// The option listed for an instance, given the provider its config selects
/// and whether it runs.
pub open spec fn instance_option_for(
    o: CodexSessionVisibilityRepairInstanceOption,
    instance: CodexSyncInstance,
) -> bool {
    &&& o.id == instance.id
    &&& o.name == instance.name
    &&& o.user_data_dir == instance.data_dir
    &&& o.is_default == (instance.id@ == default_instance_id())
}

/// The instances offered for repair, each with the provider its config selects
/// (`read_provider`) and whether it runs (`is_running`); the first instance whose
/// config cannot be used ends the listing with that error.
pub fn list_session_visibility_repair_instances<F, G>(
    instances: &Vec<CodexSyncInstance>,
    read_provider: F,
    is_running: G,
) -> (r: Result<CodexSessionVisibilityRepairInstanceList, String>) where
    F: Fn(&CodexSyncInstance) -> Result<String, String>,
    G: Fn(&CodexSyncInstance) -> bool,

    requires
        forall|i: int|
            0 <= i < instances.len() ==> read_provider.requires((&instances@[i],))
                && is_running.requires((&instances@[i],)),
    ensures
        r matches Ok(list) ==> {
            &&& list.default_instance_id@ == default_instance_id()
            &&& list.instances.len() == instances.len()
            &&& forall|i: int|
                0 <= i < instances.len() ==> {
                    &&& instance_option_for(#[trigger] list.instances@[i], instances@[i])
                    &&& read_provider.ensures(
                        (&instances@[i],),
                        Ok::<String, String>(list.instances@[i].current_provider),
                    )
                    &&& is_running.ensures((&instances@[i],), list.instances@[i].running)
                }
        },
        r matches Err(e) ==> exists|i: int|
            0 <= i < instances.len() && read_provider.ensures(
                (&#[trigger] instances@[i],),
                Err::<String, String>(e),
            ),
{
    let mut options: Vec<CodexSessionVisibilityRepairInstanceOption> = Vec::new();
    let mut i: usize = 0;
    while i < instances.len()
        invariant
            i <= instances.len(),
            options.len() == i,
            forall|j: int|
                0 <= j < instances.len() ==> read_provider.requires((&instances@[j],))
                    && is_running.requires((&instances@[j],)),
            forall|j: int|
                0 <= j < i ==> {
                    &&& instance_option_for(#[trigger] options@[j], instances@[j])
                    &&& read_provider.ensures(
                        (&instances@[j],),
                        Ok::<String, String>(options@[j].current_provider),
                    )
                    &&& is_running.ensures((&instances@[j],), options@[j].running)
                },
        decreases instances.len() - i,
    {
        let instance = &instances[i];
        let current_provider = match read_provider(instance) {
            Ok(p) => p,
            Err(e) => {
                return Err(e);
            },
        };
        let running = is_running(instance);
        options.push(
            CodexSessionVisibilityRepairInstanceOption {
                id: instance.id.clone(),
                name: instance.name.clone(),
                user_data_dir: instance.data_dir.clone(),
                current_provider,
                is_default: is_default_instance_id(&instance.id),
                running,
            },
        );
        i = i + 1;
    }
    Ok(
        CodexSessionVisibilityRepairInstanceList {
            default_instance_id: "__default__".to_string(),
            instances: options,
        },
    )
}

/// The error for an empty instance id.
pub open spec fn empty_instance_error() -> Seq<char> {
    "目标实例不能为空"@
}

/// The error for an instance id that no instance has.
pub open spec fn unknown_instance_error(instance_id: Seq<char>) -> Seq<char> {
    "目标实例不存在: "@ + instance_id
}

/// `i` is the first instance with id `id`.
pub open spec fn first_with_id(instances: Seq<CodexSyncInstance>, id: Seq<char>, i: int) -> bool {
    &&& 0 <= i < instances.len()
    &&& instances[i].id@ == id
    &&& forall|j: int| 0 <= j < i ==> (#[trigger] instances[j]).id@ != id
}

/// The provider the config of the instance with the given (trimmed) id selects,
/// as `read_provider` reads it; an empty id, or one no instance has, is an error.
pub fn resolve_session_visibility_target_provider_from_instance_id<F>(
    instance_id: &str,
    instances: &Vec<CodexSyncInstance>,
    read_provider: F,
) -> (r: Result<String, String>) where F: Fn(&CodexSyncInstance) -> Result<String, String>
    requires
        forall|i: int| 0 <= i < instances.len() ==> read_provider.requires((&instances@[i],)),
    ensures
        trim(instance_id@).len() == 0 ==> (r matches Err(e) && e@ == empty_instance_error()),
        trim(instance_id@).len() > 0 && (forall|i: int|
            0 <= i < instances.len() ==> (#[trigger] instances@[i]).id@ != trim(instance_id@))
            ==> (r matches Err(e) && e@ == unknown_instance_error(trim(instance_id@))),
        trim(instance_id@).len() > 0 && (exists|i: int|
            0 <= i < instances.len() && (#[trigger] instances@[i]).id@ == trim(instance_id@))
            ==> exists|i: int|
            first_with_id(instances@, trim(instance_id@), i) && read_provider.ensures(
                (&#[trigger] instances@[i],),
                r,
            ),
{
    let id = trim_str(instance_id);
    if id.as_str().is_empty() {
        return Err("目标实例不能为空".to_string());
    }
    let mut i: usize = 0;
    while i < instances.len()
        invariant
            i <= instances.len(),
            id@ == trim(instance_id@),
            id@.len() > 0,
            forall|j: int| 0 <= j < instances.len() ==> read_provider.requires((&instances@[j],)),
            forall|j: int| 0 <= j < i ==> (#[trigger] instances@[j]).id@ != id@,
        decreases instances.len() - i,
    {
        if instances[i].id == id {
            let r = read_provider(&instances[i]);
            assert(first_with_id(instances@, id@, i as int));
            return r;
        }
        i = i + 1;
    }
    let mut e = "目标实例不存在: ".to_string();
    push_str(&mut e, id.as_str());
    Err(e)
}

} // verus!
