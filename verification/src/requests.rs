//! The ways a repair is asked for: each entry point fixes the repair profile,
//! the targets and the instances it runs on; the caller then drives the run
//! (`crate::run::RepairRun`) over those instances.
use vstd::prelude::*;
use crate::modes::{
    profile_for_auto_repair_mode, profile_for_mode, CodexSessionVisibilityAutoRepairMode,
    CodexSessionVisibilityRepairMode, CodexSessionVisibilityRepairOptions,
};
use crate::providers::default_instance_id;
use crate::run::CodexSyncInstance;
use crate::selection::{
    id_limit, opt_string_view, provider_id_error, provider_override, selection_includes_instance,
    selection_wf, RepairTargetSelection,
};
use crate::text::{trim, trim_str};

verus! {

/// A repair to run: its profile, its targets, the run id its progress reports
/// carry, and, for a launch-target repair, the one instance it is limited to.
#[derive(Debug)]
pub struct RepairRequest {
    pub options: CodexSessionVisibilityRepairOptions,
    pub selection: RepairTargetSelection,
    pub run_id: Option<String>,
    pub launch_target: Option<CodexSyncInstance>,
}

/// The request targets everything: no provider override and no id limits.
pub open spec fn untargeted(r: RepairRequest) -> bool {
    &&& r.selection.target_provider is None
    &&& r.selection.session_ids is None
    &&& r.selection.instance_ids is None
}

/// The request runs over the discovered instances with the given profile and
/// no run id.
pub open spec fn plain_request(r: RepairRequest, options: CodexSessionVisibilityRepairOptions) -> bool {
    &&& r.options == options
    &&& untargeted(r)
    &&& r.run_id is None
    &&& r.launch_target is None
}

/// The manual repair with the default (quick) profile over every instance.
pub fn repair_session_visibility_across_instances() -> (r: RepairRequest)
    ensures
        plain_request(r, profile_for_mode(CodexSessionVisibilityRepairMode::Quick)),
{
    repair_session_visibility_across_instances_with_progress(
        CodexSessionVisibilityRepairMode::Quick,
        None,
    )
}

/// The automatic repair with the current automatic profile over every instance.
pub fn repair_session_visibility_quick_across_instances() -> (r: RepairRequest)
    ensures
        plain_request(
            r,
            profile_for_auto_repair_mode(CodexSessionVisibilityAutoRepairMode::Current),
        ),
{
    repair_session_visibility_auto_across_instances(CodexSessionVisibilityAutoRepairMode::Current)
}

/// The launch-target repair: the current automatic profile, limited to the one
/// instance the caller names (its data directory already resolved), so that no
/// other configured instance is discovered or touched.
pub fn repair_session_visibility_quick_for_instance(
    instance_id: &str,
    instance_name: &str,
    data_dir: &str,
) -> (r: RepairRequest)
    ensures
        r.options == profile_for_auto_repair_mode(CodexSessionVisibilityAutoRepairMode::Current),
        untargeted(r),
        r.run_id is None,
        r.launch_target matches Some(i) && i.id@ == instance_id@ && i.name@ == instance_name@
            && i.data_dir@ == data_dir@ && i.last_pid is None,
{
    RepairRequest {
        options: CodexSessionVisibilityRepairOptions::for_auto_repair_mode(
            CodexSessionVisibilityAutoRepairMode::Current,
        ),
        selection: RepairTargetSelection::default(),
        run_id: None,
        launch_target: Some(
            CodexSyncInstance {
                id: instance_id.to_string(),
                name: instance_name.to_string(),
                data_dir: data_dir.to_string(),
                last_pid: None,
            },
        ),
    }
}

/// The automatic repair with the profile of the given automatic mode.
pub fn repair_session_visibility_auto_across_instances(mode: CodexSessionVisibilityAutoRepairMode) -> (r:
    RepairRequest)
    ensures
        plain_request(r, profile_for_auto_repair_mode(mode)),
{
    RepairRequest {
        options: CodexSessionVisibilityRepairOptions::for_auto_repair_mode(mode),
        selection: RepairTargetSelection::default(),
        run_id: None,
        launch_target: None,
    }
}

/// The manual repair in the given mode, reporting progress under `run_id`.
pub fn repair_session_visibility_across_instances_with_progress(
    mode: CodexSessionVisibilityRepairMode,
    run_id: Option<String>,
) -> (r: RepairRequest)
    ensures
        r.options == profile_for_mode(mode),
        untargeted(r),
        r.run_id == run_id,
        r.launch_target is None,
{
    let options = CodexSessionVisibilityRepairOptions::for_mode(mode).with_dry_run(false);
    RepairRequest { options, selection: RepairTargetSelection::default(), run_id, launch_target: None }
}

/// The manual repair in the given mode, limited to a provider, sessions and
/// instances the user picked, optionally as a dry run. A provider override that
/// is not a valid provider id is refused with the reason.
pub fn repair_session_visibility_across_instances_with_target(
    mode: CodexSessionVisibilityRepairMode,
    run_id: Option<String>,
    target_provider: Option<String>,
    session_ids: Option<Vec<String>>,
    instance_ids: Option<Vec<String>>,
    dry_run: bool,
) -> (r: Result<RepairRequest, String>)
    ensures
        r is Ok <==> (provider_override(target_provider) matches Some(p) ==> provider_id_error(p) is None),
        r matches Err(e) ==> provider_override(target_provider) matches Some(p) && provider_id_error(p)
            == Some(e@),
        r matches Ok(req) ==> {
            &&& req.options == (CodexSessionVisibilityRepairOptions {
                dry_run,
                ..profile_for_mode(mode)
            })
            &&& opt_string_view(req.selection.target_provider) == provider_override(target_provider)
            &&& crate::selection::id_set(req.selection.session_ids) == id_limit(session_ids)
            &&& crate::selection::id_set(req.selection.instance_ids) == id_limit(instance_ids)
            &&& selection_wf(req.selection)
            &&& req.run_id == run_id
            &&& req.launch_target is None
        },
{
    let options = CodexSessionVisibilityRepairOptions::for_mode(mode).with_dry_run(dry_run);
    let selection = RepairTargetSelection::from_inputs(target_provider, session_ids, instance_ids)?;
    Ok(RepairRequest { options, selection, run_id, launch_target: None })
}

/// The instances of `s` that a selection includes, in order.
pub open spec fn included_instances(sel: RepairTargetSelection, s: Seq<CodexSyncInstance>) -> Seq<
    CodexSyncInstance,
>
    decreases s.len(),
{
    if s.len() == 0 {
        seq![]
    } else if selection_includes_instance(sel, s.last().id@) {
        included_instances(sel, s.drop_last()).push(s.last())
    } else {
        included_instances(sel, s.drop_last())
    }
}

/// The instances a request repairs: its launch target alone, or else the
/// discovered instances that its selection includes, in order.
pub open spec fn instances_for(r: RepairRequest, discovered: Seq<CodexSyncInstance>) -> Seq<
    CodexSyncInstance,
> {
    match r.launch_target {
        Some(i) => seq![i],
        None => included_instances(r.selection, discovered),
    }
}

proof fn lemma_included_instances(sel: RepairTargetSelection, s: Seq<CodexSyncInstance>)
    ensures
        forall|k: int|
            0 <= k < included_instances(sel, s).len() ==> s.contains(
                #[trigger] included_instances(sel, s)[k],
            ) && selection_includes_instance(sel, included_instances(sel, s)[k].id@),
        forall|j: int|
            0 <= j < s.len() && selection_includes_instance(sel, (#[trigger] s[j]).id@)
                ==> included_instances(sel, s).contains(s[j]),
    decreases s.len(),
{
    if s.len() > 0 {
        let init = s.drop_last();
        let rest = included_instances(sel, init);
        lemma_included_instances(sel, init);
        let inc = included_instances(sel, s);
        assert forall|k: int| 0 <= k < inc.len() implies s.contains(#[trigger] inc[k])
            && selection_includes_instance(sel, inc[k].id@) by {
            if k < rest.len() {
                assert(inc[k] == rest[k]);
                let w = choose|w: int| 0 <= w < init.len() && init[w] == rest[k];
                assert(s[w] == init[w]);
            } else {
                assert(inc[k] == s.last());
                assert(s[s.len() - 1] == s.last());
            }
        }
        assert forall|j: int|
            0 <= j < s.len() && selection_includes_instance(sel, (#[trigger] s[j]).id@) implies inc.contains(
            s[j],
        ) by {
            if j < s.len() - 1 {
                assert(init[j] == s[j]);
                assert(rest.contains(init[j]));
                let w = choose|w: int| 0 <= w < rest.len() && rest[w] == init[j];
                assert(inc[w] == rest[w]);
            } else {
                assert(inc[inc.len() - 1] == s.last());
            }
        }
    }
}

/// A repair touches no instance it was not asked for: a launch-target repair
/// runs over its one instance, whatever was discovered; any other repair runs
/// over exactly the discovered instances that its selection includes.
pub proof fn repair_touches_only_its_instances(r: RepairRequest, discovered: Seq<CodexSyncInstance>)
    ensures
        r.launch_target matches Some(t) ==> instances_for(r, discovered) == seq![t],
        r.launch_target is None ==> forall|k: int|
            0 <= k < instances_for(r, discovered).len() ==> discovered.contains(
                #[trigger] instances_for(r, discovered)[k],
            ) && selection_includes_instance(r.selection, instances_for(r, discovered)[k].id@),
        r.launch_target is None ==> forall|j: int|
            0 <= j < discovered.len() && selection_includes_instance(r.selection, (#[trigger] discovered[j]).id@)
                ==> instances_for(r, discovered).contains(discovered[j]),
{
    lemma_included_instances(r.selection, discovered);
}

/// The instances a request repairs, out of those the caller discovered.
pub fn repair_session_visibility_across_instances_with_options(
    request: &RepairRequest,
    discovered: &Vec<CodexSyncInstance>,
) -> (r: Vec<CodexSyncInstance>)
    ensures
        r@ == instances_for(*request, discovered@),
{
    match &request.launch_target {
        Some(i) => {
            let r = vec![i.duplicate()];
            proof {
                assert(r@ =~= seq![*i]);
            }
            r
        },
        None => {
            let mut r: Vec<CodexSyncInstance> = Vec::new();
            let mut k: usize = 0;
            while k < discovered.len()
                invariant
                    k <= discovered.len(),
                    r@ == included_instances(request.selection, discovered@.subrange(0, k as int)),
                decreases discovered.len() - k,
            {
                let keep = request.selection.includes_instance_id(discovered[k].id.as_str());
                proof {
                    assert(discovered@.subrange(0, k + 1).drop_last() =~= discovered@.subrange(
                        0,
                        k as int,
                    ));
                    assert(discovered@.subrange(0, k + 1).last() == discovered@[k as int]);
                }
                if keep {
                    r.push(discovered[k].duplicate());
                }
                k = k + 1;
            }
            proof {
                assert(discovered@.subrange(0, discovered.len() as int) =~= discovered@);
            }
            r
        },
    }
}

/// An instance as the instance store records it.
#[derive(Debug, Clone)]
pub struct StoredCodexInstance {
    pub id: String,
    pub name: String,
    pub user_data_dir: String,
    pub last_pid: Option<u32>,
}

/// An instance taken by its id, name, data directory and last pid.
pub open spec fn instance_view(i: CodexSyncInstance) -> (Seq<char>, Seq<char>, Seq<char>, Option<u32>) {
    (i.id@, i.name@, i.data_dir@, i.last_pid)
}

/// Instances taken by their views.
pub open spec fn instance_views(s: Seq<CodexSyncInstance>) -> Seq<
    (Seq<char>, Seq<char>, Seq<char>, Option<u32>),
> {
    s.map_values(|i: CodexSyncInstance| instance_view(i))
}

/// The stored instances that have a data directory, with it trimmed, in order.
pub open spec fn stored_instances(s: Seq<StoredCodexInstance>) -> Seq<
    (Seq<char>, Seq<char>, Seq<char>, Option<u32>),
>
    decreases s.len(),
{
    if s.len() == 0 {
        seq![]
    } else if trim(s.last().user_data_dir@).len() == 0 {
        stored_instances(s.drop_last())
    } else {
        stored_instances(s.drop_last()).push(
            (s.last().id@, s.last().name@, trim(s.last().user_data_dir@), s.last().last_pid),
        )
    }
}

/// The name shown for the instance in the default Codex home.
pub open spec fn default_instance_name() -> Seq<char> {
    "默认实例"@
}

/// The instances to consider: the default one (in the default Codex home),
/// then the stored ones that have a data directory.
pub fn collect_instances(
    default_dir: &str,
    default_last_pid: Option<u32>,
    stored: &Vec<StoredCodexInstance>,
) -> (r: Vec<CodexSyncInstance>)
    ensures
        instance_views(r@) == seq![
            (default_instance_id(), default_instance_name(), default_dir@, default_last_pid),
        ] + stored_instances(stored@),
{
    let mut r: Vec<CodexSyncInstance> = Vec::new();
    r.push(
        CodexSyncInstance {
            id: "__default__".to_string(),
            name: "默认实例".to_string(),
            data_dir: default_dir.to_string(),
            last_pid: default_last_pid,
        },
    );
    let ghost head = seq![
        (default_instance_id(), default_instance_name(), default_dir@, default_last_pid),
    ];
    proof {
        assert(instance_views(r@) =~= head);
        assert(stored@.subrange(0, 0) =~= Seq::<StoredCodexInstance>::empty());
        assert(head + stored_instances(stored@.subrange(0, 0)) =~= head);
    }
    let mut k: usize = 0;
    while k < stored.len()
        invariant
            k <= stored.len(),
            instance_views(r@) == head + stored_instances(stored@.subrange(0, k as int)),
        decreases stored.len() - k,
    {
        let dir = trim_str(stored[k].user_data_dir.as_str());
        let ghost before = instance_views(r@);
        proof {
            assert(stored@.subrange(0, k + 1).drop_last() =~= stored@.subrange(0, k as int));
            assert(stored@.subrange(0, k + 1).last() == stored@[k as int]);
        }
        if !dir.as_str().is_empty() {
            r.push(
                CodexSyncInstance {
                    id: stored[k].id.clone(),
                    name: stored[k].name.clone(),
                    data_dir: dir,
                    last_pid: stored[k].last_pid,
                },
            );
            proof {
                assert(instance_views(r@) =~= before.push(instance_view(r@[r@.len() - 1])));
                assert(instance_views(r@) =~= head + stored_instances(stored@.subrange(0, k + 1)));
            }
        }
        k = k + 1;
    }
    proof {
        assert(stored@.subrange(0, stored.len() as int) =~= stored@);
    }
    r
}

/// The Codex home a running process of the instance is matched on: none for
/// the default instance (its process runs without one), else its data directory.
pub open spec fn probe_home(instance: CodexSyncInstance) -> Option<Seq<char>> {
    if instance.id@ == default_instance_id() {
        None
    } else {
        Some(instance.data_dir@)
    }
}

/// Whether the instance runs, as `resolve_pid` (which matches a process by the
/// last pid and the Codex home) reports it.
pub fn is_instance_running<F>(instance: &CodexSyncInstance, resolve_pid: F) -> (b: bool) where
    F: Fn(Option<u32>, Option<String>) -> bool,

    requires
        forall|home: Option<String>| resolve_pid.requires((instance.last_pid, home)),
    ensures
        exists|home: Option<String>|
            crate::selection::opt_string_view(home) == probe_home(*instance) && resolve_pid.ensures(
                (instance.last_pid, home),
                b,
            ),
{
    let home = if crate::providers::is_default_instance_id(&instance.id) {
        None
    } else {
        Some(instance.data_dir.clone())
    };
    let b = resolve_pid(instance.last_pid, home);
    proof {
        assert(crate::selection::opt_string_view(home) == probe_home(*instance));
    }
    b
}

} // verus!
