//! Repair modes and the repair profile (which stores are touched, and how)
//! that each mode stands for.
use vstd::prelude::*;

verus! {

/// How thoroughly a repair run works.
#[derive(Debug, Clone, Copy, PartialEq, Eq, Structural)]
pub enum CodexSessionVisibilityRepairMode {
    /// Only the official state databases and the rollout files they reference.
    Quick,
    /// Every session database, every rollout file, the local catalog and the
    /// global workspace state.
    Deep,
}

/// The automatic repair profiles that earlier releases used; all of them now
/// run the quick repair.
#[derive(Debug, Clone, Copy, PartialEq, Eq, Structural)]
pub enum CodexSessionVisibilityAutoRepairMode {
    LegacyBefore4eb75d96,
    Legacy4eb75d96,
    Current,
}

impl Default for CodexSessionVisibilityAutoRepairMode {
    fn default() -> (r: Self)
        ensures
            r == CodexSessionVisibilityAutoRepairMode::Current,
    {
        CodexSessionVisibilityAutoRepairMode::Current
    }
}

/// The stable name of an automatic repair profile.
pub open spec fn auto_repair_mode_label(mode: CodexSessionVisibilityAutoRepairMode) -> Seq<char> {
    match mode {
        CodexSessionVisibilityAutoRepairMode::LegacyBefore4eb75d96 => "legacy_before_4eb75d96"@,
        CodexSessionVisibilityAutoRepairMode::Legacy4eb75d96 => "legacy_4eb75d96"@,
        CodexSessionVisibilityAutoRepairMode::Current => "current"@,
    }
}

impl CodexSessionVisibilityAutoRepairMode {
    /// The stable name of the profile, as written in logs and settings.
    pub fn label(self) -> (r: &'static str)
        ensures
            r@ == auto_repair_mode_label(self),
    {
        match self {
            CodexSessionVisibilityAutoRepairMode::LegacyBefore4eb75d96 => "legacy_before_4eb75d96",
            CodexSessionVisibilityAutoRepairMode::Legacy4eb75d96 => "legacy_4eb75d96",
            CodexSessionVisibilityAutoRepairMode::Current => "current",
        }
    }
}

/// Which SQLite databases of an instance a repair looks at.
#[derive(Debug, Clone, Copy, PartialEq, Eq, Structural)]
pub enum SqliteRepairScope {
    /// Only `state_5.sqlite` in the instance root.
    LegacyStateOnly,
    /// `sqlite/state_5.sqlite` and `state_5.sqlite`.
    OfficialStateDbs,
    /// Every session database that holds a threads or catalog table.
    AllSessionDbs,
}

/// What one repair run does.
#[derive(Debug, Clone, Copy, PartialEq, Eq, Structural)]
pub struct CodexSessionVisibilityRepairOptions {
    pub mode: CodexSessionVisibilityRepairMode,
    pub dry_run: bool,
    pub repair_rollout: bool,
    pub repair_referenced_rollouts: bool,
    pub rewrite_all_session_meta: bool,
    pub sqlite_scope: SqliteRepairScope,
    pub repair_sqlite_timestamps: bool,
    pub collect_rollout_thread_facts: bool,
    pub repair_session_index: bool,
    pub update_existing_session_index_entries: bool,
    pub rebuild_metadata: bool,
    pub repair_local_thread_catalog: bool,
    pub normalize_global_state: bool,
    pub require_stopped_instances: bool,
    pub sidebar_visible_only: bool,
}

/// The bounded profile: official state databases and the rollouts they
/// reference, sidebar-visible rows only, running instances allowed.
pub open spec fn official_state_db_only_profile(
    mode: CodexSessionVisibilityRepairMode,
) -> CodexSessionVisibilityRepairOptions {
    CodexSessionVisibilityRepairOptions {
        mode,
        dry_run: false,
        repair_rollout: false,
        repair_referenced_rollouts: true,
        rewrite_all_session_meta: mode == CodexSessionVisibilityRepairMode::Deep,
        sqlite_scope: SqliteRepairScope::OfficialStateDbs,
        repair_sqlite_timestamps: false,
        collect_rollout_thread_facts: false,
        repair_session_index: false,
        update_existing_session_index_entries: false,
        rebuild_metadata: false,
        repair_local_thread_catalog: false,
        normalize_global_state: false,
        require_stopped_instances: false,
        sidebar_visible_only: true,
    }
}

/// The full migration profile: every session database and rollout file, the
/// local catalog and the global state; instances must be stopped.
pub open spec fn full_provider_migration_profile() -> CodexSessionVisibilityRepairOptions {
    CodexSessionVisibilityRepairOptions {
        mode: CodexSessionVisibilityRepairMode::Deep,
        dry_run: false,
        repair_rollout: true,
        repair_referenced_rollouts: false,
        rewrite_all_session_meta: true,
        sqlite_scope: SqliteRepairScope::AllSessionDbs,
        repair_sqlite_timestamps: false,
        collect_rollout_thread_facts: true,
        repair_session_index: false,
        update_existing_session_index_entries: false,
        rebuild_metadata: true,
        repair_local_thread_catalog: true,
        normalize_global_state: true,
        require_stopped_instances: true,
        sidebar_visible_only: false,
    }
}

/// The profile that a user-chosen mode runs.
pub open spec fn profile_for_mode(
    mode: CodexSessionVisibilityRepairMode,
) -> CodexSessionVisibilityRepairOptions {
    match mode {
        CodexSessionVisibilityRepairMode::Quick => official_state_db_only_profile(mode),
        CodexSessionVisibilityRepairMode::Deep => full_provider_migration_profile(),
    }
}

/// The profile that an automatic repair runs, whatever its label.
pub open spec fn profile_for_auto_repair_mode(
    mode: CodexSessionVisibilityAutoRepairMode,
) -> CodexSessionVisibilityRepairOptions {
    official_state_db_only_profile(CodexSessionVisibilityRepairMode::Quick)
}

impl CodexSessionVisibilityRepairOptions {
    /// The bounded profile for `mode`.
    pub fn official_state_db_only(mode: CodexSessionVisibilityRepairMode) -> (r: Self)
        ensures
            r == official_state_db_only_profile(mode),
    {
        Self {
            mode,
            dry_run: false,
            repair_rollout: false,
            repair_referenced_rollouts: true,
            rewrite_all_session_meta: match mode {
                CodexSessionVisibilityRepairMode::Deep => true,
                CodexSessionVisibilityRepairMode::Quick => false,
            },
            sqlite_scope: SqliteRepairScope::OfficialStateDbs,
            repair_sqlite_timestamps: false,
            collect_rollout_thread_facts: false,
            repair_session_index: false,
            update_existing_session_index_entries: false,
            rebuild_metadata: false,
            repair_local_thread_catalog: false,
            normalize_global_state: false,
            require_stopped_instances: false,
            sidebar_visible_only: true,
        }
    }

    /// The full provider migration profile.
    pub fn full_provider_migration() -> (r: Self)
        ensures
            r == full_provider_migration_profile(),
    {
        Self {
            mode: CodexSessionVisibilityRepairMode::Deep,
            dry_run: false,
            repair_rollout: true,
            repair_referenced_rollouts: false,
            rewrite_all_session_meta: true,
            sqlite_scope: SqliteRepairScope::AllSessionDbs,
            repair_sqlite_timestamps: false,
            collect_rollout_thread_facts: true,
            repair_session_index: false,
            update_existing_session_index_entries: false,
            rebuild_metadata: true,
            repair_local_thread_catalog: true,
            normalize_global_state: true,
            require_stopped_instances: true,
            sidebar_visible_only: false,
        }
    }

    /// The profile for a user-chosen mode.
    pub fn for_mode(mode: CodexSessionVisibilityRepairMode) -> (r: Self)
        ensures
            r == profile_for_mode(mode),
    {
        match mode {
            CodexSessionVisibilityRepairMode::Quick => Self::official_state_db_only(mode),
            CodexSessionVisibilityRepairMode::Deep => Self::full_provider_migration(),
        }
    }

    /// The profile for an automatic repair; every label runs the quick profile.
    pub fn for_auto_repair_mode(mode: CodexSessionVisibilityAutoRepairMode) -> (r: Self)
        ensures
            r == profile_for_auto_repair_mode(mode),
    {
        let _ = mode;
        Self::official_state_db_only(CodexSessionVisibilityRepairMode::Quick)
    }

    /// The same profile with the dry-run flag set to `dry_run`.
    pub fn with_dry_run(self, dry_run: bool) -> (r: Self)
        ensures
            r == (Self { dry_run, ..self }),
    {
        let mut next = self;
        next.dry_run = dry_run;
        next
    }
}

/// Automatic repair, whatever its label, is the quick profile: it stays on the
/// official state databases, never scans every rollout, never rewrites every
/// session_meta record, never touches the session index and never asks the
/// official app server to rebuild its metadata.
pub proof fn auto_repair_stays_on_official_state_dbs(mode: CodexSessionVisibilityAutoRepairMode)
    ensures
        profile_for_auto_repair_mode(mode) == profile_for_mode(
            CodexSessionVisibilityRepairMode::Quick,
        ),
        profile_for_auto_repair_mode(mode).sqlite_scope == SqliteRepairScope::OfficialStateDbs,
        !profile_for_auto_repair_mode(mode).repair_rollout,
        profile_for_auto_repair_mode(mode).repair_referenced_rollouts,
        !profile_for_auto_repair_mode(mode).rewrite_all_session_meta,
        !profile_for_auto_repair_mode(mode).repair_session_index,
        !profile_for_auto_repair_mode(mode).rebuild_metadata,
        !profile_for_auto_repair_mode(mode).dry_run,
{
}

/// Every profile works on exactly one of two rollout sources: all rollout
/// files, or the rollout files that the databases reference; only the deep
/// profile requires the instances to be stopped.
pub proof fn profiles_pick_one_rollout_source(mode: CodexSessionVisibilityRepairMode)
    ensures
        profile_for_mode(mode).repair_rollout != profile_for_mode(mode).repair_referenced_rollouts,
        profile_for_mode(mode).require_stopped_instances == (mode
            == CodexSessionVisibilityRepairMode::Deep),
        profile_for_mode(mode).mode == mode,
{
}

/// Setting the dry-run flag twice keeps the last value and changes nothing else.
pub proof fn dry_run_flag_last_wins(
    options: CodexSessionVisibilityRepairOptions,
    first: bool,
    second: bool,
)
    ensures
        (CodexSessionVisibilityRepairOptions {
            dry_run: second,
            ..(CodexSessionVisibilityRepairOptions { dry_run: first, ..options })
        }) == (CodexSessionVisibilityRepairOptions { dry_run: second, ..options }),
{
}

} // verus!
