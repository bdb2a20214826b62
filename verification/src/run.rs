//! A repair run over several instances as a state machine: the caller scans
//! an instance, asks what to do with it, performs the writes, and records the
//! outcome; the run keeps the totals and builds the summary.
use vstd::prelude::*;
use crate::modes::{CodexSessionVisibilityRepairMode, CodexSessionVisibilityRepairOptions};
use crate::messages::{
    build_dry_run_summary_message, build_encrypted_content_warning, build_running_refusal_message,
    build_summary_message,
    dry_run_summary_message, encrypted_content_warning, running_refusal_message, summary_message,
    total_count, ProviderCount,
};
use crate::workspace_path::views;

verus! {

/// The provider that instances without a configured one use.
pub open spec fn default_provider_id() -> Seq<char> {
    "openai"@
}

/// A Codex instance: its id, display name, data directory and last known pid.
#[derive(Debug, Clone)]
pub struct CodexSyncInstance {
    pub id: String,
    pub name: String,
    pub data_dir: String,
    pub last_pid: Option<u32>,
}

impl CodexSyncInstance {
    /// A copy of the instance.
    pub fn duplicate(&self) -> (r: Self)
        ensures
            r == *self,
    {
        CodexSyncInstance {
            id: self.id.clone(),
            name: self.name.clone(),
            data_dir: self.data_dir.clone(),
            last_pid: self.last_pid,
        }
    }
}

/// What a repair of the local thread catalog changes.
#[derive(Debug, Clone, Copy, Default)]
pub struct CatalogRepairCounts {
    pub inserted_rows: usize,
    pub removed_rows: usize,
    pub updated_rows: usize,
}

impl CatalogRepairCounts {
    /// All changed catalog rows.
    pub fn total(self) -> (r: usize)
        requires
            self.inserted_rows + self.removed_rows + self.updated_rows <= usize::MAX,
        ensures
            r == self.inserted_rows + self.removed_rows + self.updated_rows,
    {
        self.inserted_rows + self.removed_rows + self.updated_rows
    }
}

/// What reconciling the session index changed.
#[derive(Debug, Clone, Copy, Default)]
pub struct SessionIndexReconcileResult {
    pub added_entries: usize,
    pub updated_entries: usize,
}

/// What the scan of one instance found to change.
#[derive(Debug, Clone, Copy, Default)]
pub struct InstanceScan {
    pub rollout_change_count: usize,
    pub sqlite_rows_to_update: usize,
    pub skipped_unusable_database: bool,
    pub sqlite_timestamp_rows_to_update: usize,
    pub session_index_entries_to_add: usize,
    pub session_index_entries_to_update: usize,
    pub catalog: CatalogRepairCounts,
    pub global_state_entries_to_update: usize,
}

/// The scan found something to change.
pub open spec fn scan_has_changes(s: InstanceScan) -> bool {
    s.rollout_change_count > 0 || s.sqlite_rows_to_update > 0 || s.sqlite_timestamp_rows_to_update
        > 0 || s.session_index_entries_to_add > 0 || s.session_index_entries_to_update > 0
        || s.catalog.inserted_rows + s.catalog.removed_rows + s.catalog.updated_rows > 0
        || s.global_state_entries_to_update > 0
}

/// The counts of a scan fit the integer type when added up.
pub open spec fn scan_fits(s: InstanceScan) -> bool {
    &&& s.catalog.inserted_rows + s.catalog.removed_rows + s.catalog.updated_rows <= usize::MAX
    &&& s.sqlite_rows_to_update + s.catalog.updated_rows <= usize::MAX
}

impl InstanceScan {
    /// Whether the counts of the scan can be added up (see `scan_fits`).
    pub fn fits(&self) -> (b: bool)
        ensures
            b == scan_fits(*self),
    {
        let c = self.catalog;
        c.inserted_rows <= usize::MAX - c.removed_rows && c.inserted_rows + c.removed_rows
            <= usize::MAX - c.updated_rows && self.sqlite_rows_to_update <= usize::MAX
            - c.updated_rows
    }

    /// Whether the instance has anything to repair.
    pub fn has_planned_changes(&self) -> (b: bool)
        requires
            scan_fits(*self),
        ensures
            b == scan_has_changes(*self),
            b == (self.rollout_change_count > 0 || self.sqlite_rows_to_update > 0
                || self.sqlite_timestamp_rows_to_update > 0 || self.session_index_entries_to_add > 0
                || self.session_index_entries_to_update > 0 || self.catalog.inserted_rows > 0
                || self.catalog.removed_rows > 0 || self.catalog.updated_rows > 0
                || self.global_state_entries_to_update > 0),
    {
        self.rollout_change_count > 0 || self.sqlite_rows_to_update > 0
            || self.sqlite_timestamp_rows_to_update > 0 || self.session_index_entries_to_add > 0
            || self.session_index_entries_to_update > 0 || self.catalog.total() > 0
            || self.global_state_entries_to_update > 0
    }

    /// Whether the backup has to hold the SQLite databases.
    pub fn backup_includes_sqlite(&self) -> (b: bool)
        requires
            scan_fits(*self),
        ensures
            b == (self.sqlite_rows_to_update > 0 || self.sqlite_timestamp_rows_to_update > 0
                || self.catalog.inserted_rows + self.catalog.removed_rows
                + self.catalog.updated_rows > 0),
    {
        self.sqlite_rows_to_update > 0 || self.sqlite_timestamp_rows_to_update > 0
            || self.catalog.total() > 0
    }

    /// Whether the session index is touched (and so backed up and rewritten).
    pub fn touches_session_index(&self) -> (b: bool)
        ensures
            b == (self.session_index_entries_to_add > 0 || self.session_index_entries_to_update > 0),
    {
        self.session_index_entries_to_add > 0 || self.session_index_entries_to_update > 0
    }
}

/// What the writes of one instance repair changed.
#[derive(Debug, Clone, Copy, Default)]
pub struct RepairSingleInstanceResult {
    pub updated_sqlite_rows: usize,
    pub updated_sqlite_timestamp_rows: usize,
    pub added_session_index_entries: usize,
    pub updated_session_index_entries: usize,
    pub inserted_catalog_rows: usize,
    pub removed_catalog_rows: usize,
    pub updated_global_state_entries: usize,
    pub skipped_rollout_files: usize,
}

impl RepairSingleInstanceResult {
    /// Puts together the outcome of the writes of one instance: the provider
    /// rows and the catalog rows updated count as SQLite rows.
    pub fn from_parts(
        sqlite_rows_updated: usize,
        catalog: CatalogRepairCounts,
        sqlite_timestamp_rows_updated: usize,
        session_index: SessionIndexReconcileResult,
        updated_global_state_entries: usize,
        skipped_rollout_files: usize,
    ) -> (r: Self)
        requires
            sqlite_rows_updated + catalog.updated_rows <= usize::MAX,
        ensures
            r == (RepairSingleInstanceResult {
                updated_sqlite_rows: (sqlite_rows_updated + catalog.updated_rows) as usize,
                updated_sqlite_timestamp_rows: sqlite_timestamp_rows_updated,
                added_session_index_entries: session_index.added_entries,
                updated_session_index_entries: session_index.updated_entries,
                inserted_catalog_rows: catalog.inserted_rows,
                removed_catalog_rows: catalog.removed_rows,
                updated_global_state_entries,
                skipped_rollout_files,
            }),
    {
        RepairSingleInstanceResult {
            updated_sqlite_rows: sqlite_rows_updated + catalog.updated_rows,
            updated_sqlite_timestamp_rows: sqlite_timestamp_rows_updated,
            added_session_index_entries: session_index.added_entries,
            updated_session_index_entries: session_index.updated_entries,
            inserted_catalog_rows: catalog.inserted_rows,
            removed_catalog_rows: catalog.removed_rows,
            updated_global_state_entries,
            skipped_rollout_files,
        }
    }
}

/// The outcome for one instance, as the summary lists it.
#[derive(Debug, Clone)]
pub struct CodexSessionVisibilityRepairItem {
    pub instance_id: String,
    pub instance_name: String,
    pub target_provider: String,
    pub changed_rollout_file_count: usize,
    pub updated_sqlite_row_count: usize,
    pub updated_sqlite_timestamp_row_count: usize,
    pub added_session_index_entry_count: usize,
    pub updated_session_index_entry_count: usize,
    pub inserted_catalog_row_count: usize,
    pub removed_catalog_row_count: usize,
    pub updated_global_state_entry_count: usize,
    pub skipped_rollout_file_count: usize,
    pub skipped_sqlite_file: bool,
    pub metadata_rebuild_failed: bool,
    pub backup_dir: Option<String>,
    pub running: bool,
}

/// The summary of a whole run.
#[derive(Debug, Clone)]
pub struct CodexSessionVisibilityRepairSummary {
    pub instance_count: usize,
    pub mutated_instance_count: usize,
    pub changed_rollout_file_count: usize,
    pub updated_sqlite_row_count: usize,
    pub updated_sqlite_timestamp_row_count: usize,
    pub added_session_index_entry_count: usize,
    pub updated_session_index_entry_count: usize,
    pub inserted_catalog_row_count: usize,
    pub removed_catalog_row_count: usize,
    pub updated_global_state_entry_count: usize,
    pub skipped_rollout_file_count: usize,
    pub encrypted_content_warning: Option<String>,
    pub skipped_sqlite_file_count: usize,
    pub metadata_rebuild_failed_count: usize,
    pub items: Vec<CodexSessionVisibilityRepairItem>,
    pub backup_dirs: Vec<String>,
    pub message: String,
}

/// The item changed something.
pub open spec fn item_changed(it: CodexSessionVisibilityRepairItem) -> bool {
    it.changed_rollout_file_count > 0 || it.updated_sqlite_row_count > 0
        || it.updated_sqlite_timestamp_row_count > 0 || it.added_session_index_entry_count > 0
        || it.updated_session_index_entry_count > 0 || it.inserted_catalog_row_count > 0
        || it.removed_catalog_row_count > 0 || it.updated_global_state_entry_count > 0
}

/// The quantities a run adds up over its items.
pub enum Tally {
    Mutated,
    MutatedRunning,
    ChangedRollout,
    UpdatedSqlite,
    UpdatedSqliteTimestamp,
    AddedSessionIndex,
    UpdatedSessionIndex,
    InsertedCatalog,
    RemovedCatalog,
    UpdatedGlobalState,
    SkippedRollout,
    SkippedSqlite,
    MetadataRebuildFailed,
}

fn flag(b: bool) -> (n: usize)
    ensures
        n == (if b { 1nat } else { 0nat }),
{
    if b {
        1
    } else {
        0
    }
}

/// What one item contributes to a tally.
pub open spec fn item_tally(it: CodexSessionVisibilityRepairItem, t: Tally) -> nat {
    match t {
        Tally::Mutated => if item_changed(it) {
            1
        } else {
            0
        },
        Tally::MutatedRunning => if item_changed(it) && it.running {
            1
        } else {
            0
        },
        Tally::ChangedRollout => it.changed_rollout_file_count as nat,
        Tally::UpdatedSqlite => it.updated_sqlite_row_count as nat,
        Tally::UpdatedSqliteTimestamp => it.updated_sqlite_timestamp_row_count as nat,
        Tally::AddedSessionIndex => it.added_session_index_entry_count as nat,
        Tally::UpdatedSessionIndex => it.updated_session_index_entry_count as nat,
        Tally::InsertedCatalog => it.inserted_catalog_row_count as nat,
        Tally::RemovedCatalog => it.removed_catalog_row_count as nat,
        Tally::UpdatedGlobalState => it.updated_global_state_entry_count as nat,
        Tally::SkippedRollout => it.skipped_rollout_file_count as nat,
        Tally::SkippedSqlite => if it.skipped_sqlite_file {
            1
        } else {
            0
        },
        Tally::MetadataRebuildFailed => if it.metadata_rebuild_failed {
            1
        } else {
            0
        },
    }
}

/// A tally summed over items.
pub open spec fn sum_items(items: Seq<CodexSessionVisibilityRepairItem>, t: Tally) -> nat
    decreases items.len(),
{
    if items.len() == 0 {
        0
    } else {
        sum_items(items.drop_last(), t) + item_tally(items.last(), t)
    }
}

/// The backup directories of the items that have one, in order.
pub open spec fn item_backup_dirs(items: Seq<CodexSessionVisibilityRepairItem>) -> Seq<Seq<char>>
    decreases items.len(),
{
    if items.len() == 0 {
        seq![]
    } else {
        match items.last().backup_dir {
            Some(d) => item_backup_dirs(items.drop_last()).push(d@),
            None => item_backup_dirs(items.drop_last()),
        }
    }
}

/// The state of a repair run.
pub struct RepairRun {
    pub options: CodexSessionVisibilityRepairOptions,
    pub mutated_instance_count: usize,
    pub mutated_running_instance_count: usize,
    pub changed_rollout_file_count: usize,
    pub updated_sqlite_row_count: usize,
    pub updated_sqlite_timestamp_row_count: usize,
    pub added_session_index_entry_count: usize,
    pub updated_session_index_entry_count: usize,
    pub inserted_catalog_row_count: usize,
    pub removed_catalog_row_count: usize,
    pub updated_global_state_entry_count: usize,
    pub skipped_rollout_file_count: usize,
    pub skipped_sqlite_file_count: usize,
    pub metadata_rebuild_failed_count: usize,
    pub encrypted_content_counts: Vec<ProviderCount>,
    pub items: Vec<CodexSessionVisibilityRepairItem>,
    pub backup_dirs: Vec<String>,
}

/// The run's counter for a tally.
pub open spec fn run_tally(r: RepairRun, t: Tally) -> nat {
    match t {
        Tally::Mutated => r.mutated_instance_count as nat,
        Tally::MutatedRunning => r.mutated_running_instance_count as nat,
        Tally::ChangedRollout => r.changed_rollout_file_count as nat,
        Tally::UpdatedSqlite => r.updated_sqlite_row_count as nat,
        Tally::UpdatedSqliteTimestamp => r.updated_sqlite_timestamp_row_count as nat,
        Tally::AddedSessionIndex => r.added_session_index_entry_count as nat,
        Tally::UpdatedSessionIndex => r.updated_session_index_entry_count as nat,
        Tally::InsertedCatalog => r.inserted_catalog_row_count as nat,
        Tally::RemovedCatalog => r.removed_catalog_row_count as nat,
        Tally::UpdatedGlobalState => r.updated_global_state_entry_count as nat,
        Tally::SkippedRollout => r.skipped_rollout_file_count as nat,
        Tally::SkippedSqlite => r.skipped_sqlite_file_count as nat,
        Tally::MetadataRebuildFailed => r.metadata_rebuild_failed_count as nat,
    }
}

/// Every counter of the run is the sum of that tally over its items.
#[verifier::opaque]
pub open spec fn tallies_match(r: RepairRun) -> bool {
    forall|t: Tally| #[trigger] run_tally(r, t) == sum_items(r.items@, t)
}

/// Every counter of the run is the sum over its items, the backup list is the
/// items' backup directories, and a dry run holds no backup.
pub open spec fn run_consistent(r: RepairRun) -> bool {
    &&& tallies_match(r)
    &&& views(r.backup_dirs@) == item_backup_dirs(r.items@)
    &&& r.options.dry_run ==> forall|i: int|
        0 <= i < r.items.len() ==> (#[trigger] r.items@[i]).backup_dir is None
    &&& total_count(r.encrypted_content_counts@) <= usize::MAX
}

/// Adding an item keeps every counter within its integer type.
pub open spec fn run_can_absorb(r: RepairRun, it: CodexSessionVisibilityRepairItem) -> bool {
    forall|t: Tally| run_tally(r, t) + #[trigger] item_tally(it, t) <= usize::MAX
}

/// What to do with a scanned instance.
#[derive(Debug, Clone, Copy, PartialEq, Eq, Structural)]
pub enum InstanceAction {
    /// Stop the run: the full repair of a running instance is refused.
    RefuseRunning,
    /// A dry run: record the planned changes, write nothing.
    RecordPlan,
    /// Nothing to repair; rebuild the official metadata if the profile asks to.
    NothingToRepair,
    /// Back up, write, and record what was written.
    Repair,
}

/// The decision for a scanned instance.
pub open spec fn instance_action(
    options: CodexSessionVisibilityRepairOptions,
    scan: InstanceScan,
    running: bool,
) -> InstanceAction {
    if scan_has_changes(scan) && running && options.require_stopped_instances && !options.dry_run {
        InstanceAction::RefuseRunning
    } else if options.dry_run {
        InstanceAction::RecordPlan
    } else if !scan_has_changes(scan) {
        InstanceAction::NothingToRepair
    } else {
        InstanceAction::Repair
    }
}

/// A dry run only records plans: whatever an instance's scan and state, the
/// run neither writes nor refuses it.
pub proof fn dry_run_only_records_plans(
    options: CodexSessionVisibilityRepairOptions,
    scan: InstanceScan,
    running: bool,
)
    requires
        options.dry_run,
    ensures
        instance_action(options, scan, running) == InstanceAction::RecordPlan,
{
}

/// The quick repair (and every automatic repair) never refuses a running
/// instance: it only writes what a running app can take.
pub proof fn quick_repair_never_refuses_running(
    mode: crate::modes::CodexSessionVisibilityAutoRepairMode,
    scan: InstanceScan,
    running: bool,
)
    ensures
        instance_action(crate::modes::profile_for_mode(CodexSessionVisibilityRepairMode::Quick), scan, running)
            != InstanceAction::RefuseRunning,
        instance_action(crate::modes::profile_for_auto_repair_mode(mode), scan, running)
            != InstanceAction::RefuseRunning,
{
}

/// A full repair that is not a dry run refuses a running instance exactly
/// when the instance has something to repair.
pub proof fn deep_repair_refuses_running_instances_with_changes(scan: InstanceScan)
    ensures
        (instance_action(crate::modes::profile_for_mode(CodexSessionVisibilityRepairMode::Deep), scan, true)
            == InstanceAction::RefuseRunning) == scan_has_changes(scan),
        instance_action(crate::modes::profile_for_mode(CodexSessionVisibilityRepairMode::Deep), scan, false)
            != InstanceAction::RefuseRunning,
{
}

/// Every finding of a scan is a change to make: a repair that is not a dry run
/// repairs a stopped instance (or one it may repair while running) as soon as
/// any count of its scan is positive, including a global state to normalize,
/// and leaves an instance whose counts are all zero untouched.
pub proof fn every_finding_is_repaired(options: CodexSessionVisibilityRepairOptions, scan: InstanceScan, running: bool)
    ensures
        !options.dry_run && !(running && options.require_stopped_instances) && (scan.rollout_change_count
            > 0 || scan.sqlite_rows_to_update > 0 || scan.sqlite_timestamp_rows_to_update > 0
            || scan.session_index_entries_to_add > 0 || scan.session_index_entries_to_update > 0
            || scan.catalog.inserted_rows > 0 || scan.catalog.removed_rows > 0 || scan.catalog.updated_rows
            > 0 || scan.global_state_entries_to_update > 0) ==> instance_action(options, scan, running)
            == InstanceAction::Repair,
        scan.rollout_change_count == 0 && scan.sqlite_rows_to_update == 0
            && scan.sqlite_timestamp_rows_to_update == 0 && scan.session_index_entries_to_add == 0
            && scan.session_index_entries_to_update == 0 && scan.catalog.inserted_rows == 0
            && scan.catalog.removed_rows == 0 && scan.catalog.updated_rows == 0
            && scan.global_state_entries_to_update == 0 ==> instance_action(options, scan, running)
            != InstanceAction::Repair && instance_action(options, scan, running)
            != InstanceAction::RefuseRunning,
{
}

/// The item of a dry run.
pub open spec fn planned_item(
    instance: CodexSyncInstance,
    target_provider: String,
    scan: InstanceScan,
    running: bool,
) -> CodexSessionVisibilityRepairItem {
    CodexSessionVisibilityRepairItem {
        instance_id: instance.id,
        instance_name: instance.name,
        target_provider,
        changed_rollout_file_count: scan.rollout_change_count,
        updated_sqlite_row_count: (scan.sqlite_rows_to_update + scan.catalog.updated_rows) as usize,
        updated_sqlite_timestamp_row_count: scan.sqlite_timestamp_rows_to_update,
        added_session_index_entry_count: scan.session_index_entries_to_add,
        updated_session_index_entry_count: scan.session_index_entries_to_update,
        inserted_catalog_row_count: scan.catalog.inserted_rows,
        removed_catalog_row_count: scan.catalog.removed_rows,
        updated_global_state_entry_count: scan.global_state_entries_to_update,
        skipped_rollout_file_count: 0,
        skipped_sqlite_file: scan.skipped_unusable_database,
        metadata_rebuild_failed: false,
        backup_dir: None,
        running,
    }
}

/// The item of an instance with nothing to repair.
pub open spec fn unchanged_item(
    instance: CodexSyncInstance,
    target_provider: String,
    scan: InstanceScan,
    running: bool,
    metadata_rebuild_failed: bool,
) -> CodexSessionVisibilityRepairItem {
    CodexSessionVisibilityRepairItem {
        instance_id: instance.id,
        instance_name: instance.name,
        target_provider,
        changed_rollout_file_count: 0,
        updated_sqlite_row_count: 0,
        updated_sqlite_timestamp_row_count: 0,
        added_session_index_entry_count: 0,
        updated_session_index_entry_count: 0,
        inserted_catalog_row_count: 0,
        removed_catalog_row_count: 0,
        updated_global_state_entry_count: 0,
        skipped_rollout_file_count: 0,
        skipped_sqlite_file: scan.skipped_unusable_database,
        metadata_rebuild_failed,
        backup_dir: None,
        running,
    }
}

/// The rollout rewrites that were applied: the planned ones minus the skipped.
pub open spec fn applied_rollout_count(scan: InstanceScan, result: RepairSingleInstanceResult) -> nat {
    if scan.rollout_change_count >= result.skipped_rollout_files {
        (scan.rollout_change_count - result.skipped_rollout_files) as nat
    } else {
        0
    }
}

/// The writes of an instance changed something.
pub open spec fn repair_mutated(scan: InstanceScan, result: RepairSingleInstanceResult) -> bool {
    applied_rollout_count(scan, result) > 0 || result.updated_sqlite_rows > 0
        || result.updated_sqlite_timestamp_rows > 0 || result.added_session_index_entries > 0
        || result.updated_session_index_entries > 0 || result.inserted_catalog_rows > 0
        || result.removed_catalog_rows > 0 || result.updated_global_state_entries > 0
}

/// The item of a repaired instance.
pub open spec fn repaired_item(
    instance: CodexSyncInstance,
    target_provider: String,
    scan: InstanceScan,
    result: RepairSingleInstanceResult,
    backup_dir: String,
    running: bool,
    metadata_rebuild_failed: bool,
) -> CodexSessionVisibilityRepairItem {
    CodexSessionVisibilityRepairItem {
        instance_id: instance.id,
        instance_name: instance.name,
        target_provider,
        changed_rollout_file_count: applied_rollout_count(scan, result) as usize,
        updated_sqlite_row_count: result.updated_sqlite_rows,
        updated_sqlite_timestamp_row_count: result.updated_sqlite_timestamp_rows,
        added_session_index_entry_count: result.added_session_index_entries,
        updated_session_index_entry_count: result.updated_session_index_entries,
        inserted_catalog_row_count: result.inserted_catalog_rows,
        removed_catalog_row_count: result.removed_catalog_rows,
        updated_global_state_entry_count: result.updated_global_state_entries,
        skipped_rollout_file_count: result.skipped_rollout_files,
        skipped_sqlite_file: scan.skipped_unusable_database,
        metadata_rebuild_failed,
        backup_dir: Some(backup_dir),
        running,
    }
}

proof fn lemma_sum_push(
    items: Seq<CodexSessionVisibilityRepairItem>,
    it: CodexSessionVisibilityRepairItem,
    t: Tally,
)
    ensures
        sum_items(items.push(it), t) == sum_items(items, t) + item_tally(it, t),
{
    assert(items.push(it).drop_last() == items);
}

/// The summary sentence for a run's totals.
pub open spec fn run_message(r: RepairRun) -> Seq<char> {
    if r.options.dry_run {
        dry_run_summary_message(
            r.mutated_instance_count as nat,
            r.changed_rollout_file_count as nat,
            r.updated_sqlite_row_count as nat,
            r.updated_sqlite_timestamp_row_count as nat,
            r.added_session_index_entry_count as nat,
            r.updated_session_index_entry_count as nat,
            r.inserted_catalog_row_count as nat,
            r.removed_catalog_row_count as nat,
            r.updated_global_state_entry_count as nat,
            r.mutated_running_instance_count as nat,
        )
    } else {
        summary_message(
            r.mutated_instance_count as nat,
            r.changed_rollout_file_count as nat,
            r.updated_sqlite_row_count as nat,
            r.updated_sqlite_timestamp_row_count as nat,
            r.added_session_index_entry_count as nat,
            r.updated_session_index_entry_count as nat,
            r.inserted_catalog_row_count as nat,
            r.removed_catalog_row_count as nat,
            r.updated_global_state_entry_count as nat,
            r.skipped_rollout_file_count as nat,
            r.mutated_running_instance_count as nat,
            r.metadata_rebuild_failed_count as nat,
        )
    }
}

/// The provider the encrypted-history warning is measured against: that of the
/// first item, or the default provider.
pub open spec fn warning_target(items: Seq<CodexSessionVisibilityRepairItem>) -> Seq<char> {
    if items.len() > 0 {
        items[0].target_provider@
    } else {
        default_provider_id()
    }
}

proof fn lemma_absorb_bounds(r: RepairRun, it: CodexSessionVisibilityRepairItem)
    requires
        run_can_absorb(r, it),
    ensures
        r.mutated_instance_count + item_tally(it, Tally::Mutated) <= usize::MAX,
        r.mutated_running_instance_count + item_tally(it, Tally::MutatedRunning) <= usize::MAX,
        r.changed_rollout_file_count + it.changed_rollout_file_count <= usize::MAX,
        r.updated_sqlite_row_count + it.updated_sqlite_row_count <= usize::MAX,
        r.updated_sqlite_timestamp_row_count + it.updated_sqlite_timestamp_row_count <= usize::MAX,
        r.added_session_index_entry_count + it.added_session_index_entry_count <= usize::MAX,
        r.updated_session_index_entry_count + it.updated_session_index_entry_count <= usize::MAX,
        r.inserted_catalog_row_count + it.inserted_catalog_row_count <= usize::MAX,
        r.removed_catalog_row_count + it.removed_catalog_row_count <= usize::MAX,
        r.updated_global_state_entry_count + it.updated_global_state_entry_count <= usize::MAX,
        r.skipped_rollout_file_count + it.skipped_rollout_file_count <= usize::MAX,
        r.skipped_sqlite_file_count + item_tally(it, Tally::SkippedSqlite) <= usize::MAX,
        r.metadata_rebuild_failed_count + item_tally(it, Tally::MetadataRebuildFailed) <= usize::MAX,
{
    assert(run_tally(r, Tally::Mutated) + item_tally(it, Tally::Mutated) <= usize::MAX);
    assert(run_tally(r, Tally::MutatedRunning) + item_tally(it, Tally::MutatedRunning) <= usize::MAX);
    assert(run_tally(r, Tally::ChangedRollout) + item_tally(it, Tally::ChangedRollout) <= usize::MAX);
    assert(run_tally(r, Tally::UpdatedSqlite) + item_tally(it, Tally::UpdatedSqlite) <= usize::MAX);
    assert(run_tally(r, Tally::UpdatedSqliteTimestamp) + item_tally(it, Tally::UpdatedSqliteTimestamp)
        <= usize::MAX);
    assert(run_tally(r, Tally::AddedSessionIndex) + item_tally(it, Tally::AddedSessionIndex)
        <= usize::MAX);
    assert(run_tally(r, Tally::UpdatedSessionIndex) + item_tally(it, Tally::UpdatedSessionIndex)
        <= usize::MAX);
    assert(run_tally(r, Tally::InsertedCatalog) + item_tally(it, Tally::InsertedCatalog) <= usize::MAX);
    assert(run_tally(r, Tally::RemovedCatalog) + item_tally(it, Tally::RemovedCatalog) <= usize::MAX);
    assert(run_tally(r, Tally::UpdatedGlobalState) + item_tally(it, Tally::UpdatedGlobalState)
        <= usize::MAX);
    assert(run_tally(r, Tally::SkippedRollout) + item_tally(it, Tally::SkippedRollout) <= usize::MAX);
    assert(run_tally(r, Tally::SkippedSqlite) + item_tally(it, Tally::SkippedSqlite) <= usize::MAX);
    assert(run_tally(r, Tally::MetadataRebuildFailed) + item_tally(it, Tally::MetadataRebuildFailed)
        <= usize::MAX);
}

proof fn lemma_tallies_after_push(a: RepairRun, b: RepairRun, it: CodexSessionVisibilityRepairItem)
    requires
        b.mutated_instance_count == a.mutated_instance_count + item_tally(it, Tally::Mutated),
        b.mutated_running_instance_count == a.mutated_running_instance_count + item_tally(
            it,
            Tally::MutatedRunning,
        ),
        b.changed_rollout_file_count == a.changed_rollout_file_count + it.changed_rollout_file_count,
        b.updated_sqlite_row_count == a.updated_sqlite_row_count + it.updated_sqlite_row_count,
        b.updated_sqlite_timestamp_row_count == a.updated_sqlite_timestamp_row_count
            + it.updated_sqlite_timestamp_row_count,
        b.added_session_index_entry_count == a.added_session_index_entry_count
            + it.added_session_index_entry_count,
        b.updated_session_index_entry_count == a.updated_session_index_entry_count
            + it.updated_session_index_entry_count,
        b.inserted_catalog_row_count == a.inserted_catalog_row_count + it.inserted_catalog_row_count,
        b.removed_catalog_row_count == a.removed_catalog_row_count + it.removed_catalog_row_count,
        b.updated_global_state_entry_count == a.updated_global_state_entry_count
            + it.updated_global_state_entry_count,
        b.skipped_rollout_file_count == a.skipped_rollout_file_count + it.skipped_rollout_file_count,
        b.skipped_sqlite_file_count == a.skipped_sqlite_file_count + item_tally(
            it,
            Tally::SkippedSqlite,
        ),
        b.metadata_rebuild_failed_count == a.metadata_rebuild_failed_count + item_tally(
            it,
            Tally::MetadataRebuildFailed,
        ),
    ensures
        forall|t: Tally| #[trigger] run_tally(b, t) == run_tally(a, t) + item_tally(it, t),
{
}

proof fn lemma_tallies_match_push(a: RepairRun, b: RepairRun, it: CodexSessionVisibilityRepairItem)
    requires
        tallies_match(a),
        b.items@ == a.items@.push(it),
        forall|t: Tally| #[trigger] run_tally(b, t) == run_tally(a, t) + item_tally(it, t),
    ensures
        tallies_match(b),
{
    reveal(tallies_match);
    assert forall|t: Tally| #[trigger] run_tally(b, t) == sum_items(b.items@, t) by {
        lemma_sum_push(a.items@, it, t);
    }
}

proof fn lemma_backups_push(
    old_items: Seq<CodexSessionVisibilityRepairItem>,
    old_dirs: Seq<String>,
    new_items: Seq<CodexSessionVisibilityRepairItem>,
    new_dirs: Seq<String>,
    it: CodexSessionVisibilityRepairItem,
)
    requires
        views(old_dirs) == item_backup_dirs(old_items),
        new_items == old_items.push(it),
        new_dirs == match it.backup_dir {
            Some(d) => old_dirs.push(d),
            None => old_dirs,
        },
    ensures
        views(new_dirs) == item_backup_dirs(new_items),
{
    assert(new_items.drop_last() == old_items);
    match it.backup_dir {
        Some(d) => {
            assert(views(new_dirs) =~= views(old_dirs).push(d@));
        },
        None => {},
    }
}

proof fn lemma_unbacked_push(
    old_items: Seq<CodexSessionVisibilityRepairItem>,
    new_items: Seq<CodexSessionVisibilityRepairItem>,
    it: CodexSessionVisibilityRepairItem,
)
    requires
        forall|i: int| 0 <= i < old_items.len() ==> (#[trigger] old_items[i]).backup_dir is None,
        new_items == old_items.push(it),
        it.backup_dir is None,
    ensures
        forall|i: int| 0 <= i < new_items.len() ==> (#[trigger] new_items[i]).backup_dir is None,
{
    assert forall|i: int| 0 <= i < new_items.len() implies (#[trigger] new_items[i]).backup_dir is None by {
        if i < old_items.len() {
            assert(new_items[i] == old_items[i]);
        }
    }
}

impl RepairRun {
    /// Starts a run over `instance_count` instances; a run needs at least one.
    pub fn start(options: CodexSessionVisibilityRepairOptions, instance_count: usize) -> (r: Result<
        Self,
        String,
    >)
        ensures
            instance_count == 0 <==> r is Err,
            r matches Err(e) ==> e@ == "未找到要修复的 Codex 实例"@,
            r matches Ok(run) ==> {
                &&& run_consistent(run)
                &&& run.options == options
                &&& run.items.len() == 0
                &&& run.encrypted_content_counts.len() == 0
            },
    {
        if instance_count == 0 {
            return Err("未找到要修复的 Codex 实例".to_string());
        }
        let run = RepairRun {
            options,
            mutated_instance_count: 0,
            mutated_running_instance_count: 0,
            changed_rollout_file_count: 0,
            updated_sqlite_row_count: 0,
            updated_sqlite_timestamp_row_count: 0,
            added_session_index_entry_count: 0,
            updated_session_index_entry_count: 0,
            inserted_catalog_row_count: 0,
            removed_catalog_row_count: 0,
            updated_global_state_entry_count: 0,
            skipped_rollout_file_count: 0,
            skipped_sqlite_file_count: 0,
            metadata_rebuild_failed_count: 0,
            encrypted_content_counts: Vec::new(),
            items: Vec::new(),
            backup_dirs: Vec::new(),
        };
        proof {
            assert(views(run.backup_dirs@) =~= item_backup_dirs(run.items@));
            reveal(tallies_match);
        }
        Ok(run)
    }

    /// Adds the encrypted-content counts that one instance's rollout facts found.
    pub fn add_encrypted_content_counts(&mut self, counts: &Vec<ProviderCount>)
        requires
            run_consistent(*old(self)),
            total_count(old(self).encrypted_content_counts@) + total_count(counts@) <= usize::MAX,
        ensures
            run_consistent(*final(self)),
            final(self).encrypted_content_counts@ == old(self).encrypted_content_counts@ + counts@,
            final(self).items == old(self).items,
            final(self).options == old(self).options,
            forall|t: Tally| run_tally(*final(self), t) == run_tally(*old(self), t),
    {
        let ghost start = self.encrypted_content_counts@;
        let mut i: usize = 0;
        while i < counts.len()
            invariant
                i <= counts.len(),
                self.encrypted_content_counts@ == start + counts@.subrange(0, i as int),
                total_count(start) + total_count(counts@) <= usize::MAX,
                self.items == old(self).items,
                self.options == old(self).options,
                self.backup_dirs == old(self).backup_dirs,
                forall|t: Tally| run_tally(*self, t) == run_tally(*old(self), t),
            decreases counts.len() - i,
        {
            proof {
                lemma_total_concat(start, counts@.subrange(0, i + 1));
                crate::messages::lemma_total_count_prefix(counts@, i + 1);
                assert((start + counts@.subrange(0, i as int)).push(counts@[i as int]) == start
                    + counts@.subrange(0, i + 1));
            }
            let c = ProviderCount { provider: counts[i].provider.clone(), count: counts[i].count };
            self.encrypted_content_counts.push(c);
            i = i + 1;
        }
        proof {
            assert(counts@.subrange(0, counts.len() as int) == counts@);
            lemma_total_concat(start, counts@);
            reveal(tallies_match);
            assert forall|t: Tally| #[trigger] run_tally(*self, t) == sum_items(self.items@, t) by {
                assert(run_tally(*self, t) == run_tally(*old(self), t));
            }
        }
    }

    /// What to do with a scanned instance: a full repair of a running instance
    /// with something to change is refused (except in a dry run); a dry run
    /// records the plan; otherwise an instance is repaired when it has changes.
    pub fn decide(&self, scan: &InstanceScan, running: bool) -> (a: InstanceAction)
        requires
            scan_fits(*scan),
        ensures
            a == instance_action(self.options, *scan, running),
    {
        let planned = scan.has_planned_changes();
        if planned && running && self.options.require_stopped_instances && !self.options.dry_run {
            InstanceAction::RefuseRunning
        } else if self.options.dry_run {
            InstanceAction::RecordPlan
        } else if !planned {
            InstanceAction::NothingToRepair
        } else {
            InstanceAction::Repair
        }
    }

    /// The error that stops the run when a running instance would be repaired.
    pub fn refusal(&self, instance: &CodexSyncInstance) -> (e: String)
        ensures
            e@ == running_refusal_message(instance.name@),
    {
        build_running_refusal_message(instance.name.as_str())
    }

    fn add_tallies(&mut self, it: &CodexSessionVisibilityRepairItem)
        requires
            old(self).mutated_instance_count + item_tally(*it, Tally::Mutated) <= usize::MAX,
            old(self).mutated_running_instance_count + item_tally(*it, Tally::MutatedRunning)
                <= usize::MAX,
            old(self).changed_rollout_file_count + it.changed_rollout_file_count <= usize::MAX,
            old(self).updated_sqlite_row_count + it.updated_sqlite_row_count <= usize::MAX,
            old(self).updated_sqlite_timestamp_row_count + it.updated_sqlite_timestamp_row_count
                <= usize::MAX,
            old(self).added_session_index_entry_count + it.added_session_index_entry_count
                <= usize::MAX,
            old(self).updated_session_index_entry_count + it.updated_session_index_entry_count
                <= usize::MAX,
            old(self).inserted_catalog_row_count + it.inserted_catalog_row_count <= usize::MAX,
            old(self).removed_catalog_row_count + it.removed_catalog_row_count <= usize::MAX,
            old(self).updated_global_state_entry_count + it.updated_global_state_entry_count
                <= usize::MAX,
            old(self).skipped_rollout_file_count + it.skipped_rollout_file_count <= usize::MAX,
            old(self).skipped_sqlite_file_count + item_tally(*it, Tally::SkippedSqlite) <= usize::MAX,
            old(self).metadata_rebuild_failed_count + item_tally(*it, Tally::MetadataRebuildFailed)
                <= usize::MAX,
        ensures
            final(self).mutated_instance_count == old(self).mutated_instance_count + item_tally(
                *it,
                Tally::Mutated,
            ),
            final(self).mutated_running_instance_count == old(self).mutated_running_instance_count
                + item_tally(*it, Tally::MutatedRunning),
            final(self).changed_rollout_file_count == old(self).changed_rollout_file_count
                + it.changed_rollout_file_count,
            final(self).updated_sqlite_row_count == old(self).updated_sqlite_row_count
                + it.updated_sqlite_row_count,
            final(self).updated_sqlite_timestamp_row_count == old(
                self,
            ).updated_sqlite_timestamp_row_count + it.updated_sqlite_timestamp_row_count,
            final(self).added_session_index_entry_count == old(self).added_session_index_entry_count
                + it.added_session_index_entry_count,
            final(self).updated_session_index_entry_count == old(
                self,
            ).updated_session_index_entry_count + it.updated_session_index_entry_count,
            final(self).inserted_catalog_row_count == old(self).inserted_catalog_row_count
                + it.inserted_catalog_row_count,
            final(self).removed_catalog_row_count == old(self).removed_catalog_row_count
                + it.removed_catalog_row_count,
            final(self).updated_global_state_entry_count == old(self).updated_global_state_entry_count
                + it.updated_global_state_entry_count,
            final(self).skipped_rollout_file_count == old(self).skipped_rollout_file_count
                + it.skipped_rollout_file_count,
            final(self).skipped_sqlite_file_count == old(self).skipped_sqlite_file_count + item_tally(
                *it,
                Tally::SkippedSqlite,
            ),
            final(self).metadata_rebuild_failed_count == old(self).metadata_rebuild_failed_count
                + item_tally(*it, Tally::MetadataRebuildFailed),
            final(self).options == old(self).options,
            final(self).encrypted_content_counts == old(self).encrypted_content_counts,
            final(self).items == old(self).items,
            final(self).backup_dirs == old(self).backup_dirs,
    {
        let changed = it.changed_rollout_file_count > 0 || it.updated_sqlite_row_count > 0
            || it.updated_sqlite_timestamp_row_count > 0 || it.added_session_index_entry_count > 0
            || it.updated_session_index_entry_count > 0 || it.inserted_catalog_row_count > 0
            || it.removed_catalog_row_count > 0 || it.updated_global_state_entry_count > 0;
        self.mutated_instance_count = self.mutated_instance_count + flag(changed);
        self.mutated_running_instance_count = self.mutated_running_instance_count + flag(
            changed && it.running,
        );
        self.changed_rollout_file_count = self.changed_rollout_file_count
            + it.changed_rollout_file_count;
        self.updated_sqlite_row_count = self.updated_sqlite_row_count + it.updated_sqlite_row_count;
        self.updated_sqlite_timestamp_row_count = self.updated_sqlite_timestamp_row_count
            + it.updated_sqlite_timestamp_row_count;
        self.added_session_index_entry_count = self.added_session_index_entry_count
            + it.added_session_index_entry_count;
        self.updated_session_index_entry_count = self.updated_session_index_entry_count
            + it.updated_session_index_entry_count;
        self.inserted_catalog_row_count = self.inserted_catalog_row_count
            + it.inserted_catalog_row_count;
        self.removed_catalog_row_count = self.removed_catalog_row_count
            + it.removed_catalog_row_count;
        self.updated_global_state_entry_count = self.updated_global_state_entry_count
            + it.updated_global_state_entry_count;
        self.skipped_rollout_file_count = self.skipped_rollout_file_count
            + it.skipped_rollout_file_count;
        self.skipped_sqlite_file_count = self.skipped_sqlite_file_count + flag(
            it.skipped_sqlite_file,
        );
        self.metadata_rebuild_failed_count = self.metadata_rebuild_failed_count + flag(
            it.metadata_rebuild_failed,
        );
    }

    fn push_item(&mut self, it: CodexSessionVisibilityRepairItem)
        requires
            run_consistent(*old(self)),
            run_can_absorb(*old(self), it),
            old(self).options.dry_run ==> it.backup_dir is None,
        ensures
            run_consistent(*final(self)),
            final(self).items@ == old(self).items@.push(it),
            final(self).options == old(self).options,
            final(self).encrypted_content_counts == old(self).encrypted_content_counts,
            forall|t: Tally| run_tally(*final(self), t) == run_tally(*old(self), t) + item_tally(it, t),
    {
        proof {
            lemma_absorb_bounds(*self, it);
        }
        let ghost before = *self;
        self.add_tallies(&it);
        let ghost old_items = self.items@;
        let ghost old_dirs = self.backup_dirs@;
        let ghost pushed = it;
        match &it.backup_dir {
            Some(d) => {
                self.backup_dirs.push(d.clone());
            },
            None => {},
        }
        self.items.push(it);
        proof {
            lemma_tallies_after_push(before, *self, pushed);
            lemma_tallies_match_push(before, *self, pushed);
            lemma_backups_push(old_items, old_dirs, self.items@, self.backup_dirs@, pushed);
            if self.options.dry_run {
                lemma_unbacked_push(old_items, self.items@, pushed);
            }
        }
    }

    /// Whether the run's counters can take an item without overflowing (see
    /// `run_can_absorb`).
    pub fn can_absorb(&self, it: &CodexSessionVisibilityRepairItem) -> (b: bool)
        ensures
            b == run_can_absorb(*self, *it),
    {
        let changed = it.changed_rollout_file_count > 0 || it.updated_sqlite_row_count > 0
            || it.updated_sqlite_timestamp_row_count > 0 || it.added_session_index_entry_count > 0
            || it.updated_session_index_entry_count > 0 || it.inserted_catalog_row_count > 0
            || it.removed_catalog_row_count > 0 || it.updated_global_state_entry_count > 0;
        let ok = self.mutated_instance_count <= usize::MAX - flag(changed)
            && self.mutated_running_instance_count <= usize::MAX - flag(changed && it.running)
            && self.changed_rollout_file_count <= usize::MAX - it.changed_rollout_file_count
            && self.updated_sqlite_row_count <= usize::MAX - it.updated_sqlite_row_count
            && self.updated_sqlite_timestamp_row_count <= usize::MAX
            - it.updated_sqlite_timestamp_row_count && self.added_session_index_entry_count
            <= usize::MAX - it.added_session_index_entry_count
            && self.updated_session_index_entry_count <= usize::MAX
            - it.updated_session_index_entry_count && self.inserted_catalog_row_count
            <= usize::MAX - it.inserted_catalog_row_count && self.removed_catalog_row_count
            <= usize::MAX - it.removed_catalog_row_count && self.updated_global_state_entry_count
            <= usize::MAX - it.updated_global_state_entry_count && self.skipped_rollout_file_count
            <= usize::MAX - it.skipped_rollout_file_count && self.skipped_sqlite_file_count
            <= usize::MAX - flag(it.skipped_sqlite_file) && self.metadata_rebuild_failed_count
            <= usize::MAX - flag(it.metadata_rebuild_failed);
        proof {
            if ok {
                assert forall|t: Tally| run_tally(*self, t) + #[trigger] item_tally(*it, t)
                    <= usize::MAX by {
                    match t {
                        Tally::Mutated => {},
                        Tally::MutatedRunning => {},
                        Tally::ChangedRollout => {},
                        Tally::UpdatedSqlite => {},
                        Tally::UpdatedSqliteTimestamp => {},
                        Tally::AddedSessionIndex => {},
                        Tally::UpdatedSessionIndex => {},
                        Tally::InsertedCatalog => {},
                        Tally::RemovedCatalog => {},
                        Tally::UpdatedGlobalState => {},
                        Tally::SkippedRollout => {},
                        Tally::SkippedSqlite => {},
                        Tally::MetadataRebuildFailed => {},
                    }
                }
            } else {
                assert(!run_can_absorb(*self, *it)) by {
                    let _ = item_tally(*it, Tally::Mutated);
                    let _ = item_tally(*it, Tally::MutatedRunning);
                    let _ = item_tally(*it, Tally::ChangedRollout);
                    let _ = item_tally(*it, Tally::UpdatedSqlite);
                    let _ = item_tally(*it, Tally::UpdatedSqliteTimestamp);
                    let _ = item_tally(*it, Tally::AddedSessionIndex);
                    let _ = item_tally(*it, Tally::UpdatedSessionIndex);
                    let _ = item_tally(*it, Tally::InsertedCatalog);
                    let _ = item_tally(*it, Tally::RemovedCatalog);
                    let _ = item_tally(*it, Tally::UpdatedGlobalState);
                    let _ = item_tally(*it, Tally::SkippedRollout);
                    let _ = item_tally(*it, Tally::SkippedSqlite);
                    let _ = item_tally(*it, Tally::MetadataRebuildFailed);
                }
            }
        }
        ok
    }

    /// The item a dry run records for an instance (see `planned_item`).
    pub fn planned_item_for(
        instance: &CodexSyncInstance,
        target_provider: String,
        scan: &InstanceScan,
        running: bool,
    ) -> (it: CodexSessionVisibilityRepairItem)
        requires
            scan_fits(*scan),
        ensures
            it == planned_item(*instance, target_provider, *scan, running),
    {
        CodexSessionVisibilityRepairItem {
            instance_id: instance.id.clone(),
            instance_name: instance.name.clone(),
            target_provider,
            changed_rollout_file_count: scan.rollout_change_count,
            updated_sqlite_row_count: scan.sqlite_rows_to_update + scan.catalog.updated_rows,
            updated_sqlite_timestamp_row_count: scan.sqlite_timestamp_rows_to_update,
            added_session_index_entry_count: scan.session_index_entries_to_add,
            updated_session_index_entry_count: scan.session_index_entries_to_update,
            inserted_catalog_row_count: scan.catalog.inserted_rows,
            removed_catalog_row_count: scan.catalog.removed_rows,
            updated_global_state_entry_count: scan.global_state_entries_to_update,
            skipped_rollout_file_count: 0,
            skipped_sqlite_file: scan.skipped_unusable_database,
            metadata_rebuild_failed: false,
            backup_dir: None,
            running,
        }
    }

    /// The item recorded for an instance with nothing to repair (see
    /// `unchanged_item`).
    pub fn unchanged_item_for(
        instance: &CodexSyncInstance,
        target_provider: String,
        scan: &InstanceScan,
        running: bool,
        metadata_rebuild_failed: bool,
    ) -> (it: CodexSessionVisibilityRepairItem)
        ensures
            it == unchanged_item(*instance, target_provider, *scan, running, metadata_rebuild_failed),
    {
        CodexSessionVisibilityRepairItem {
            instance_id: instance.id.clone(),
            instance_name: instance.name.clone(),
            target_provider,
            changed_rollout_file_count: 0,
            updated_sqlite_row_count: 0,
            updated_sqlite_timestamp_row_count: 0,
            added_session_index_entry_count: 0,
            updated_session_index_entry_count: 0,
            inserted_catalog_row_count: 0,
            removed_catalog_row_count: 0,
            updated_global_state_entry_count: 0,
            skipped_rollout_file_count: 0,
            skipped_sqlite_file: scan.skipped_unusable_database,
            metadata_rebuild_failed,
            backup_dir: None,
            running,
        }
    }

    /// The item recorded for a repaired instance (see `repaired_item`).
    pub fn repaired_item_for(
        instance: &CodexSyncInstance,
        target_provider: String,
        scan: &InstanceScan,
        result: &RepairSingleInstanceResult,
        backup_dir: String,
        running: bool,
        metadata_rebuild_failed: bool,
    ) -> (it: CodexSessionVisibilityRepairItem)
        ensures
            it == repaired_item(
                *instance,
                target_provider,
                *scan,
                *result,
                backup_dir,
                running,
                metadata_rebuild_failed,
            ),
    {
        let applied = scan.rollout_change_count.saturating_sub(result.skipped_rollout_files);
        CodexSessionVisibilityRepairItem {
            instance_id: instance.id.clone(),
            instance_name: instance.name.clone(),
            target_provider,
            changed_rollout_file_count: applied,
            updated_sqlite_row_count: result.updated_sqlite_rows,
            updated_sqlite_timestamp_row_count: result.updated_sqlite_timestamp_rows,
            added_session_index_entry_count: result.added_session_index_entries,
            updated_session_index_entry_count: result.updated_session_index_entries,
            inserted_catalog_row_count: result.inserted_catalog_rows,
            removed_catalog_row_count: result.removed_catalog_rows,
            updated_global_state_entry_count: result.updated_global_state_entries,
            skipped_rollout_file_count: result.skipped_rollout_files,
            skipped_sqlite_file: scan.skipped_unusable_database,
            metadata_rebuild_failed,
            backup_dir: Some(backup_dir),
            running,
        }
    }

    /// Records the planned changes of an instance in a dry run.
    pub fn record_plan(
        &mut self,
        instance: &CodexSyncInstance,
        target_provider: String,
        scan: &InstanceScan,
        running: bool,
    )
        requires
            run_consistent(*old(self)),
            old(self).options.dry_run,
            scan_fits(*scan),
            run_can_absorb(*old(self), planned_item(*instance, target_provider, *scan, running)),
        ensures
            run_consistent(*final(self)),
            final(self).items@ == old(self).items@.push(
                planned_item(*instance, target_provider, *scan, running),
            ),
            final(self).options == old(self).options,
            final(self).encrypted_content_counts == old(self).encrypted_content_counts,
    {
        let it = Self::planned_item_for(instance, target_provider, scan, running);
        self.push_item(it);
    }

    /// Records an instance with nothing to repair; `metadata_rebuild_failed`
    /// says whether the requested metadata rebuild failed.
    pub fn record_unchanged(
        &mut self,
        instance: &CodexSyncInstance,
        target_provider: String,
        scan: &InstanceScan,
        running: bool,
        metadata_rebuild_failed: bool,
    )
        requires
            run_consistent(*old(self)),
            !old(self).options.dry_run,
            metadata_rebuild_failed ==> old(self).options.rebuild_metadata,
            run_can_absorb(
                *old(self),
                unchanged_item(*instance, target_provider, *scan, running, metadata_rebuild_failed),
            ),
        ensures
            run_consistent(*final(self)),
            final(self).items@ == old(self).items@.push(
                unchanged_item(*instance, target_provider, *scan, running, metadata_rebuild_failed),
            ),
            final(self).options == old(self).options,
            final(self).encrypted_content_counts == old(self).encrypted_content_counts,
    {
        let it = Self::unchanged_item_for(
            instance,
            target_provider,
            scan,
            running,
            metadata_rebuild_failed,
        );
        self.push_item(it);
    }

    /// Whether the official metadata has to be rebuilt after the writes of an
    /// instance: the profile asks for it and the writes changed something.
    pub fn needs_metadata_rebuild(&self, scan: &InstanceScan, result: &RepairSingleInstanceResult) -> (b:
        bool)
        ensures
            b == (self.options.rebuild_metadata && repair_mutated(*scan, *result)),
    {
        let applied = scan.rollout_change_count.saturating_sub(result.skipped_rollout_files);
        let mutated = applied > 0 || result.updated_sqlite_rows > 0
            || result.updated_sqlite_timestamp_rows > 0 || result.added_session_index_entries > 0
            || result.updated_session_index_entries > 0 || result.inserted_catalog_rows > 0
            || result.removed_catalog_rows > 0 || result.updated_global_state_entries > 0;
        self.options.rebuild_metadata && mutated
    }

    /// Records a repaired instance: what the writes changed, where the backup is,
    /// and whether the metadata rebuild that followed failed.
    pub fn record_repaired(
        &mut self,
        instance: &CodexSyncInstance,
        target_provider: String,
        scan: &InstanceScan,
        result: &RepairSingleInstanceResult,
        backup_dir: String,
        running: bool,
        metadata_rebuild_failed: bool,
    )
        requires
            run_consistent(*old(self)),
            !old(self).options.dry_run,
            metadata_rebuild_failed ==> old(self).options.rebuild_metadata && repair_mutated(
                *scan,
                *result,
            ),
            run_can_absorb(
                *old(self),
                repaired_item(
                    *instance,
                    target_provider,
                    *scan,
                    *result,
                    backup_dir,
                    running,
                    metadata_rebuild_failed,
                ),
            ),
        ensures
            run_consistent(*final(self)),
            final(self).items@ == old(self).items@.push(
                repaired_item(
                    *instance,
                    target_provider,
                    *scan,
                    *result,
                    backup_dir,
                    running,
                    metadata_rebuild_failed,
                ),
            ),
            final(self).options == old(self).options,
            final(self).encrypted_content_counts == old(self).encrypted_content_counts,
    {
        let it = Self::repaired_item_for(
            instance,
            target_provider,
            scan,
            result,
            backup_dir,
            running,
            metadata_rebuild_failed,
        );
        self.push_item(it);
    }

    /// The summary of the run: the totals, the items in order, the backup
    /// directories, the summary sentence and the encrypted-history warning.
    pub fn finish(self) -> (s: CodexSessionVisibilityRepairSummary)
        requires
            run_consistent(self),
        ensures
            s.instance_count == self.items.len(),
            s.mutated_instance_count == self.mutated_instance_count,
            s.changed_rollout_file_count == self.changed_rollout_file_count,
            s.updated_sqlite_row_count == self.updated_sqlite_row_count,
            s.updated_sqlite_timestamp_row_count == self.updated_sqlite_timestamp_row_count,
            s.added_session_index_entry_count == self.added_session_index_entry_count,
            s.updated_session_index_entry_count == self.updated_session_index_entry_count,
            s.inserted_catalog_row_count == self.inserted_catalog_row_count,
            s.removed_catalog_row_count == self.removed_catalog_row_count,
            s.updated_global_state_entry_count == self.updated_global_state_entry_count,
            s.skipped_rollout_file_count == self.skipped_rollout_file_count,
            s.skipped_sqlite_file_count == self.skipped_sqlite_file_count,
            s.metadata_rebuild_failed_count == self.metadata_rebuild_failed_count,
            s.items@ == self.items@,
            s.backup_dirs@ == self.backup_dirs@,
            s.message@ == run_message(self),
            match s.encrypted_content_warning {
                Some(w) => encrypted_content_warning(
                    self.encrypted_content_counts@,
                    warning_target(self.items@),
                ) == Some(w@),
                None => encrypted_content_warning(
                    self.encrypted_content_counts@,
                    warning_target(self.items@),
                ) is None,
            },
    {
        let message = if self.options.dry_run {
            build_dry_run_summary_message(
                self.mutated_instance_count,
                self.changed_rollout_file_count,
                self.updated_sqlite_row_count,
                self.updated_sqlite_timestamp_row_count,
                self.added_session_index_entry_count,
                self.updated_session_index_entry_count,
                self.inserted_catalog_row_count,
                self.removed_catalog_row_count,
                self.updated_global_state_entry_count,
                self.skipped_rollout_file_count,
                self.mutated_running_instance_count,
            )
        } else {
            build_summary_message(
                self.mutated_instance_count,
                self.changed_rollout_file_count,
                self.updated_sqlite_row_count,
                self.updated_sqlite_timestamp_row_count,
                self.added_session_index_entry_count,
                self.updated_session_index_entry_count,
                self.inserted_catalog_row_count,
                self.removed_catalog_row_count,
                self.updated_global_state_entry_count,
                self.skipped_rollout_file_count,
                self.mutated_running_instance_count,
                self.skipped_sqlite_file_count,
                self.metadata_rebuild_failed_count,
            )
        };
        let warning = if self.items.len() > 0 {
            build_encrypted_content_warning(
                &self.encrypted_content_counts,
                self.items[0].target_provider.as_str(),
            )
        } else {
            build_encrypted_content_warning(&self.encrypted_content_counts, "openai")
        };
        CodexSessionVisibilityRepairSummary {
            instance_count: self.items.len(),
            mutated_instance_count: self.mutated_instance_count,
            changed_rollout_file_count: self.changed_rollout_file_count,
            updated_sqlite_row_count: self.updated_sqlite_row_count,
            updated_sqlite_timestamp_row_count: self.updated_sqlite_timestamp_row_count,
            added_session_index_entry_count: self.added_session_index_entry_count,
            updated_session_index_entry_count: self.updated_session_index_entry_count,
            inserted_catalog_row_count: self.inserted_catalog_row_count,
            removed_catalog_row_count: self.removed_catalog_row_count,
            updated_global_state_entry_count: self.updated_global_state_entry_count,
            skipped_rollout_file_count: self.skipped_rollout_file_count,
            encrypted_content_warning: warning,
            skipped_sqlite_file_count: self.skipped_sqlite_file_count,
            metadata_rebuild_failed_count: self.metadata_rebuild_failed_count,
            items: self.items,
            backup_dirs: self.backup_dirs,
            message,
        }
    }
}

proof fn lemma_total_concat(a: Seq<ProviderCount>, b: Seq<ProviderCount>)
    ensures
        total_count(a + b) == total_count(a) + total_count(b),
    decreases b.len(),
{
    if b.len() > 0 {
        lemma_total_concat(a, b.drop_last());
        assert((a + b).drop_last() == a + b.drop_last());
    } else {
        assert(a + b == a);
    }
}

/// A progress report of a run.
#[derive(Debug, Clone)]
pub struct CodexSessionVisibilityRepairProgress {
    pub run_id: Option<String>,
    pub mode: CodexSessionVisibilityRepairMode,
    pub stage: String,
    pub percent: u8,
    pub current: usize,
    pub total: usize,
    pub instance_id: Option<String>,
    pub instance_name: Option<String>,
}

/// The progress report for a stage; the percentage is capped at 100.
pub fn repair_progress(
    run_id: &Option<String>,
    options: CodexSessionVisibilityRepairOptions,
    stage: &str,
    percent: u8,
    current: usize,
    total: usize,
    instance: Option<&CodexSyncInstance>,
) -> (p: CodexSessionVisibilityRepairProgress)
    ensures
        p.run_id == *run_id,
        p.mode == options.mode,
        p.stage@ == stage@,
        p.percent == if percent > 100 {
            100
        } else {
            percent
        },
        p.current == current,
        p.total == total,
        p.instance_id == match instance {
            Some(i) => Some(i.id),
            None => None::<String>,
        },
        p.instance_name == match instance {
            Some(i) => Some(i.name),
            None => None::<String>,
        },
{
    let rid = match run_id {
        Some(r) => Some(r.clone()),
        None => None,
    };
    let (iid, iname) = match instance {
        Some(i) => (Some(i.id.clone()), Some(i.name.clone())),
        None => (None, None),
    };
    CodexSessionVisibilityRepairProgress {
        run_id: rid,
        mode: options.mode,
        stage: stage.to_string(),
        percent: if percent > 100 {
            100
        } else {
            percent
        },
        current,
        total,
        instance_id: iid,
        instance_name: iname,
    }
}

/// Where the rollout files to repair come from.
#[derive(Debug, Clone, Copy, PartialEq, Eq, Structural)]
pub enum RolloutScan {
    /// Every rollout file under the session directories.
    AllFiles,
    /// The rollout files the state databases reference.
    Referenced,
    /// No rollout file is repaired.
    NoFiles,
}

/// The scan of one instance: where its rollout files come from, and which of
/// the other counts are taken.
#[derive(Debug, Clone, Copy)]
pub struct InstanceScanPlan {
    pub collect_rollout_thread_facts: bool,
    pub rollouts: RolloutScan,
    pub count_sqlite_timestamps: bool,
    pub count_session_index: bool,
    pub count_catalog: bool,
    pub count_global_state: bool,
}

/// What the profile scans of each instance.
pub open spec fn scan_plan_of(o: CodexSessionVisibilityRepairOptions) -> InstanceScanPlan {
    InstanceScanPlan {
        collect_rollout_thread_facts: o.collect_rollout_thread_facts,
        rollouts: if o.repair_rollout {
            RolloutScan::AllFiles
        } else if o.repair_referenced_rollouts {
            RolloutScan::Referenced
        } else {
            RolloutScan::NoFiles
        },
        count_sqlite_timestamps: o.repair_sqlite_timestamps,
        count_session_index: o.repair_session_index,
        count_catalog: o.repair_local_thread_catalog,
        count_global_state: o.normalize_global_state,
    }
}

/// What the profile scans of each instance (see `scan_plan_of`); the provider
/// rows of the state databases are always counted.
pub fn instance_scan_plan(options: CodexSessionVisibilityRepairOptions) -> (p: InstanceScanPlan)
    ensures
        p == scan_plan_of(options),
{
    InstanceScanPlan {
        collect_rollout_thread_facts: options.collect_rollout_thread_facts,
        rollouts: if options.repair_rollout {
            RolloutScan::AllFiles
        } else if options.repair_referenced_rollouts {
            RolloutScan::Referenced
        } else {
            RolloutScan::NoFiles
        },
        count_sqlite_timestamps: options.repair_sqlite_timestamps,
        count_session_index: options.repair_session_index,
        count_catalog: options.repair_local_thread_catalog,
        count_global_state: options.normalize_global_state,
    }
}

/// A step of the writes of one instance, with the progress stage it reports.
#[derive(Debug, Clone, Copy, PartialEq, Eq, Structural)]
pub enum InstanceRepairStep {
    /// Gather what the rollout files say about threads.
    CollectFacts,
    /// Move the state databases' rows to the target provider (`write_sqlite_provider`).
    WriteSqliteProvider,
    /// Rebuild the local thread catalog.
    RepairCatalog,
    /// Rewrite one rollout file (`write_rollout_files`), by its index.
    WriteRolloutFile(usize),
    /// Repair the update times of the database rows (`write_sqlite_timestamps`).
    WriteSqliteTimestamps,
    /// Add and update session index entries (`write_session_index`).
    WriteSessionIndex,
    /// Normalize the workspace paths of the global state.
    NormalizeGlobalState,
}

/// The writes of one instance in order: gather the thread facts (when the
/// profile does), the provider rows (when some need it), the catalog (when the
/// profile does), each rollout file, the times (when some need it), the
/// session index (when it needs it), and the global state (when the profile does).
pub open spec fn repair_steps_of(
    o: CodexSessionVisibilityRepairOptions,
    update_sqlite: bool,
    update_sqlite_timestamps: bool,
    reconcile_session_index: bool,
    rollout_count: nat,
) -> Seq<InstanceRepairStep> {
    (if o.collect_rollout_thread_facts {
        seq![InstanceRepairStep::CollectFacts]
    } else {
        seq![]
    }) + (if update_sqlite {
        seq![InstanceRepairStep::WriteSqliteProvider]
    } else {
        seq![]
    }) + (if o.repair_local_thread_catalog {
        seq![InstanceRepairStep::RepairCatalog]
    } else {
        seq![]
    }) + Seq::new(rollout_count, |i: int| InstanceRepairStep::WriteRolloutFile(i as usize)) + (
    if update_sqlite_timestamps {
        seq![InstanceRepairStep::WriteSqliteTimestamps]
    } else {
        seq![]
    }) + (if reconcile_session_index {
        seq![InstanceRepairStep::WriteSessionIndex]
    } else {
        seq![]
    }) + (if o.normalize_global_state {
        seq![InstanceRepairStep::NormalizeGlobalState]
    } else {
        seq![]
    })
}

fn push_step_if(v: &mut Vec<InstanceRepairStep>, cond: bool, step: InstanceRepairStep)
    ensures
        final(v)@ == old(v)@ + if cond {
            seq![step]
        } else {
            Seq::<InstanceRepairStep>::empty()
        },
{
    if cond {
        v.push(step);
        proof {
            assert(v@ =~= old(v)@ + seq![step]);
        }
    } else {
        proof {
            assert(v@ =~= old(v)@ + Seq::<InstanceRepairStep>::empty());
        }
    }
}

/// The writes of one instance in order (see `repair_steps_of`).
pub fn instance_repair_steps(
    options: CodexSessionVisibilityRepairOptions,
    update_sqlite: bool,
    update_sqlite_timestamps: bool,
    reconcile_session_index: bool,
    rollout_count: usize,
) -> (r: Vec<InstanceRepairStep>)
    ensures
        r@ == repair_steps_of(
            options,
            update_sqlite,
            update_sqlite_timestamps,
            reconcile_session_index,
            rollout_count as nat,
        ),
{
    let mut v: Vec<InstanceRepairStep> = Vec::new();
    push_step_if(&mut v, options.collect_rollout_thread_facts, InstanceRepairStep::CollectFacts);
    push_step_if(&mut v, update_sqlite, InstanceRepairStep::WriteSqliteProvider);
    push_step_if(&mut v, options.repair_local_thread_catalog, InstanceRepairStep::RepairCatalog);
    let ghost head = v@;
    let mut i: usize = 0;
    while i < rollout_count
        invariant
            i <= rollout_count,
            v@ == head + Seq::new(i as nat, |j: int| InstanceRepairStep::WriteRolloutFile(j as usize)),
        decreases rollout_count - i,
    {
        v.push(InstanceRepairStep::WriteRolloutFile(i));
        proof {
            assert(v@ =~= head + Seq::new(
                (i + 1) as nat,
                |j: int| InstanceRepairStep::WriteRolloutFile(j as usize),
            ));
        }
        i = i + 1;
    }
    push_step_if(&mut v, update_sqlite_timestamps, InstanceRepairStep::WriteSqliteTimestamps);
    push_step_if(&mut v, reconcile_session_index, InstanceRepairStep::WriteSessionIndex);
    push_step_if(&mut v, options.normalize_global_state, InstanceRepairStep::NormalizeGlobalState);
    proof {
        assert(v@ =~= repair_steps_of(
            options,
            update_sqlite,
            update_sqlite_timestamps,
            reconcile_session_index,
            rollout_count as nat,
        ));
    }
    v
}

} // verus!
