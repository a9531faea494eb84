//! Legacy financial-aid record migration.
//!
//! Records the mapping of legacy application records into the scholarship
//! domain without losing history: a legacy record keeps its original
//! identifier and submission time, runs are resumable through a monotonic
//! legacy cursor, dry runs never write a mapping, mapping is idempotent, and
//! unmapped records are counted exactly while their browsable detail is
//! capped. A refused call changes nothing.
use vstd::prelude::*;
use crate::table::{Bytes32, Table, bytes32_eq, bytes32_is_zero, is_zero32};

verus! {

pub const CONTRACT_VERSION: u32 = 1;

/// Ceiling on legacy records tracked at once.
pub const MAX_TRACKED_RECORDS: u64 = 50_000;

/// Ceiling on unmapped items retained per run for browsing.
pub const MAX_REPORTED_PER_RUN: u32 = 1_000;

/// Ceiling on concurrent runs.
pub const MAX_RUNS: u64 = 50;

#[derive(Copy, Clone, Debug, PartialEq, Eq, Structural)]
pub enum ContractError {
    NotInitialized,
    AlreadyInitialized,
    NotAdmin,
    /// The run id does not exist.
    RunNotFound,
    /// The run has been sealed and accepts no further records.
    RunSealed,
    /// No legacy record with that id has been seen.
    RecordNotFound,
    /// The legacy id is already tracked under different contents, or the
    /// record is from another system, or in a state that forbids the call.
    RecordConflict,
    /// A zero hash where a commitment is required.
    EmptyCommitment,
    /// The record table is at its ceiling.
    TooManyRecords,
    /// The run table is at its ceiling.
    TooManyRuns,
    /// A dry run attempted to write a mapping.
    DryRunIsReadOnly,
    /// The reported-item window for this run is full.
    TooManyReports,
    /// The legacy cursor would move backwards.
    CursorRegression,
    /// A counter would overflow.
    CounterOverflow,
    /// The record is not tracked.
    NotMapped,
}

impl ContractError {
    /// The stable numeric code a client sees.
    pub fn code(self) -> (c: u32)
        ensures
            c == match self {
                ContractError::NotInitialized => 1u32,
                ContractError::AlreadyInitialized => 2u32,
                ContractError::NotAdmin => 3u32,
                ContractError::RunNotFound => 4u32,
                ContractError::RunSealed => 5u32,
                ContractError::RecordNotFound => 6u32,
                ContractError::RecordConflict => 7u32,
                ContractError::EmptyCommitment => 8u32,
                ContractError::TooManyRecords => 9u32,
                ContractError::TooManyRuns => 10u32,
                ContractError::DryRunIsReadOnly => 11u32,
                ContractError::TooManyReports => 12u32,
                ContractError::CursorRegression => 13u32,
                ContractError::CounterOverflow => 14u32,
                ContractError::NotMapped => 15u32,
            },
    {
        match self {
            ContractError::NotInitialized => 1,
            ContractError::AlreadyInitialized => 2,
            ContractError::NotAdmin => 3,
            ContractError::RunNotFound => 4,
            ContractError::RunSealed => 5,
            ContractError::RecordNotFound => 6,
            ContractError::RecordConflict => 7,
            ContractError::EmptyCommitment => 8,
            ContractError::TooManyRecords => 9,
            ContractError::TooManyRuns => 10,
            ContractError::DryRunIsReadOnly => 11,
            ContractError::TooManyReports => 12,
            ContractError::CursorRegression => 13,
            ContractError::CounterOverflow => 14,
            ContractError::NotMapped => 15,
        }
    }
}

/// Why a legacy record could not be mapped. Codes, never free text.
#[derive(Copy, Clone, Debug, PartialEq, Eq, Structural)]
pub enum UnmappableReason {
    NotEligible,
    NoMatchingProgram,
    DuplicateInLegacy,
    MalformedRecord,
    WithdrawnByApplicant,
    OutsideRetentionWindow,
}

impl UnmappableReason {
    /// The stable numeric code of the reason.
    pub fn code(self) -> (c: u32)
        ensures
            c == match self {
                UnmappableReason::NotEligible => 1u32,
                UnmappableReason::NoMatchingProgram => 2u32,
                UnmappableReason::DuplicateInLegacy => 3u32,
                UnmappableReason::MalformedRecord => 4u32,
                UnmappableReason::WithdrawnByApplicant => 5u32,
                UnmappableReason::OutsideRetentionWindow => 6u32,
            },
    {
        match self {
            UnmappableReason::NotEligible => 1,
            UnmappableReason::NoMatchingProgram => 2,
            UnmappableReason::DuplicateInLegacy => 3,
            UnmappableReason::MalformedRecord => 4,
            UnmappableReason::WithdrawnByApplicant => 5,
            UnmappableReason::OutsideRetentionWindow => 6,
        }
    }
}

/// Where a legacy record ended up.
#[derive(Copy, Clone, Debug, PartialEq, Eq, Structural)]
pub enum RecordState {
    /// Seen and eligible, not yet written.
    Eligible,
    /// Mapped: a domain record was committed in the same transaction.
    Mapped,
    /// Reported as unmappable.
    Unmappable,
    /// Archived after mapping.
    Archived,
}

/// One legacy record. `legacy_id` and `submitted_at` are preserved verbatim.
#[derive(Copy, Clone, Debug, PartialEq, Eq)]
pub struct LegacyRecord {
    pub legacy_id: Bytes32,
    pub source_system: Bytes32,
    pub submitted_at: u64,
    pub payload_hash: Bytes32,
    pub program: Bytes32,
    pub state: RecordState,
    pub reason: u32,
    pub correlation: Bytes32,
    pub mapped_at: u64,
}

/// A migration run.
#[derive(Copy, Clone, Debug, PartialEq, Eq)]
pub struct MigrationRun {
    pub id: u64,
    pub source_system: Bytes32,
    /// A dry run reports and never writes a mapping.
    pub dry_run: bool,
    /// The legacy cursor this run has reached.
    pub cursor: u64,
    /// How many records this run has mapped.
    pub mapped: u32,
    pub sealed: bool,
    pub started_at: u64,
    pub sealed_at: u64,
}

/// The numbers an operator needs to decide whether a migration is done.
#[derive(Copy, Clone, Debug, PartialEq, Eq)]
pub struct RunSummary {
    pub id: u64,
    pub source_system: Bytes32,
    pub dry_run: bool,
    pub cursor: u64,
    pub mapped: u32,
    /// Exact, uncapped.
    pub unmapped: u64,
    /// How many unmapped items are still browsable by index.
    pub unmapped_retained: u32,
    pub sealed: bool,
}

/// The abstract storage of the migration contract.
pub struct MigrationState {
    pub admin: Option<Bytes32>,
    pub next_run_id: u64,
    pub open_runs: u64,
    pub tracked_records: u64,
    pub runs: Map<u64, MigrationRun>,
    pub records: Map<Bytes32, LegacyRecord>,
    pub reports: Map<(u64, u32), Bytes32>,
    pub unmapped_total: Map<u64, u64>,
    pub unmapped_retained: Map<u64, u32>,
}

/// A stored counter, or zero when absent.
pub open spec fn count_or_zero_u64(m: Map<u64, u64>, k: u64) -> u64 {
    if m.contains_key(k) { m[k] } else { 0 }
}

pub open spec fn count_or_zero_u32(m: Map<u64, u32>, k: u64) -> u32 {
    if m.contains_key(k) { m[k] } else { 0 }
}

/// The summary of a run as stored in `s`.
pub open spec fn summary_of(s: MigrationState, run: MigrationRun) -> RunSummary {
    RunSummary {
        id: run.id,
        source_system: run.source_system,
        dry_run: run.dry_run,
        cursor: run.cursor,
        mapped: run.mapped,
        unmapped: count_or_zero_u64(s.unmapped_total, run.id),
        unmapped_retained: count_or_zero_u32(s.unmapped_retained, run.id),
        sealed: run.sealed,
    }
}

/// The operator gate: only the admin may act. Unset counts as not admin.
pub open spec fn operator_check(s: MigrationState, caller: Bytes32) -> Result<(), ContractError> {
    if s.admin == Some(caller) {
        Ok(())
    } else {
        Err(ContractError::NotAdmin)
    }
}

/// The outcome of `begin_run`.
pub open spec fn begin_run_spec(s: MigrationState, operator: Bytes32, source_system: Bytes32, dry_run: bool, now: u64) -> (
    Result<u64, ContractError>,
    MigrationState,
) {
    if operator_check(s, operator) is Err {
        (Err(ContractError::NotAdmin), s)
    } else if s.open_runs >= MAX_RUNS {
        (Err(ContractError::TooManyRuns), s)
    } else if s.next_run_id == u64::MAX {
        (Err(ContractError::CounterOverflow), s)
    } else {
        let id = s.next_run_id;
        let run = MigrationRun {
            id,
            source_system,
            dry_run,
            cursor: 0,
            mapped: 0,
            sealed: false,
            started_at: now,
            sealed_at: 0,
        };
        (
            Ok(id),
            MigrationState {
                runs: s.runs.insert(id, run),
                next_run_id: (id + 1) as u64,
                open_runs: (s.open_runs + 1) as u64,
                ..s
            },
        )
    }
}

/// The outcome of `map_record`.
pub open spec fn map_record_spec(
    s: MigrationState,
    operator: Bytes32,
    run_id: u64,
    legacy_id: Bytes32,
    source_system: Bytes32,
    submitted_at: u64,
    payload_hash: Bytes32,
    program: Bytes32,
    correlation: Bytes32,
    legacy_cursor: u64,
    now: u64,
) -> (Result<RecordState, ContractError>, MigrationState) {
    if operator_check(s, operator) is Err {
        (Err(ContractError::NotAdmin), s)
    } else if is_zero32(payload_hash) {
        (Err(ContractError::EmptyCommitment), s)
    } else if !s.runs.contains_key(run_id) {
        (Err(ContractError::RunNotFound), s)
    } else {
        let run = s.runs[run_id];
        if run.sealed {
            (Err(ContractError::RunSealed), s)
        } else if run.source_system != source_system {
            (Err(ContractError::RecordConflict), s)
        } else if legacy_cursor <= run.cursor {
            // Already offered to this run: report what is recorded, write nothing.
            if s.records.contains_key(legacy_id) {
                (Ok(s.records[legacy_id].state), s)
            } else {
                (Err(ContractError::NotMapped), s)
            }
        } else {
            let advanced = MigrationState {
                runs: s.runs.insert(run_id, MigrationRun { cursor: legacy_cursor, ..run }),
                ..s
            };
            if s.records.contains_key(legacy_id) {
                let existing = s.records[legacy_id];
                if existing.payload_hash != payload_hash || existing.submitted_at != submitted_at {
                    (Err(ContractError::RecordConflict), s)
                } else {
                    (Ok(existing.state), advanced)
                }
            } else if s.tracked_records >= MAX_TRACKED_RECORDS {
                (Err(ContractError::TooManyRecords), s)
            } else if run.dry_run {
                (Ok(RecordState::Eligible), advanced)
            } else if run.mapped == u32::MAX {
                (Err(ContractError::CounterOverflow), s)
            } else {
                let record = LegacyRecord {
                    legacy_id,
                    source_system,
                    submitted_at,
                    payload_hash,
                    program,
                    state: RecordState::Mapped,
                    reason: 0,
                    correlation,
                    mapped_at: now,
                };
                (
                    Ok(RecordState::Mapped),
                    MigrationState {
                        records: s.records.insert(legacy_id, record),
                        tracked_records: (s.tracked_records + 1) as u64,
                        runs: s.runs.insert(
                            run_id,
                            MigrationRun { cursor: legacy_cursor, mapped: (run.mapped + 1) as u32, ..run },
                        ),
                        ..s
                    },
                )
            }
        }
    }
}

/// The outcome of `report_unmapped`.
pub open spec fn report_unmapped_spec(
    s: MigrationState,
    operator: Bytes32,
    run_id: u64,
    legacy_id: Bytes32,
    legacy_cursor: u64,
) -> (Result<(), ContractError>, MigrationState) {
    if operator_check(s, operator) is Err {
        (Err(ContractError::NotAdmin), s)
    } else if !s.runs.contains_key(run_id) {
        (Err(ContractError::RunNotFound), s)
    } else {
        let run = s.runs[run_id];
        let total = count_or_zero_u64(s.unmapped_total, run_id);
        let retained = count_or_zero_u32(s.unmapped_retained, run_id);
        if run.sealed {
            (Err(ContractError::RunSealed), s)
        } else if legacy_cursor <= run.cursor {
            (Ok(()), s)
        } else if s.records.contains_key(legacy_id) && s.records[legacy_id].state != RecordState::Eligible {
            (Err(ContractError::RecordConflict), s)
        } else if total == u64::MAX {
            (Err(ContractError::CounterOverflow), s)
        } else {
            let counted = MigrationState {
                unmapped_total: s.unmapped_total.insert(run_id, (total + 1) as u64),
                runs: s.runs.insert(run_id, MigrationRun { cursor: legacy_cursor, ..run }),
                ..s
            };
            if retained < MAX_REPORTED_PER_RUN {
                (
                    Ok(()),
                    MigrationState {
                        reports: s.reports.insert((run_id, retained), legacy_id),
                        unmapped_retained: s.unmapped_retained.insert(run_id, (retained + 1) as u32),
                        ..counted
                    },
                )
            } else {
                (Ok(()), counted)
            }
        }
    }
}

/// The outcome of `seal_run`: idempotent.
pub open spec fn seal_run_spec(s: MigrationState, operator: Bytes32, run_id: u64, now: u64) -> (
    Result<RunSummary, ContractError>,
    MigrationState,
) {
    if operator_check(s, operator) is Err {
        (Err(ContractError::NotAdmin), s)
    } else if !s.runs.contains_key(run_id) {
        (Err(ContractError::RunNotFound), s)
    } else {
        let run = s.runs[run_id];
        if run.sealed {
            (Ok(summary_of(s, run)), s)
        } else {
            let sealed = MigrationRun { sealed: true, sealed_at: now, ..run };
            let t = MigrationState {
                runs: s.runs.insert(run_id, sealed),
                open_runs: if s.open_runs > 0 { (s.open_runs - 1) as u64 } else { 0 },
                ..s
            };
            (Ok(summary_of(t, sealed)), t)
        }
    }
}

/// The outcome of `archive_record`.
pub open spec fn archive_record_spec(s: MigrationState, operator: Bytes32, legacy_id: Bytes32) -> (
    Result<(), ContractError>,
    MigrationState,
) {
    if operator_check(s, operator) is Err {
        (Err(ContractError::NotAdmin), s)
    } else if !s.records.contains_key(legacy_id) {
        (Err(ContractError::RecordNotFound), s)
    } else if s.records[legacy_id].state != RecordState::Mapped {
        (Err(ContractError::RecordConflict), s)
    } else {
        (
            Ok(()),
            MigrationState {
                records: s.records.insert(legacy_id, LegacyRecord { state: RecordState::Archived, ..s.records[legacy_id] }),
                tracked_records: if s.tracked_records > 0 { (s.tracked_records - 1) as u64 } else { 0 },
                ..s
            },
        )
    }
}

/// Each stored run sits under its own id.
pub open spec fn runs_keyed_by_id(s: MigrationState) -> bool {
    forall|k: u64| #[trigger] s.runs.contains_key(k) ==> s.runs[k].id == k
}

/// The migration contract's storage.
pub struct ScholarshipMigrationContract {
    admin: Option<Bytes32>,
    next_run_id: u64,
    open_runs: u64,
    tracked_records: u64,
    runs: Table<u64, MigrationRun>,
    records: Table<Bytes32, LegacyRecord>,
    reports: Table<(u64, u32), Bytes32>,
    unmapped_total: Table<u64, u64>,
    unmapped_retained: Table<u64, u32>,
}

impl ScholarshipMigrationContract {
    pub closed spec fn wf(&self) -> bool {
        &&& self.runs.wf()
        &&& self.records.wf()
        &&& self.reports.wf()
        &&& self.unmapped_total.wf()
        &&& self.unmapped_retained.wf()
        &&& runs_keyed_by_id(self@)
    }

    pub closed spec fn view(&self) -> MigrationState {
        MigrationState {
            admin: self.admin,
            next_run_id: self.next_run_id,
            open_runs: self.open_runs,
            tracked_records: self.tracked_records,
            runs: self.runs.view(),
            records: self.records.view(),
            reports: self.reports.view(),
            unmapped_total: self.unmapped_total.view(),
            unmapped_retained: self.unmapped_retained.view(),
        }
    }

    /// An empty, uninitialized contract.
    pub fn new() -> (s: Self)
        ensures
            s.wf(),
            s@ == (MigrationState {
                admin: None,
                next_run_id: 0,
                open_runs: 0,
                tracked_records: 0,
                runs: Map::empty(),
                records: Map::empty(),
                reports: Map::empty(),
                unmapped_total: Map::empty(),
                unmapped_retained: Map::empty(),
            }),
    {
        ScholarshipMigrationContract {
            admin: None,
            next_run_id: 0,
            open_runs: 0,
            tracked_records: 0,
            runs: Table::new(),
            records: Table::new(),
            reports: Table::new(),
            unmapped_total: Table::new(),
            unmapped_retained: Table::new(),
        }
    }

    /// Sets the admin and the counters, once.
    pub fn initialize(&mut self, admin: Bytes32) -> (r: Result<(), ContractError>)
        requires
            old(self).wf(),
        ensures
            final(self).wf(),
            old(self)@.admin is Some ==> r == Err::<(), ContractError>(ContractError::AlreadyInitialized)
                && final(self)@ == old(self)@,
            old(self)@.admin is None ==> r == Ok::<(), ContractError>(()) && final(self)@ == (MigrationState {
                admin: Some(admin),
                next_run_id: 1,
                open_runs: 0,
                tracked_records: 0,
                ..old(self)@
            }),
    {
        if self.admin.is_some() {
            return Err(ContractError::AlreadyInitialized);
        }
        self.admin = Some(admin);
        self.next_run_id = 1;
        self.open_runs = 0;
        self.tracked_records = 0;
        Ok(())
    }

    fn require_admin(&self, account: &Bytes32) -> (r: Result<(), ContractError>)
        ensures
            r == operator_check(self@, *account),
    {
        match &self.admin {
            Some(a) => if bytes32_eq(a, account) {
                Ok(())
            } else {
                Err(ContractError::NotAdmin)
            },
            None => Err(ContractError::NotAdmin),
        }
    }

    /// Starts a run against one legacy system; the dry-run mode is fixed
    /// here for the run's whole life.
    pub fn begin_run(&mut self, operator: Bytes32, source_system: Bytes32, dry_run: bool, now: u64) -> (r: Result<
        u64,
        ContractError,
    >)
        requires
            old(self).wf(),
        ensures
            final(self).wf(),
            (r, final(self)@) == begin_run_spec(old(self)@, operator, source_system, dry_run, now),
    {
        match self.require_admin(&operator) {
            Err(e) => return Err(e),
            Ok(()) => {},
        }
        if self.open_runs >= MAX_RUNS {
            return Err(ContractError::TooManyRuns);
        }
        let id = self.next_run_id;
        if id == u64::MAX {
            return Err(ContractError::CounterOverflow);
        }
        let run = MigrationRun {
            id,
            source_system,
            dry_run,
            cursor: 0,
            mapped: 0,
            sealed: false,
            started_at: now,
            sealed_at: 0,
        };
        let ghost before = self@;
        self.runs.insert(id, run);
        self.next_run_id = id + 1;
        self.open_runs = self.open_runs + 1;
        proof {
            assert forall|k: u64| #[trigger] self@.runs.contains_key(k) implies self@.runs[k].id == k by {
                if k != id {
                    assert(before.runs.contains_key(k));
                }
            }
        }
        Ok(id)
    }

    /// Records a legacy record as eligible and, in a real run, maps it.
    /// Mapping the same id with the same contents again returns the recorded
    /// state; the same id with different contents is a conflict.
    pub fn map_record(
        &mut self,
        operator: Bytes32,
        run_id: u64,
        legacy_id: Bytes32,
        source_system: Bytes32,
        submitted_at: u64,
        payload_hash: Bytes32,
        program: Bytes32,
        correlation: Bytes32,
        legacy_cursor: u64,
        now: u64,
    ) -> (r: Result<RecordState, ContractError>)
        requires
            old(self).wf(),
        ensures
            final(self).wf(),
            (r, final(self)@) == map_record_spec(
                old(self)@,
                operator,
                run_id,
                legacy_id,
                source_system,
                submitted_at,
                payload_hash,
                program,
                correlation,
                legacy_cursor,
                now,
            ),
    {
        match self.require_admin(&operator) {
            Err(e) => return Err(e),
            Ok(()) => {},
        }
        if bytes32_is_zero(&payload_hash) {
            return Err(ContractError::EmptyCommitment);
        }
        let run = match self.runs.get(&run_id) {
            Some(r) => *r,
            None => return Err(ContractError::RunNotFound),
        };
        if run.sealed {
            return Err(ContractError::RunSealed);
        }
        if !bytes32_eq(&run.source_system, &source_system) {
            return Err(ContractError::RecordConflict);
        }
        if legacy_cursor <= run.cursor {
            return match self.records.get(&legacy_id) {
                Some(rec) => Ok(rec.state),
                None => Err(ContractError::NotMapped),
            };
        }
        match self.records.get(&legacy_id) {
            Some(existing) => {
                if !bytes32_eq(&existing.payload_hash, &payload_hash) || existing.submitted_at != submitted_at {
                    return Err(ContractError::RecordConflict);
                }
                let state = existing.state;
                self.runs.insert(run_id, MigrationRun { cursor: legacy_cursor, ..run });
                return Ok(state);
            },
            None => {},
        }
        if self.tracked_records >= MAX_TRACKED_RECORDS {
            return Err(ContractError::TooManyRecords);
        }
        if run.dry_run {
            self.runs.insert(run_id, MigrationRun { cursor: legacy_cursor, ..run });
            return Ok(RecordState::Eligible);
        }
        if run.mapped == u32::MAX {
            return Err(ContractError::CounterOverflow);
        }
        let record = LegacyRecord {
            legacy_id,
            source_system,
            submitted_at,
            payload_hash,
            program,
            state: RecordState::Mapped,
            reason: 0,
            correlation,
            mapped_at: now,
        };
        self.records.insert(legacy_id, record);
        self.tracked_records = self.tracked_records + 1;
        self.runs.insert(run_id, MigrationRun { cursor: legacy_cursor, mapped: run.mapped + 1, ..run });
        Ok(RecordState::Mapped)
    }

    /// Reports a legacy record that cannot be mapped. The count is exact;
    /// the browsable detail is capped at `MAX_REPORTED_PER_RUN`.
    pub fn report_unmapped(
        &mut self,
        operator: Bytes32,
        run_id: u64,
        legacy_id: Bytes32,
        reason: UnmappableReason,
        legacy_cursor: u64,
    ) -> (r: Result<(), ContractError>)
        requires
            old(self).wf(),
        ensures
            final(self).wf(),
            (r, final(self)@) == report_unmapped_spec(old(self)@, operator, run_id, legacy_id, legacy_cursor),
    {
        match self.require_admin(&operator) {
            Err(e) => return Err(e),
            Ok(()) => {},
        }
        let run = match self.runs.get(&run_id) {
            Some(r) => *r,
            None => return Err(ContractError::RunNotFound),
        };
        if run.sealed {
            return Err(ContractError::RunSealed);
        }
        if legacy_cursor <= run.cursor {
            return Ok(());
        }
        match self.records.get(&legacy_id) {
            Some(existing) => {
                if existing.state != RecordState::Eligible {
                    return Err(ContractError::RecordConflict);
                }
            },
            None => {},
        }
        let total = match self.unmapped_total.get(&run_id) {
            Some(t) => *t,
            None => 0,
        };
        if total == u64::MAX {
            return Err(ContractError::CounterOverflow);
        }
        let retained = match self.unmapped_retained.get(&run_id) {
            Some(t) => *t,
            None => 0,
        };
        self.unmapped_total.insert(run_id, total + 1);
        if retained < MAX_REPORTED_PER_RUN {
            self.reports.insert((run_id, retained), legacy_id);
            self.unmapped_retained.insert(run_id, retained + 1);
        }
        self.runs.insert(run_id, MigrationRun { cursor: legacy_cursor, ..run });
        Ok(())
    }

    fn summary(&self, run: &MigrationRun) -> (s: RunSummary)
        requires
            self.wf(),
        ensures
            s == summary_of(self@, *run),
    {
        let unmapped = match self.unmapped_total.get(&run.id) {
            Some(t) => *t,
            None => 0,
        };
        let unmapped_retained = match self.unmapped_retained.get(&run.id) {
            Some(t) => *t,
            None => 0,
        };
        RunSummary {
            id: run.id,
            source_system: run.source_system,
            dry_run: run.dry_run,
            cursor: run.cursor,
            mapped: run.mapped,
            unmapped,
            unmapped_retained,
            sealed: run.sealed,
        }
    }

    /// Seals a run. Idempotent.
    pub fn seal_run(&mut self, operator: Bytes32, run_id: u64, now: u64) -> (r: Result<RunSummary, ContractError>)
        requires
            old(self).wf(),
        ensures
            final(self).wf(),
            (r, final(self)@) == seal_run_spec(old(self)@, operator, run_id, now),
    {
        match self.require_admin(&operator) {
            Err(e) => return Err(e),
            Ok(()) => {},
        }
        let run = match self.runs.get(&run_id) {
            Some(r) => *r,
            None => return Err(ContractError::RunNotFound),
        };
        if !run.sealed {
            let sealed = MigrationRun { sealed: true, sealed_at: now, ..run };
            self.open_runs = self.open_runs.saturating_sub(1);
            self.runs.insert(run_id, sealed);
            return Ok(self.summary(&sealed));
        }
        Ok(self.summary(&run))
    }

    /// Moves a mapped record to `Archived`, releasing its tracking slot.
    pub fn archive_record(&mut self, operator: Bytes32, legacy_id: Bytes32) -> (r: Result<(), ContractError>)
        requires
            old(self).wf(),
        ensures
            final(self).wf(),
            (r, final(self)@) == archive_record_spec(old(self)@, operator, legacy_id),
    {
        match self.require_admin(&operator) {
            Err(e) => return Err(e),
            Ok(()) => {},
        }
        let record = match self.records.get(&legacy_id) {
            Some(r) => *r,
            None => return Err(ContractError::RecordNotFound),
        };
        if record.state != RecordState::Mapped {
            return Err(ContractError::RecordConflict);
        }
        let ghost before = self@;
        self.records.insert(legacy_id, LegacyRecord { state: RecordState::Archived, ..record });
        self.tracked_records = self.tracked_records.saturating_sub(1);
        proof {
            assert(self@.runs == before.runs);
        }
        Ok(())
    }

    pub fn get_run(&self, run_id: u64) -> (r: Result<MigrationRun, ContractError>)
        requires
            self.wf(),
        ensures
            r == if self@.runs.contains_key(run_id) {
                Ok::<MigrationRun, ContractError>(self@.runs[run_id])
            } else {
                Err(ContractError::RunNotFound)
            },
    {
        match self.runs.get(&run_id) {
            Some(r) => Ok(*r),
            None => Err(ContractError::RunNotFound),
        }
    }

    pub fn run_summary(&self, run_id: u64) -> (r: Result<RunSummary, ContractError>)
        requires
            self.wf(),
        ensures
            r == if self@.runs.contains_key(run_id) {
                Ok::<RunSummary, ContractError>(summary_of(self@, self@.runs[run_id]))
            } else {
                Err(ContractError::RunNotFound)
            },
    {
        match self.runs.get(&run_id) {
            Some(r) => Ok(self.summary(r)),
            None => Err(ContractError::RunNotFound),
        }
    }

    pub fn get_record(&self, legacy_id: Bytes32) -> (r: Result<LegacyRecord, ContractError>)
        requires
            self.wf(),
        ensures
            r == if self@.records.contains_key(legacy_id) {
                Ok::<LegacyRecord, ContractError>(self@.records[legacy_id])
            } else {
                Err(ContractError::RecordNotFound)
            },
    {
        match self.records.get(&legacy_id) {
            Some(r) => Ok(*r),
            None => Err(ContractError::RecordNotFound),
        }
    }

    /// The state of a tracked record, or `NotMapped`.
    pub fn record_state(&self, legacy_id: Bytes32) -> (r: Result<RecordState, ContractError>)
        requires
            self.wf(),
        ensures
            r == if self@.records.contains_key(legacy_id) {
                Ok::<RecordState, ContractError>(self@.records[legacy_id].state)
            } else {
                Err(ContractError::NotMapped)
            },
    {
        match self.records.get(&legacy_id) {
            Some(r) => Ok(r.state),
            None => Err(ContractError::NotMapped),
        }
    }

    /// One reported-unmapped item by index.
    pub fn get_reported(&self, run_id: u64, index: u32) -> (r: Result<Bytes32, ContractError>)
        requires
            self.wf(),
        ensures
            r == if self@.reports.contains_key((run_id, index)) {
                Ok::<Bytes32, ContractError>(self@.reports[(run_id, index)])
            } else {
                Err(ContractError::RecordNotFound)
            },
    {
        match self.reports.get(&(run_id, index)) {
            Some(id) => Ok(*id),
            None => Err(ContractError::RecordNotFound),
        }
    }

    pub fn unmapped_total(&self, run_id: u64) -> (n: u64)
        requires
            self.wf(),
        ensures
            n == count_or_zero_u64(self@.unmapped_total, run_id),
    {
        match self.unmapped_total.get(&run_id) {
            Some(t) => *t,
            None => 0,
        }
    }

    pub fn tracked_records(&self) -> (n: u64)
        ensures
            n == self@.tracked_records,
    {
        self.tracked_records
    }

    pub fn version() -> (v: u32)
        ensures
            v == CONTRACT_VERSION,
    {
        CONTRACT_VERSION
    }
}

/// Re-offering a record to a run at or before its cursor changes nothing,
/// which is what makes an interrupted run safe to resume.
pub proof fn lemma_resume_is_a_no_op(
    s: MigrationState,
    operator: Bytes32,
    run_id: u64,
    legacy_id: Bytes32,
    source_system: Bytes32,
    submitted_at: u64,
    payload_hash: Bytes32,
    program: Bytes32,
    correlation: Bytes32,
    legacy_cursor: u64,
    now: u64,
)
    requires
        s.runs.contains_key(run_id),
        legacy_cursor <= s.runs[run_id].cursor,
    ensures
        map_record_spec(s, operator, run_id, legacy_id, source_system, submitted_at, payload_hash, program, correlation, legacy_cursor, now).1 == s,
        report_unmapped_spec(s, operator, run_id, legacy_id, legacy_cursor).1 == s,
{
}

/// A dry run never writes a mapping and never counts one as mapped: the
/// record table, the tracked count and the run's `mapped` stay as they were.
pub proof fn lemma_dry_run_writes_no_mapping(
    s: MigrationState,
    operator: Bytes32,
    run_id: u64,
    legacy_id: Bytes32,
    source_system: Bytes32,
    submitted_at: u64,
    payload_hash: Bytes32,
    program: Bytes32,
    correlation: Bytes32,
    legacy_cursor: u64,
    now: u64,
)
    requires
        s.runs.contains_key(run_id),
        s.runs[run_id].dry_run,
    ensures
        ({
            let t = map_record_spec(s, operator, run_id, legacy_id, source_system, submitted_at, payload_hash, program, correlation, legacy_cursor, now).1;
            &&& t.records == s.records
            &&& t.tracked_records == s.tracked_records
            &&& t.runs.contains_key(run_id) && t.runs[run_id].mapped == s.runs[run_id].mapped
            &&& t.runs[run_id].dry_run
        }),
{
}

/// A mapped record keeps the legacy identifier and submission time it was
/// mapped with, and mapping it again with the same contents is idempotent:
/// it reports `Mapped` and leaves the records as they are.
pub proof fn lemma_mapping_preserves_history_and_is_idempotent(
    s: MigrationState,
    operator: Bytes32,
    run_id: u64,
    legacy_id: Bytes32,
    source_system: Bytes32,
    submitted_at: u64,
    payload_hash: Bytes32,
    program: Bytes32,
    correlation: Bytes32,
    legacy_cursor: u64,
    next_cursor: u64,
    now: u64,
    later: u64,
)
    requires
        map_record_spec(s, operator, run_id, legacy_id, source_system, submitted_at, payload_hash, program, correlation, legacy_cursor, now).0
            == Ok::<RecordState, ContractError>(RecordState::Mapped),
        !s.records.contains_key(legacy_id),
        next_cursor > legacy_cursor,
    ensures
        ({
            let t = map_record_spec(s, operator, run_id, legacy_id, source_system, submitted_at, payload_hash, program, correlation, legacy_cursor, now).1;
            let again = map_record_spec(t, operator, run_id, legacy_id, source_system, submitted_at, payload_hash, program, correlation, next_cursor, later);
            &&& t.records.contains_key(legacy_id)
            &&& t.records[legacy_id].legacy_id == legacy_id
            &&& t.records[legacy_id].submitted_at == submitted_at
            &&& t.records[legacy_id].mapped_at == now
            &&& again.0 == Ok::<RecordState, ContractError>(RecordState::Mapped)
            &&& again.1.records == t.records
            &&& again.1.tracked_records == t.tracked_records
        }),
{
}

/// Every refused call leaves the storage exactly as it was.
pub proof fn lemma_refusals_change_nothing(s: MigrationState, operator: Bytes32, run_id: u64, legacy_id: Bytes32, source_system: Bytes32, dry_run: bool, legacy_cursor: u64, now: u64)
    ensures
        begin_run_spec(s, operator, source_system, dry_run, now).0 is Err ==> begin_run_spec(s, operator, source_system, dry_run, now).1 == s,
        report_unmapped_spec(s, operator, run_id, legacy_id, legacy_cursor).0 is Err ==> report_unmapped_spec(s, operator, run_id, legacy_id, legacy_cursor).1 == s,
        seal_run_spec(s, operator, run_id, now).0 is Err ==> seal_run_spec(s, operator, run_id, now).1 == s,
        archive_record_spec(s, operator, legacy_id).0 is Err ==> archive_record_spec(s, operator, legacy_id).1 == s,
{
}

/// Every stored run sits under its own id on well-formed storage, so a
/// run's summary counts the run that was asked for.
pub proof fn lemma_runs_are_keyed_by_id(c: &ScholarshipMigrationContract, run_id: u64)
    requires
        c.wf(),
        c@.runs.contains_key(run_id),
    ensures
        c@.runs[run_id].id == run_id,
        summary_of(c@, c@.runs[run_id]).unmapped == count_or_zero_u64(c@.unmapped_total, run_id),
        summary_of(c@, c@.runs[run_id]).unmapped_retained == count_or_zero_u32(c@.unmapped_retained, run_id),
{
}

/// The unmapped count is exact even once the browsable window is full: a
/// report past the run's cursor counts once, is listed while fewer than
/// `MAX_REPORTED_PER_RUN` are listed, moves the cursor, and leaves the
/// record table and the tracked count alone.
pub proof fn lemma_unmapped_counts_are_exact(
    s: MigrationState,
    operator: Bytes32,
    run_id: u64,
    legacy_id: Bytes32,
    legacy_cursor: u64,
)
    requires
        runs_keyed_by_id(s),
        operator_check(s, operator) is Ok,
        s.runs.contains_key(run_id),
        !s.runs[run_id].sealed,
        legacy_cursor > s.runs[run_id].cursor,
        !(s.records.contains_key(legacy_id) && s.records[legacy_id].state != RecordState::Eligible),
        count_or_zero_u64(s.unmapped_total, run_id) < u64::MAX,
    ensures
        ({
            let total = count_or_zero_u64(s.unmapped_total, run_id);
            let retained = count_or_zero_u32(s.unmapped_retained, run_id);
            let (r, t) = report_unmapped_spec(s, operator, run_id, legacy_id, legacy_cursor);
            &&& r == Ok::<(), ContractError>(())
            &&& runs_keyed_by_id(t)
            &&& t.runs.contains_key(run_id)
            &&& summary_of(t, t.runs[run_id]).unmapped == total + 1
            &&& summary_of(t, t.runs[run_id]).unmapped_retained == if retained < MAX_REPORTED_PER_RUN {
                retained + 1
            } else {
                retained as int
            }
            &&& retained < MAX_REPORTED_PER_RUN ==> t.reports.contains_key((run_id, retained)) && t.reports[(
                run_id,
                retained,
            )] == legacy_id
            &&& t.runs[run_id].cursor == legacy_cursor
            &&& t.records == s.records
            &&& t.tracked_records == s.tracked_records
        }),
{
    let (r, t) = report_unmapped_spec(s, operator, run_id, legacy_id, legacy_cursor);
    assert forall|k: u64| #[trigger] t.runs.contains_key(k) implies t.runs[k].id == k by {
        assert(s.runs.contains_key(k));
    }
}

} // verus!
