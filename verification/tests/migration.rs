//! Legacy record migration scenarios: idempotency, preserved history,
//! resumability, dry runs, unmapped reporting, sealing, authorization.

use chainverse::migration::{
    ContractError, RecordState, ScholarshipMigrationContract, UnmappableReason,
    MAX_REPORTED_PER_RUN,
};

struct Fixture {
    c: ScholarshipMigrationContract,
    now: u64,
    operator: [u8; 32],
    stranger: [u8; 32],
}

fn hash(fill: u8) -> [u8; 32] {
    [fill; 32]
}

/// A legacy system's short name, zero-padded to 32 bytes.
fn system(name: &str) -> [u8; 32] {
    let mut out = [0u8; 32];
    out[..name.len()].copy_from_slice(name.as_bytes());
    out
}

impl Fixture {
    fn new() -> Self {
        let mut c = ScholarshipMigrationContract::new();
        let operator = [0xA1; 32];
        let stranger = [0xB2; 32];
        c.initialize(operator).unwrap();
        Fixture { c, now: 0, operator, stranger }
    }

    fn begin(&mut self, dry_run: bool) -> u64 {
        self.c.begin_run(self.operator, system("legacy_a"), dry_run, self.now).unwrap()
    }

    fn advance(&mut self, seconds: u64) {
        self.now += seconds;
    }

    /// Maps a record whose payload hash is its id plus 50.
    fn map(&mut self, run: u64, id: u8, cursor: u64) -> Result<RecordState, ContractError> {
        self.c.map_record(
            self.operator,
            run,
            hash(id),
            system("legacy_a"),
            1_600_000_000,
            hash(id.wrapping_add(50)),
            hash(90),
            hash(91),
            cursor,
            self.now,
        )
    }
}

#[test]
fn mapping_the_same_record_twice_changes_nothing() {
    let mut f = Fixture::new();
    let run = f.begin(false);
    assert_eq!(f.map(run, 1, 1), Ok(RecordState::Mapped));
    let before = f.c.get_record(hash(1));
    assert_eq!(f.map(run, 1, 2), Ok(RecordState::Mapped));
    assert_eq!(f.c.get_record(hash(1)), before);
    assert_eq!(f.c.tracked_records(), 1);
}

#[test]
fn remapping_does_not_inflate_the_mapped_count() {
    let mut f = Fixture::new();
    let run = f.begin(false);
    f.map(run, 1, 1).unwrap();
    f.map(run, 1, 2).unwrap();
    f.map(run, 1, 3).unwrap();
    assert_eq!(f.c.get_run(run).unwrap().mapped, 1);
}

#[test]
fn a_re_export_may_not_overwrite_a_record() {
    let mut f = Fixture::new();
    let run = f.begin(false);
    f.map(run, 1, 1).unwrap();
    let now = f.now;
    assert_eq!(
        f.c.map_record(f.operator, run, hash(1), system("legacy_a"), 1_600_000_000, hash(200), hash(90), hash(91), 2, now),
        Err(ContractError::RecordConflict)
    );
    assert_eq!(f.c.get_record(hash(1)).unwrap().payload_hash, hash(51));
}

#[test]
fn a_rewritten_legacy_timestamp_is_a_conflict() {
    let mut f = Fixture::new();
    let run = f.begin(false);
    f.map(run, 1, 1).unwrap();
    let now = f.now;
    assert_eq!(
        f.c.map_record(f.operator, run, hash(1), system("legacy_a"), 1_700_000_000, hash(51), hash(90), hash(91), 2, now),
        Err(ContractError::RecordConflict)
    );
    assert_eq!(f.c.get_record(hash(1)).unwrap().submitted_at, 1_600_000_000);
}

#[test]
fn the_legacy_identifier_and_timestamp_survive_verbatim() {
    let mut f = Fixture::new();
    let run = f.begin(false);
    f.advance(500);
    f.map(run, 7, 1).unwrap();
    let record = f.c.get_record(hash(7)).unwrap();
    assert_eq!(record.legacy_id, hash(7));
    assert_eq!(record.submitted_at, 1_600_000_000);
    assert_eq!(record.mapped_at, 500);
}

#[test]
fn the_legacy_system_is_recorded_on_every_record() {
    let mut f = Fixture::new();
    let run = f.begin(false);
    f.map(run, 1, 1).unwrap();
    assert_eq!(f.c.get_record(hash(1)).unwrap().source_system, system("legacy_a"));
    assert_eq!(f.c.get_run(run).unwrap().source_system, system("legacy_a"));
}

#[test]
fn a_run_advances_a_checkpoint_as_it_goes() {
    let mut f = Fixture::new();
    let run = f.begin(false);
    assert_eq!(f.c.get_run(run).unwrap().cursor, 0);
    f.map(run, 1, 10).unwrap();
    assert_eq!(f.c.get_run(run).unwrap().cursor, 10);
    f.map(run, 2, 20).unwrap();
    assert_eq!(f.c.get_run(run).unwrap().cursor, 20);
    assert_eq!(f.c.run_summary(run).unwrap().cursor, 20);
}

#[test]
fn an_interrupted_run_resumes_without_remapping() {
    let mut f = Fixture::new();
    let run = f.begin(false);
    f.map(run, 1, 10).unwrap();
    f.map(run, 2, 20).unwrap();
    assert_eq!(f.c.get_run(run).unwrap().cursor, 20);
    f.map(run, 2, 21).unwrap();
    f.map(run, 3, 30).unwrap();
    assert_eq!(f.c.get_run(run).unwrap().mapped, 3);
    assert_eq!(f.c.tracked_records(), 3);
    assert_eq!(f.c.get_run(run).unwrap().cursor, 30);
}

#[test]
fn a_record_at_or_before_the_cursor_is_not_remapped() {
    let mut f = Fixture::new();
    let run = f.begin(false);
    f.map(run, 1, 10).unwrap();
    f.map(run, 2, 20).unwrap();
    let now = f.now;
    assert_eq!(
        f.c.map_record(f.operator, run, hash(3), system("legacy_a"), 1_600_000_000, hash(53), hash(90), hash(91), 5, now),
        Err(ContractError::NotMapped)
    );
    assert_eq!(f.c.tracked_records(), 2);
}

#[test]
fn re_offering_a_mapped_record_at_a_stale_cursor_is_still_idempotent() {
    let mut f = Fixture::new();
    let run = f.begin(false);
    f.map(run, 1, 10).unwrap();
    f.map(run, 2, 20).unwrap();
    let before = f.c.get_record(hash(1));
    assert_eq!(f.map(run, 1, 5), Ok(RecordState::Mapped));
    assert_eq!(f.c.get_record(hash(1)), before);
    assert_eq!(f.c.tracked_records(), 2);
    assert_eq!(f.c.get_run(run).unwrap().cursor, 20);
}

#[test]
fn a_dry_run_writes_no_mappings() {
    let mut f = Fixture::new();
    let run = f.begin(true);
    assert_eq!(f.map(run, 1, 10), Ok(RecordState::Eligible));
    assert_eq!(f.map(run, 2, 20), Ok(RecordState::Eligible));
    assert_eq!(f.c.tracked_records(), 0);
    assert_eq!(f.c.get_run(run).unwrap().mapped, 0);
    assert!(f.c.get_record(hash(1)).is_err());
    assert!(f.c.get_record(hash(2)).is_err());
}

#[test]
fn a_dry_run_still_reports_unmapped_records() {
    let mut f = Fixture::new();
    let run = f.begin(true);
    f.c.report_unmapped(f.operator, run, hash(1), UnmappableReason::NotEligible, 10).unwrap();
    assert_eq!(f.c.unmapped_total(run), 1);
    assert_eq!(f.c.get_reported(run, 0), Ok(hash(1)));
    assert_eq!(f.c.tracked_records(), 0);
}

#[test]
fn a_dry_run_advances_its_checkpoint() {
    let mut f = Fixture::new();
    let run = f.begin(true);
    f.map(run, 1, 10).unwrap();
    f.map(run, 2, 20).unwrap();
    assert_eq!(f.c.get_run(run).unwrap().cursor, 20);
}

#[test]
fn the_mode_is_fixed_for_the_life_of_the_run() {
    let mut f = Fixture::new();
    let dry = f.begin(true);
    let real = f.begin(false);
    assert!(f.c.get_run(dry).unwrap().dry_run);
    assert!(!f.c.get_run(real).unwrap().dry_run);
    assert!(f.c.get_run(dry).is_ok());
}

#[test]
fn every_unmappable_reason_is_representable() {
    let mut f = Fixture::new();
    let run = f.begin(false);
    let reasons = [
        UnmappableReason::NotEligible,
        UnmappableReason::NoMatchingProgram,
        UnmappableReason::DuplicateInLegacy,
        UnmappableReason::MalformedRecord,
        UnmappableReason::WithdrawnByApplicant,
        UnmappableReason::OutsideRetentionWindow,
    ];
    for (i, reason) in reasons.iter().enumerate() {
        f.c.report_unmapped(f.operator, run, hash(i as u8), *reason, i as u64 + 1).unwrap();
    }
    assert_eq!(f.c.unmapped_total(run), 6);
    assert_eq!(f.c.run_summary(run).unwrap().unmapped, 6);
    let codes: Vec<u32> = reasons.iter().map(|r| r.code()).collect();
    assert_eq!(codes, vec![1, 2, 3, 4, 5, 6]);
}

#[test]
fn the_reported_count_is_exact_even_when_the_browsable_window_is_full() {
    let mut f = Fixture::new();
    let run = f.begin(false);
    let total = MAX_REPORTED_PER_RUN + 10;
    for i in 0..total {
        f.c.report_unmapped(f.operator, run, hash((i % 250) as u8), UnmappableReason::NotEligible, i as u64 + 1)
            .unwrap();
    }
    assert_eq!(f.c.unmapped_total(run), total as u64);
    assert_eq!(f.c.run_summary(run).unwrap().unmapped_retained, MAX_REPORTED_PER_RUN);
}

#[test]
fn a_summary_separates_mapped_from_unmapped() {
    let mut f = Fixture::new();
    let run = f.begin(false);
    f.map(run, 1, 1).unwrap();
    f.map(run, 2, 2).unwrap();
    f.c.report_unmapped(f.operator, run, hash(3), UnmappableReason::NoMatchingProgram, 3).unwrap();
    let summary = f.c.run_summary(run).unwrap();
    assert_eq!(summary.mapped, 2);
    assert_eq!(summary.unmapped, 1);
    assert!(!summary.sealed);
    assert!(!summary.dry_run);
}

#[test]
fn an_unknown_reported_index_is_reported_as_such() {
    let mut f = Fixture::new();
    let run = f.begin(false);
    assert_eq!(f.c.get_reported(run, 0), Err(ContractError::RecordNotFound));
}

#[test]
fn a_sealed_run_accepts_nothing_further() {
    let mut f = Fixture::new();
    let run = f.begin(false);
    f.map(run, 1, 1).unwrap();
    let summary = f.c.seal_run(f.operator, run, f.now).unwrap();
    assert!(summary.sealed);
    assert_eq!(f.map(run, 2, 2), Err(ContractError::RunSealed));
    assert_eq!(
        f.c.report_unmapped(f.operator, run, hash(9), UnmappableReason::NotEligible, 9),
        Err(ContractError::RunSealed)
    );
    assert_eq!(f.c.tracked_records(), 1);
}

#[test]
fn sealing_twice_is_a_no_op() {
    let mut f = Fixture::new();
    let run = f.begin(false);
    f.map(run, 1, 1).unwrap();
    let first = f.c.seal_run(f.operator, run, f.now).unwrap();
    let second = f.c.seal_run(f.operator, run, f.now + 5).unwrap();
    assert_eq!(first, second);
}

#[test]
fn a_seal_reports_what_was_left_unmapped() {
    let mut f = Fixture::new();
    let run = f.begin(false);
    f.map(run, 1, 1).unwrap();
    f.c.report_unmapped(f.operator, run, hash(2), UnmappableReason::WithdrawnByApplicant, 2).unwrap();
    let summary = f.c.seal_run(f.operator, run, f.now).unwrap();
    assert_eq!(summary.mapped, 1);
    assert_eq!(summary.unmapped, 1);
}

#[test]
fn a_record_from_another_legacy_system_is_refused() {
    let mut f = Fixture::new();
    let run = f.begin(false);
    let now = f.now;
    assert_eq!(
        f.c.map_record(f.operator, run, hash(1), system("legacy_b"), 1_600_000_000, hash(51), hash(90), hash(91), 1, now),
        Err(ContractError::RecordConflict)
    );
    assert_eq!(f.c.tracked_records(), 0);
}

#[test]
fn two_runs_keep_separate_state() {
    let mut f = Fixture::new();
    let first = f.begin(false);
    let second = f
        .c
        .begin_run(f.operator, system("legacy_b"), false, f.now)
        .unwrap();
    f.map(first, 1, 10).unwrap();
    assert_eq!(f.c.get_run(second).unwrap().cursor, 0);
    assert_eq!(f.c.unmapped_total(second), 0);
    assert_eq!(f.c.tracked_records(), 1);
}

#[test]
fn a_zero_payload_commitment_is_refused() {
    let mut f = Fixture::new();
    let run = f.begin(false);
    let now = f.now;
    assert_eq!(
        f.c.map_record(f.operator, run, hash(1), system("legacy_a"), 1_600_000_000, [0u8; 32], hash(90), hash(91), 1, now),
        Err(ContractError::EmptyCommitment)
    );
}

#[test]
fn an_unknown_run_is_reported_as_such() {
    let f = Fixture::new();
    assert_eq!(f.c.get_run(99), Err(ContractError::RunNotFound));
}

#[test]
fn a_non_operator_cannot_map() {
    let mut f = Fixture::new();
    let run = f.begin(false);
    let now = f.now;
    assert_eq!(
        f.c.map_record(f.stranger, run, hash(1), system("legacy_a"), 1_600_000_000, hash(51), hash(90), hash(91), 1, now),
        Err(ContractError::NotAdmin)
    );
    assert_eq!(f.c.tracked_records(), 0);
}

#[test]
fn a_non_operator_cannot_begin_a_run() {
    let mut f = Fixture::new();
    assert_eq!(
        f.c.begin_run(f.stranger, system("legacy_a"), false, f.now),
        Err(ContractError::NotAdmin)
    );
}

#[test]
fn tests_initialize_is_not_repeatable() {
    let mut f = Fixture::new();
    assert_eq!(f.c.initialize(f.stranger), Err(ContractError::AlreadyInitialized));
}

#[test]
fn an_unmapped_record_cannot_be_archived() {
    let mut f = Fixture::new();
    assert_eq!(
        f.c.archive_record(f.operator, hash(1)),
        Err(ContractError::RecordNotFound)
    );
}

#[test]
fn a_mapped_record_can_be_archived_and_stays_reported() {
    let mut f = Fixture::new();
    let run = f.begin(false);
    f.map(run, 1, 1).unwrap();
    f.c.archive_record(f.operator, hash(1)).unwrap();
    assert_eq!(f.c.tracked_records(), 0);
    assert_eq!(f.c.get_record(hash(1)).unwrap().state, RecordState::Archived);
    assert_eq!(f.c.get_record(hash(1)).unwrap().submitted_at, 1_600_000_000);
    assert_eq!(f.c.record_state(hash(1)), Ok(RecordState::Archived));
    assert_eq!(f.c.archive_record(f.operator, hash(1)), Err(ContractError::RecordConflict));
}

#[test]
fn tests_version_is_reported() {
    assert_eq!(ScholarshipMigrationContract::version(), 1);
}
