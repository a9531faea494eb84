//! Review aggregation scenarios: rubric publication, submissions, the
//! aggregate score and the tie policy.

use chainverse::reviews::{
    weighted_total, CompareOutcome, ContractError, Criterion, Rubric, ScholarshipReviewsContract,
};

const ADMIN: [u8; 32] = [0xAD; 32];

fn key(byte: u8) -> [u8; 32] {
    [byte; 32]
}

fn account(byte: u8) -> [u8; 32] {
    [byte; 32]
}

/// A two-criterion rubric (60% / 40%).
fn criteria() -> Vec<Criterion> {
    vec![Criterion { weight_bps: 6_000, max_score: 100 }, Criterion { weight_bps: 4_000, max_score: 50 }]
}

/// Initialize, register a program (min 2 / max 4 reviews) and publish v1.
fn ready() -> (ScholarshipReviewsContract, [u8; 32]) {
    let mut c = ScholarshipReviewsContract::new();
    let pid = key(1);
    c.initialize(ADMIN).unwrap();
    c.register_program(ADMIN, pid, 2, 4).unwrap();
    c.publish_rubric(ADMIN, pid, criteria(), 0).unwrap();
    (c, pid)
}

fn single_review_program() -> (ScholarshipReviewsContract, [u8; 32]) {
    let mut c = ScholarshipReviewsContract::new();
    let pid = key(2);
    c.initialize(ADMIN).unwrap();
    c.register_program(ADMIN, pid, 1, 4).unwrap();
    c.publish_rubric(ADMIN, pid, criteria(), 0).unwrap();
    (c, pid)
}

#[test]
fn test_publish_rubric_starts_at_version_one() {
    let (c, pid) = ready();
    assert_eq!(c.get_latest_rubric_version(pid), Ok(1));
    assert_eq!(c.get_rubric(pid, 1).unwrap().criteria.len(), 2);
}

#[test]
fn test_publish_rubric_creates_immutable_new_version() {
    let (mut c, pid) = ready();
    let v2 = c.publish_rubric(ADMIN, pid, criteria(), 0).unwrap();
    assert_eq!(v2, 2);
    assert_eq!(c.get_rubric(pid, 1).unwrap().version, 1);
    assert_eq!(c.get_rubric(pid, 2).unwrap().version, 2);
}

#[test]
fn test_publish_rubric_rejects_empty_criteria() {
    let mut c = ScholarshipReviewsContract::new();
    let pid = key(1);
    c.initialize(ADMIN).unwrap();
    c.register_program(ADMIN, pid, 1, 4).unwrap();
    assert_eq!(c.publish_rubric(ADMIN, pid, vec![], 0), Err(ContractError::InvalidRubric));
}

#[test]
fn test_publish_rubric_rejects_weights_not_summing_to_10000() {
    let mut c = ScholarshipReviewsContract::new();
    let pid = key(1);
    c.initialize(ADMIN).unwrap();
    c.register_program(ADMIN, pid, 1, 4).unwrap();
    let bad = vec![Criterion { weight_bps: 6_000, max_score: 100 }, Criterion { weight_bps: 3_000, max_score: 50 }];
    assert_eq!(c.publish_rubric(ADMIN, pid, bad, 0), Err(ContractError::InvalidRubric));
}

#[test]
fn test_publish_rubric_rejects_zero_max_score() {
    let mut c = ScholarshipReviewsContract::new();
    let pid = key(1);
    c.initialize(ADMIN).unwrap();
    c.register_program(ADMIN, pid, 1, 4).unwrap();
    let bad = vec![Criterion { weight_bps: 10_000, max_score: 0 }];
    assert_eq!(c.publish_rubric(ADMIN, pid, bad, 0), Err(ContractError::InvalidRubric));
}

#[test]
fn test_non_admin_cannot_publish_rubric() {
    let (mut c, pid) = ready();
    assert_eq!(c.publish_rubric(account(0x66), pid, criteria(), 0), Err(ContractError::NotAdmin));
}

#[test]
fn test_register_program_rejects_invalid_review_config() {
    let mut c = ScholarshipReviewsContract::new();
    let pid = key(1);
    c.initialize(ADMIN).unwrap();
    assert_eq!(c.register_program(ADMIN, pid, 0, 4), Err(ContractError::InvalidReviewConfig));
    assert_eq!(c.register_program(ADMIN, pid, 3, 2), Err(ContractError::InvalidReviewConfig));
}

#[test]
fn test_submit_review_requires_registered_program() {
    let mut c = ScholarshipReviewsContract::new();
    c.initialize(ADMIN).unwrap();
    assert_eq!(
        c.submit_review(account(0x10), key(9), account(0x20), vec![100, 50], 0),
        Err(ContractError::ProgramNotFound)
    );
}

#[test]
fn test_submit_review_requires_published_rubric() {
    let mut c = ScholarshipReviewsContract::new();
    let pid = key(1);
    c.initialize(ADMIN).unwrap();
    c.register_program(ADMIN, pid, 1, 4).unwrap();
    assert_eq!(
        c.submit_review(account(0x10), pid, account(0x20), vec![100, 50], 0),
        Err(ContractError::NoRubricPublished)
    );
}

#[test]
fn test_submit_review_rejects_wrong_number_of_scores() {
    let (mut c, pid) = ready();
    assert_eq!(c.submit_review(account(0x10), pid, account(0x20), vec![100], 0), Err(ContractError::InvalidScores));
}

#[test]
fn test_submit_review_rejects_score_above_criterion_max() {
    let (mut c, pid) = ready();
    assert_eq!(
        c.submit_review(account(0x10), pid, account(0x20), vec![100, 51], 0),
        Err(ContractError::InvalidScores)
    );
}

#[test]
fn test_submit_review_returns_weighted_total_and_ties_to_rubric_version() {
    let (mut c, pid) = ready();
    let (reviewer, applicant) = (account(0x10), account(0x20));
    let total = c.submit_review(reviewer, pid, applicant, vec![100, 50], 0).unwrap();
    assert_eq!(total, 10_000);
    let review = c.get_review(pid, applicant, reviewer).unwrap();
    assert_eq!(review.rubric_version, 1);
    assert!(c.has_review(pid, applicant, reviewer));
    assert_eq!(c.get_reviewer_count(pid, applicant), 1);
}

#[test]
fn test_duplicate_review_rejected() {
    let (mut c, pid) = ready();
    let (reviewer, applicant) = (account(0x10), account(0x20));
    c.submit_review(reviewer, pid, applicant, vec![100, 50], 0).unwrap();
    assert_eq!(c.submit_review(reviewer, pid, applicant, vec![10, 5], 0), Err(ContractError::ReviewAlreadyExists));
}

#[test]
fn test_reviewer_capacity_is_enforced() {
    let mut c = ScholarshipReviewsContract::new();
    let pid = key(1);
    c.initialize(ADMIN).unwrap();
    c.register_program(ADMIN, pid, 1, 1).unwrap();
    c.publish_rubric(ADMIN, pid, criteria(), 0).unwrap();
    let applicant = account(0x20);
    c.submit_review(account(0x10), pid, applicant, vec![100, 50], 0).unwrap();
    assert_eq!(
        c.submit_review(account(0x11), pid, applicant, vec![100, 50], 0),
        Err(ContractError::ReviewerCapacityExceeded)
    );
}

#[test]
fn test_review_rejected_for_inactive_program() {
    let (mut c, pid) = ready();
    c.set_program_active(ADMIN, pid, false).unwrap();
    assert_eq!(
        c.submit_review(account(0x10), pid, account(0x20), vec![100, 50], 0),
        Err(ContractError::ProgramInactive)
    );
}

#[test]
fn test_aggregate_requires_minimum_number_of_reviews() {
    let (mut c, pid) = ready();
    let applicant = account(0x20);
    c.submit_review(account(0x10), pid, applicant, vec![100, 50], 0).unwrap();
    assert_eq!(c.aggregate_score(pid, applicant), Err(ContractError::InsufficientReviews));
}

#[test]
fn test_aggregate_is_rubric_weighted_average_of_reviews() {
    let (mut c, pid) = ready();
    let applicant = account(0x20);
    c.submit_review(account(0x10), pid, applicant, vec![100, 50], 0).unwrap();
    c.submit_review(account(0x11), pid, applicant, vec![50, 25], 0).unwrap();
    assert_eq!(c.aggregate_score(pid, applicant), Ok(7_500));
}

#[test]
fn test_aggregate_floors_at_each_division() {
    let (mut c, pid) = ready();
    let applicant = account(0x20);
    c.submit_review(account(0x10), pid, applicant, vec![100, 50], 0).unwrap();
    c.submit_review(account(0x11), pid, applicant, vec![100, 50], 0).unwrap();
    c.submit_review(account(0x12), pid, applicant, vec![50, 25], 0).unwrap();
    assert_eq!(c.aggregate_score(pid, applicant), Ok(8_333));
}

#[test]
fn test_aggregate_rejects_mixed_rubric_versions() {
    let mut c = ScholarshipReviewsContract::new();
    let pid = key(1);
    c.initialize(ADMIN).unwrap();
    c.register_program(ADMIN, pid, 1, 4).unwrap();
    c.publish_rubric(ADMIN, pid, criteria(), 0).unwrap();
    let applicant = account(0x20);
    c.submit_review(account(0x10), pid, applicant, vec![100, 50], 0).unwrap();
    c.publish_rubric(ADMIN, pid, criteria(), 0).unwrap();
    c.submit_review(account(0x11), pid, applicant, vec![100, 50], 0).unwrap();
    assert_eq!(c.aggregate_score(pid, applicant), Err(ContractError::MixedRubricVersions));
}

#[test]
fn test_compare_prefers_higher_aggregate() {
    let (mut c, pid) = single_review_program();
    let (a, b, r) = (account(0xA1), account(0xB1), account(0x10));
    c.submit_review(r, pid, a, vec![100, 50], 0).unwrap();
    c.submit_review(r, pid, b, vec![50, 25], 0).unwrap();
    assert_eq!(c.compare_applicants(pid, a, b), Ok(CompareOutcome::ABetter));
    assert_eq!(c.compare_applicants(pid, b, a), Ok(CompareOutcome::BBetter));
}

#[test]
fn test_compare_ties_break_on_earliest_review() {
    let (mut c, pid) = single_review_program();
    let (a, b, r) = (account(0xA1), account(0xB1), account(0x10));
    c.submit_review(r, pid, a, vec![100, 50], 100).unwrap();
    c.submit_review(r, pid, b, vec![100, 50], 200).unwrap();
    assert_eq!(c.compare_applicants(pid, a, b), Ok(CompareOutcome::ABetter));
    assert_eq!(c.compare_applicants(pid, b, a), Ok(CompareOutcome::BBetter));
}

#[test]
fn test_compare_reports_tie_when_indistinguishable() {
    let (mut c, pid) = single_review_program();
    let (a, b, r) = (account(0xA1), account(0xB1), account(0x10));
    c.submit_review(r, pid, a, vec![100, 50], 500).unwrap();
    c.submit_review(r, pid, b, vec![100, 50], 500).unwrap();
    assert_eq!(c.compare_applicants(pid, a, b), Ok(CompareOutcome::Tie));
}

#[test]
fn test_version_is_one() {
    assert_eq!(ScholarshipReviewsContract::version(), 1);
}

#[test]
fn a_review_total_follows_the_documented_rounding() {
    let rubric = Rubric { version: 1, criteria: criteria(), published_at: 0 };
    // 33/100 -> 3300 bps, 17/50 -> 3400 bps: (3300 * 6000 + 3400 * 4000) / 10000 = 3340.
    assert_eq!(weighted_total(&rubric, &vec![33, 17]), Ok(3_340));
    assert_eq!(weighted_total(&rubric, &vec![0, 0]), Ok(0));
    assert_eq!(weighted_total(&rubric, &vec![101, 0]), Err(ContractError::InvalidScores));
}

#[test]
fn the_earliest_review_time_is_the_minimum() {
    let (mut c, pid) = ready();
    let applicant = account(0x20);
    assert_eq!(c.first_review_time(pid, applicant), Err(ContractError::InsufficientReviews));
    c.submit_review(account(0x10), pid, applicant, vec![1, 1], 300).unwrap();
    c.submit_review(account(0x11), pid, applicant, vec![1, 1], 100).unwrap();
    c.submit_review(account(0x12), pid, applicant, vec![1, 1], 200).unwrap();
    assert_eq!(c.first_review_time(pid, applicant), Ok(100));
}

#[test]
fn a_program_is_registered_once() {
    let (mut c, pid) = ready();
    assert_eq!(c.register_program(ADMIN, pid, 1, 2), Err(ContractError::ProgramAlreadyExists));
    assert_eq!(c.get_program_config(pid).unwrap().max_reviews, 4);
}
