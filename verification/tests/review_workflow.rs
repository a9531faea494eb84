//! Review workflow scenarios: rubrics and their versions, drafts, submitted
//! and amended reviews, and information requests.

use chainverse::review_workflow::{
    ContractError, CriterionScale, InfoRequestStatus, ReviewScore, ReviewStatus, RubricCriterion,
    ScholarshipReviewWorkflowContract, CONTRACT_VERSION, MAX_QUESTIONS_PER_REQUEST,
};
use soroban_sdk::Env;

const ADMIN: [u8; 32] = [0xAD; 32];
const REVIEWER: [u8; 32] = [0x5E; 32];
const APPLICANT: [u8; 32] = [0xA9; 32];
const NOW: u64 = 0;

fn program_id() -> [u8; 32] {
    [2u8; 32]
}

fn criterion(id: &str, weight: u32, max: i32) -> RubricCriterion {
    RubricCriterion {
        id: id.to_string(),
        name: format!("Criterion {}", id),
        description: "Desc".to_string(),
        weight,
        scale: CriterionScale::Numeric { min: 1, max },
        guidance: "Guide".to_string(),
        required_comment: false,
        disqualifying: false,
        disqualify_threshold: None,
    }
}

fn score(id: &str, value: i32, comment: &str) -> ReviewScore {
    ReviewScore { criterion_id: id.to_string(), score: value, comment: comment.to_string() }
}

fn setup() -> (Env, ScholarshipReviewWorkflowContract) {
    let env = Env::default();
    let mut c = ScholarshipReviewWorkflowContract::new();
    c.initialize(ADMIN).unwrap();
    (env, c)
}

/// An active single-criterion rubric on a 1..=10 scale; returns its id.
fn active_rubric(env: &Env, c: &mut ScholarshipReviewWorkflowContract) -> [u8; 32] {
    let rubric = c
        .create_rubric(env, ADMIN, program_id(), "Test Rubric".to_string(), vec![criterion("c1", 10_000, 10)], NOW)
        .unwrap();
    c.activate_rubric(ADMIN, rubric.id, NOW).unwrap();
    rubric.id
}

/// A submitted review of `value` on the single criterion; returns its id.
fn submitted(env: &Env, c: &mut ScholarshipReviewWorkflowContract, value: i32) -> [u8; 32] {
    let rubric = active_rubric(env, c);
    let application = [3u8; 32];
    c.save_draft(REVIEWER, application, rubric, vec![score("c1", value, "Ok")], true, NOW).unwrap();
    c.submit_review(env, REVIEWER, application, NOW).unwrap().id
}

#[test]
fn workflow_test_initialize() {
    let mut c = ScholarshipReviewWorkflowContract::new();
    assert!(c.initialize(ADMIN).is_ok());
    assert_eq!(c.initialize(ADMIN), Err(ContractError::AlreadyInitialized));
}

#[test]
fn test_create_rubric() {
    let (env, mut c) = setup();
    let criteria = vec![criterion("c1", 5000, 10), criterion("c2", 3000, 5), criterion("c3", 2000, 5)];
    let rubric = c.create_rubric(&env, ADMIN, program_id(), "Merit Rubric".to_string(), criteria, NOW).unwrap();
    assert_eq!(rubric.program_id, program_id());
    assert_eq!(rubric.version, 1);
    assert_eq!(rubric.criteria.len(), 3);
    assert!(!rubric.is_active);
}

#[test]
fn test_rubric_weights_validation() {
    let (env, mut c) = setup();
    let criteria = vec![criterion("c1", 5000, 10), criterion("c2", 3000, 10)];
    let result = c.create_rubric(&env, ADMIN, program_id(), "Bad Rubric".to_string(), criteria, NOW);
    assert_eq!(result, Err(ContractError::WeightsDontReconcile));
}

#[test]
fn test_activate_rubric() {
    let (env, mut c) = setup();
    let id = active_rubric(&env, &mut c);
    let activated = c.get_rubric(id).unwrap();
    assert!(activated.is_active);
    assert!(activated.approved_at.is_some());
}

#[test]
fn test_update_rubric_creates_new_version() {
    let (env, mut c) = setup();
    let rubric = c
        .create_rubric(&env, ADMIN, program_id(), "Test Rubric".to_string(), vec![criterion("c1", 10_000, 10)], NOW)
        .unwrap();
    let updated = c.update_rubric(ADMIN, rubric.id, Some("Updated Rubric".to_string()), None).unwrap();
    assert_eq!(updated.version, 2);
    assert_eq!(updated.name, "Updated Rubric".to_string());
    let v1 = c.get_rubric_version(rubric.id, 1).unwrap();
    assert_eq!(v1.version, 1);
    assert_eq!(v1.name, "Test Rubric".to_string());
}

#[test]
fn test_save_draft() {
    let (env, mut c) = setup();
    let rubric = active_rubric(&env, &mut c);
    let application = [3u8; 32];
    let draft = c.save_draft(REVIEWER, application, rubric, vec![score("c1", 8, "Good work")], false, NOW).unwrap();
    assert_eq!(draft.reviewer, REVIEWER);
    assert_eq!(draft.application_id, application);
    assert_eq!(draft.rubric_version, 1);
    assert!(!draft.is_complete);
    let retrieved = c.get_draft(REVIEWER, application).unwrap();
    assert_eq!(retrieved.scores.len(), 1);
    assert_eq!(retrieved.scores[0].score, 8);
}

#[test]
fn test_submit_review() {
    let (env, mut c) = setup();
    let rubric = active_rubric(&env, &mut c);
    let application = [3u8; 32];
    c.save_draft(REVIEWER, application, rubric, vec![score("c1", 9, "Excellent")], true, NOW).unwrap();
    let review = c.submit_review(&env, REVIEWER, application, NOW).unwrap();
    assert_eq!(review.reviewer, REVIEWER);
    assert_eq!(review.application_id, application);
    assert_eq!(review.status, ReviewStatus::Submitted);
    assert_eq!(review.total_score, 9000);
}

#[test]
fn test_amend_review() {
    let (env, mut c) = setup();
    let id = submitted(&env, &mut c, 7);
    c.amend_review(&env, REVIEWER, id, vec![score("c1", 8, "Revised")], "Recalculated".to_string(), NOW).unwrap();
    let amended = c.get_review(id).unwrap();
    assert_eq!(amended.status, ReviewStatus::Amended);
    assert_eq!(amended.scores[0].score, 8);
    assert_eq!(amended.amendment_count, 1);
    assert_eq!(amended.total_score, 8000);
}

#[test]
fn test_cannot_amend_finalized() {
    let (env, mut c) = setup();
    let id = submitted(&env, &mut c, 7);
    c.finalize_review(ADMIN, id, NOW).unwrap();
    let result = c.amend_review(&env, REVIEWER, id, vec![score("c1", 8, "Late")], "Too late".to_string(), NOW);
    assert_eq!(result, Err(ContractError::CannotAmendFinalized));
}

#[test]
fn test_request_info() {
    let (env, mut c) = setup();
    let application = [3u8; 32];
    let deadline = NOW + 86_400 * 7;
    let request = c
        .request_info(
            &env,
            REVIEWER,
            application,
            vec!["Please clarify your GPA".to_string(), "Provide reference letter".to_string()],
            vec!["gpa".to_string()],
            deadline,
            NOW,
        )
        .unwrap();
    assert_eq!(request.reviewer, REVIEWER);
    assert_eq!(request.application_id, application);
    assert_eq!(request.questions.len(), 2);
    assert_eq!(request.status, InfoRequestStatus::Pending);
}

#[test]
fn test_respond_to_info_request() {
    let (env, mut c) = setup();
    let application = [3u8; 32];
    let deadline = NOW + 86_400 * 7;
    let request = c
        .request_info(&env, REVIEWER, application, vec!["What is your GPA?".to_string()], vec![], deadline, NOW)
        .unwrap();
    let response = c.respond_to_info_request(&env, APPLICANT, request.id, vec!["3.8".to_string()], NOW + 1).unwrap();
    assert_eq!(response.applicant, APPLICANT);
    assert_eq!(response.request_id, request.id);
    assert_eq!(response.responses.len(), 1);
    assert_eq!(response.version, 1);
    let updated = c.get_info_request(request.id).unwrap();
    assert_eq!(updated.status, InfoRequestStatus::Responded);
}

#[test]
fn tests_test_version() {
    assert_eq!(ScholarshipReviewWorkflowContract::version(), 1);
    assert_eq!(CONTRACT_VERSION, 1);
}

#[test]
fn an_active_rubric_cannot_be_updated() {
    let (env, mut c) = setup();
    let id = active_rubric(&env, &mut c);
    assert_eq!(
        c.update_rubric(ADMIN, id, Some("Changed".to_string()), None),
        Err(ContractError::InvalidRubricConfig)
    );
    assert_eq!(c.get_rubric(id).unwrap().version, 1);
}

#[test]
fn a_draft_against_an_inactive_rubric_is_refused() {
    let (env, mut c) = setup();
    let rubric = c
        .create_rubric(&env, ADMIN, program_id(), "Draft".to_string(), vec![criterion("c1", 10_000, 10)], NOW)
        .unwrap();
    assert_eq!(
        c.save_draft(REVIEWER, [3u8; 32], rubric.id, vec![score("c1", 5, "")], true, NOW),
        Err(ContractError::InvalidRubricConfig)
    );
}

#[test]
fn a_score_for_an_unknown_criterion_is_refused() {
    let (env, mut c) = setup();
    let rubric = active_rubric(&env, &mut c);
    assert_eq!(
        c.save_draft(REVIEWER, [3u8; 32], rubric, vec![score("zz", 5, "")], true, NOW),
        Err(ContractError::InvalidRubricConfig)
    );
    assert_eq!(c.get_draft(REVIEWER, [3u8; 32]), Err(ContractError::DraftNotFound));
}

#[test]
fn an_incomplete_draft_cannot_be_submitted() {
    let (env, mut c) = setup();
    let rubric = active_rubric(&env, &mut c);
    c.save_draft(REVIEWER, [3u8; 32], rubric, vec![score("c1", 5, "")], false, NOW).unwrap();
    assert_eq!(c.submit_review(&env, REVIEWER, [3u8; 32], NOW), Err(ContractError::InvalidRubricConfig));
}

#[test]
fn only_the_author_may_amend_a_review() {
    let (env, mut c) = setup();
    let id = submitted(&env, &mut c, 7);
    assert_eq!(
        c.amend_review(&env, [0x11; 32], id, vec![score("c1", 1, "")], "x".to_string(), NOW),
        Err(ContractError::DraftOwnershipViolation)
    );
}

#[test]
fn weighted_totals_follow_each_criterion_scale() {
    let (env, mut c) = setup();
    let criteria = vec![criterion("a", 6000, 10), criterion("b", 4000, 4)];
    let rubric = c.create_rubric(&env, ADMIN, program_id(), "Two".to_string(), criteria, NOW).unwrap();
    c.activate_rubric(ADMIN, rubric.id, NOW).unwrap();
    c.save_draft(REVIEWER, [4u8; 32], rubric.id, vec![score("a", 5, ""), score("b", 3, "")], true, NOW)
        .unwrap();
    let review = c.submit_review(&env, REVIEWER, [4u8; 32], NOW).unwrap();
    // 5/10 of 6000 plus 3/4 of 4000.
    assert_eq!(review.total_score, 3000 + 3000);
}

#[test]
fn too_many_questions_or_a_past_deadline_are_refused() {
    let (env, mut c) = setup();
    let questions: Vec<String> = (0..=MAX_QUESTIONS_PER_REQUEST).map(|i| format!("q{}", i)).collect();
    assert_eq!(
        c.request_info(&env, REVIEWER, [3u8; 32], questions, vec![], 100, 10),
        Err(ContractError::QuestionLimitExceeded)
    );
    assert_eq!(
        c.request_info(&env, REVIEWER, [3u8; 32], vec!["q".to_string()], vec![], 10, 10),
        Err(ContractError::DeadlinePassed)
    );
}

#[test]
fn a_late_or_mismatched_response_is_refused() {
    let (env, mut c) = setup();
    let request = c.request_info(&env, REVIEWER, [3u8; 32], vec!["q".to_string()], vec![], 100, 10).unwrap();
    assert_eq!(
        c.respond_to_info_request(&env, APPLICANT, request.id, vec!["a".to_string()], 101),
        Err(ContractError::DeadlinePassed)
    );
    assert_eq!(
        c.respond_to_info_request(&env, APPLICANT, request.id, vec![], 50),
        Err(ContractError::QuestionLimitExceeded)
    );
    assert_eq!(c.get_info_request(request.id).unwrap().status, InfoRequestStatus::Pending);
}

#[test]
fn every_workflow_error_has_its_stable_code() {
    assert_eq!(ContractError::NotInitialized.code(), 1);
    assert_eq!(ContractError::WeightsDontReconcile.code(), 9);
    assert_eq!(ContractError::CannotAmendFinalized.code(), 14);
    assert_eq!(ContractError::ArithmeticOverflow.code(), 20);
}

#[test]
fn minted_ids_differ_from_one_record_to_the_next() {
    let (env, mut c) = setup();
    let a = c.create_rubric(&env, ADMIN, program_id(), "A".to_string(), vec![criterion("c1", 10_000, 10)], NOW).unwrap();
    let b = c.create_rubric(&env, ADMIN, program_id(), "B".to_string(), vec![criterion("c1", 10_000, 10)], NOW).unwrap();
    assert_ne!(a.id, b.id);
    assert_ne!(a.id, [0u8; 32]);
}

#[test]
fn a_second_submission_for_the_same_application_is_refused() {
    let (env, mut c) = setup();
    let first = submitted(&env, &mut c, 8);
    let application = [3u8; 32];
    let rubric = c.get_review(first).unwrap().rubric_id;
    assert_eq!(
        c.submit_review(&env, REVIEWER, application, NOW + 1).map(|r| r.id),
        Err(ContractError::ReviewAlreadySubmitted)
    );
    let other = [0x77u8; 32];
    c.save_draft(other, application, rubric, vec![score("c1", 3, "Ok")], true, NOW).unwrap();
    assert_eq!(c.submit_review(&env, other, application, NOW + 2).map(|r| r.id), Err(ContractError::ReviewAlreadySubmitted));
    assert_eq!(c.get_review(first).unwrap().total_score, 8000);
}
