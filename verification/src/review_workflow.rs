//! Scholarship review workflow: versioned scoring rubrics, private score
//! drafts, locked reviews with auditable amendments, and bounded requests
//! for more information from applicants.
//!
//! Rubric weights are basis points that must total 10 000; an active rubric
//! is immutable; every update writes a new version and leaves the earlier
//! ones readable. A draft affects nothing until its author submits it; a
//! submitted review changes only through an amendment that records the
//! scores it replaced, and not at all once finalized. A refused call
//! changes nothing.
use vstd::prelude::*;
use soroban_sdk::Env;
use crate::table::{Bytes32, Table, bytes32_eq};
use crate::crypto::{counter_id, derive_counter_id, next_counter};

verus! {

pub const CONTRACT_VERSION: u32 = 1;

/// The most criteria one rubric may hold.
pub const MAX_RUBRIC_CRITERIA: u32 = 50;

/// The most questions one information request may ask.
pub const MAX_QUESTIONS_PER_REQUEST: u32 = 20;

/// What the criterion weights of a rubric must add up to.
pub const TOTAL_WEIGHT: u32 = 10_000;

#[derive(Copy, Clone, Debug, PartialEq, Eq, Structural)]
pub enum ContractError {
    NotInitialized,
    AlreadyInitialized,
    NotAdmin,
    NotAuthorized,
    RubricNotFound,
    ApplicationNotFound,
    ReviewNotFound,
    InvalidRubricConfig,
    WeightsDontReconcile,
    DraftNotFound,
    DraftOwnershipViolation,
    ReviewAlreadySubmitted,
    ReviewNotSubmitted,
    CannotAmendFinalized,
    InfoRequestNotFound,
    QuestionLimitExceeded,
    DeadlinePassed,
    ResponseNotFound,
    InvalidAmendment,
    ArithmeticOverflow,
}

impl ContractError {
    /// The stable numeric code a client sees.
    pub fn code(self) -> (c: u32)
        ensures
            c == match self {
                ContractError::NotInitialized => 1u32,
                ContractError::AlreadyInitialized => 2u32,
                ContractError::NotAdmin => 3u32,
                ContractError::NotAuthorized => 4u32,
                ContractError::RubricNotFound => 5u32,
                ContractError::ApplicationNotFound => 6u32,
                ContractError::ReviewNotFound => 7u32,
                ContractError::InvalidRubricConfig => 8u32,
                ContractError::WeightsDontReconcile => 9u32,
                ContractError::DraftNotFound => 10u32,
                ContractError::DraftOwnershipViolation => 11u32,
                ContractError::ReviewAlreadySubmitted => 12u32,
                ContractError::ReviewNotSubmitted => 13u32,
                ContractError::CannotAmendFinalized => 14u32,
                ContractError::InfoRequestNotFound => 15u32,
                ContractError::QuestionLimitExceeded => 16u32,
                ContractError::DeadlinePassed => 17u32,
                ContractError::ResponseNotFound => 18u32,
                ContractError::InvalidAmendment => 19u32,
                ContractError::ArithmeticOverflow => 20u32,
            },
    {
        match self {
            ContractError::NotInitialized => 1,
            ContractError::AlreadyInitialized => 2,
            ContractError::NotAdmin => 3,
            ContractError::NotAuthorized => 4,
            ContractError::RubricNotFound => 5,
            ContractError::ApplicationNotFound => 6,
            ContractError::ReviewNotFound => 7,
            ContractError::InvalidRubricConfig => 8,
            ContractError::WeightsDontReconcile => 9,
            ContractError::DraftNotFound => 10,
            ContractError::DraftOwnershipViolation => 11,
            ContractError::ReviewAlreadySubmitted => 12,
            ContractError::ReviewNotSubmitted => 13,
            ContractError::CannotAmendFinalized => 14,
            ContractError::InfoRequestNotFound => 15,
            ContractError::QuestionLimitExceeded => 16,
            ContractError::DeadlinePassed => 17,
            ContractError::ResponseNotFound => 18,
            ContractError::InvalidAmendment => 19,
            ContractError::ArithmeticOverflow => 20,
        }
    }
}

/// How a criterion is scored.
#[derive(Copy, Clone, Debug, PartialEq, Eq, Structural)]
pub enum CriterionScale {
    Numeric { min: i32, max: i32 },
    Boolean,
    Categorical { options: u32 },
}

/// The top of a scale: a full score on it earns the criterion's whole weight.
pub open spec fn scale_top(scale: CriterionScale) -> u32 {
    match scale {
        CriterionScale::Numeric { max, .. } => max as u32,
        CriterionScale::Boolean => 1,
        CriterionScale::Categorical { options } => options,
    }
}

/// One weighted criterion of a rubric; `weight` is in basis points.
#[derive(Debug, PartialEq, Eq)]
pub struct RubricCriterion {
    pub id: String,
    pub name: String,
    pub description: String,
    pub weight: u32,
    pub scale: CriterionScale,
    pub guidance: String,
    pub required_comment: bool,
    pub disqualifying: bool,
    pub disqualify_threshold: Option<i32>,
}

impl Clone for RubricCriterion {
    fn clone(&self) -> (r: Self)
        ensures
            r == *self,
    {
        RubricCriterion {
            id: self.id.clone(),
            name: self.name.clone(),
            description: self.description.clone(),
            weight: self.weight,
            scale: self.scale,
            guidance: self.guidance.clone(),
            required_comment: self.required_comment,
            disqualifying: self.disqualifying,
            disqualify_threshold: self.disqualify_threshold,
        }
    }
}

/// An assessor's score on one criterion.
#[derive(Debug, PartialEq, Eq)]
pub struct ReviewScore {
    pub criterion_id: String,
    pub score: i32,
    pub comment: String,
}

impl Clone for ReviewScore {
    fn clone(&self) -> (r: Self)
        ensures
            r == *self,
    {
        ReviewScore { criterion_id: self.criterion_id.clone(), score: self.score, comment: self.comment.clone() }
    }
}

fn clone_criteria(v: &Vec<RubricCriterion>) -> (r: Vec<RubricCriterion>)
    ensures
        r@ == v@,
{
    let r = v.clone();
    proof {
        assert(r@ =~= v@);
    }
    r
}

fn clone_scores(v: &Vec<ReviewScore>) -> (r: Vec<ReviewScore>)
    ensures
        r@ == v@,
{
    let r = v.clone();
    proof {
        assert(r@ =~= v@);
    }
    r
}

fn clone_texts(v: &Vec<String>) -> (r: Vec<String>)
    ensures
        r@ == v@,
{
    let r = v.clone();
    proof {
        assert(r@ =~= v@);
    }
    r
}

/// A versioned scoring rubric.
#[derive(Debug, PartialEq, Eq)]
pub struct ScoringRubric {
    pub id: Bytes32,
    pub program_id: Bytes32,
    pub name: String,
    pub version: u32,
    pub criteria: Vec<RubricCriterion>,
    pub is_active: bool,
    pub created_at: u64,
    pub created_by: Bytes32,
    pub approved_at: Option<u64>,
    pub approved_by: Option<Bytes32>,
}

pub struct RubricView {
    pub id: Bytes32,
    pub program_id: Bytes32,
    pub name: String,
    pub version: u32,
    pub criteria: Seq<RubricCriterion>,
    pub is_active: bool,
    pub created_at: u64,
    pub created_by: Bytes32,
    pub approved_at: Option<u64>,
    pub approved_by: Option<Bytes32>,
}

impl ScoringRubric {
    pub open spec fn view(&self) -> RubricView {
        RubricView {
            id: self.id,
            program_id: self.program_id,
            name: self.name,
            version: self.version,
            criteria: self.criteria@,
            is_active: self.is_active,
            created_at: self.created_at,
            created_by: self.created_by,
            approved_at: self.approved_at,
            approved_by: self.approved_by,
        }
    }
}

impl Clone for ScoringRubric {
    fn clone(&self) -> (r: Self)
        ensures
            r@ == self@,
    {
        ScoringRubric {
            id: self.id,
            program_id: self.program_id,
            name: self.name.clone(),
            version: self.version,
            criteria: clone_criteria(&self.criteria),
            is_active: self.is_active,
            created_at: self.created_at,
            created_by: self.created_by,
            approved_at: self.approved_at,
            approved_by: self.approved_by,
        }
    }
}

#[derive(Copy, Clone, Debug, PartialEq, Eq, Structural)]
pub enum ReviewStatus {
    Draft,
    Submitted,
    Amended,
    Finalized,
}

/// An assessor's private, unsubmitted scores for one application.
#[derive(Debug, PartialEq, Eq)]
pub struct ReviewDraft {
    pub reviewer: Bytes32,
    pub application_id: Bytes32,
    pub rubric_id: Bytes32,
    pub rubric_version: u32,
    pub scores: Vec<ReviewScore>,
    pub last_saved_at: u64,
    pub is_complete: bool,
}

pub struct DraftView {
    pub reviewer: Bytes32,
    pub application_id: Bytes32,
    pub rubric_id: Bytes32,
    pub rubric_version: u32,
    pub scores: Seq<ReviewScore>,
    pub last_saved_at: u64,
    pub is_complete: bool,
}

impl ReviewDraft {
    pub open spec fn view(&self) -> DraftView {
        DraftView {
            reviewer: self.reviewer,
            application_id: self.application_id,
            rubric_id: self.rubric_id,
            rubric_version: self.rubric_version,
            scores: self.scores@,
            last_saved_at: self.last_saved_at,
            is_complete: self.is_complete,
        }
    }
}

impl Clone for ReviewDraft {
    fn clone(&self) -> (r: Self)
        ensures
            r@ == self@,
    {
        ReviewDraft {
            reviewer: self.reviewer,
            application_id: self.application_id,
            rubric_id: self.rubric_id,
            rubric_version: self.rubric_version,
            scores: clone_scores(&self.scores),
            last_saved_at: self.last_saved_at,
            is_complete: self.is_complete,
        }
    }
}

/// A submitted review; `total_score` is the weighted sum on a 0..=10 000
/// scale.
#[derive(Debug, PartialEq, Eq)]
pub struct Review {
    pub id: Bytes32,
    pub application_id: Bytes32,
    pub reviewer: Bytes32,
    pub rubric_id: Bytes32,
    pub rubric_version: u32,
    pub scores: Vec<ReviewScore>,
    pub total_score: u32,
    pub status: ReviewStatus,
    pub submitted_at: u64,
    pub finalized_at: Option<u64>,
    pub amendment_count: u32,
}

pub struct ReviewView {
    pub id: Bytes32,
    pub application_id: Bytes32,
    pub reviewer: Bytes32,
    pub rubric_id: Bytes32,
    pub rubric_version: u32,
    pub scores: Seq<ReviewScore>,
    pub total_score: u32,
    pub status: ReviewStatus,
    pub submitted_at: u64,
    pub finalized_at: Option<u64>,
    pub amendment_count: u32,
}

impl Review {
    pub open spec fn view(&self) -> ReviewView {
        ReviewView {
            id: self.id,
            application_id: self.application_id,
            reviewer: self.reviewer,
            rubric_id: self.rubric_id,
            rubric_version: self.rubric_version,
            scores: self.scores@,
            total_score: self.total_score,
            status: self.status,
            submitted_at: self.submitted_at,
            finalized_at: self.finalized_at,
            amendment_count: self.amendment_count,
        }
    }
}

impl Clone for Review {
    fn clone(&self) -> (r: Self)
        ensures
            r@ == self@,
    {
        Review {
            id: self.id,
            application_id: self.application_id,
            reviewer: self.reviewer,
            rubric_id: self.rubric_id,
            rubric_version: self.rubric_version,
            scores: clone_scores(&self.scores),
            total_score: self.total_score,
            status: self.status,
            submitted_at: self.submitted_at,
            finalized_at: self.finalized_at,
            amendment_count: self.amendment_count,
        }
    }
}

/// The audit record of one amendment.
#[derive(Debug, PartialEq, Eq)]
pub struct ReviewAmendment {
    pub id: Bytes32,
    pub review_id: Bytes32,
    pub amended_by: Bytes32,
    pub previous_scores: Vec<ReviewScore>,
    pub new_scores: Vec<ReviewScore>,
    pub reason: String,
    pub amended_at: u64,
}

pub struct AmendmentView {
    pub id: Bytes32,
    pub review_id: Bytes32,
    pub amended_by: Bytes32,
    pub previous_scores: Seq<ReviewScore>,
    pub new_scores: Seq<ReviewScore>,
    pub reason: String,
    pub amended_at: u64,
}

impl ReviewAmendment {
    pub open spec fn view(&self) -> AmendmentView {
        AmendmentView {
            id: self.id,
            review_id: self.review_id,
            amended_by: self.amended_by,
            previous_scores: self.previous_scores@,
            new_scores: self.new_scores@,
            reason: self.reason,
            amended_at: self.amended_at,
        }
    }
}

#[derive(Copy, Clone, Debug, PartialEq, Eq, Structural)]
pub enum InfoRequestStatus {
    Pending,
    Responded,
    Expired,
    Cancelled,
}

/// An assessor's request for more information from an applicant.
#[derive(Debug, PartialEq, Eq)]
pub struct InfoRequest {
    pub id: Bytes32,
    pub application_id: Bytes32,
    pub reviewer: Bytes32,
    pub questions: Vec<String>,
    pub visible_fields: Vec<String>,
    pub deadline: u64,
    pub status: InfoRequestStatus,
    pub created_at: u64,
    pub responded_at: Option<u64>,
}

pub struct RequestView {
    pub id: Bytes32,
    pub application_id: Bytes32,
    pub reviewer: Bytes32,
    pub questions: Seq<String>,
    pub visible_fields: Seq<String>,
    pub deadline: u64,
    pub status: InfoRequestStatus,
    pub created_at: u64,
    pub responded_at: Option<u64>,
}

impl InfoRequest {
    pub open spec fn view(&self) -> RequestView {
        RequestView {
            id: self.id,
            application_id: self.application_id,
            reviewer: self.reviewer,
            questions: self.questions@,
            visible_fields: self.visible_fields@,
            deadline: self.deadline,
            status: self.status,
            created_at: self.created_at,
            responded_at: self.responded_at,
        }
    }
}

impl Clone for InfoRequest {
    fn clone(&self) -> (r: Self)
        ensures
            r@ == self@,
    {
        InfoRequest {
            id: self.id,
            application_id: self.application_id,
            reviewer: self.reviewer,
            questions: clone_texts(&self.questions),
            visible_fields: clone_texts(&self.visible_fields),
            deadline: self.deadline,
            status: self.status,
            created_at: self.created_at,
            responded_at: self.responded_at,
        }
    }
}

/// An applicant's answers to a request.
#[derive(Debug, PartialEq, Eq)]
pub struct InfoResponse {
    pub id: Bytes32,
    pub request_id: Bytes32,
    pub applicant: Bytes32,
    pub responses: Vec<String>,
    pub version: u32,
    pub responded_at: u64,
}

pub struct ResponseView {
    pub id: Bytes32,
    pub request_id: Bytes32,
    pub applicant: Bytes32,
    pub responses: Seq<String>,
    pub version: u32,
    pub responded_at: u64,
}

impl InfoResponse {
    pub open spec fn view(&self) -> ResponseView {
        ResponseView {
            id: self.id,
            request_id: self.request_id,
            applicant: self.applicant,
            responses: self.responses@,
            version: self.version,
            responded_at: self.responded_at,
        }
    }
}

impl Clone for InfoResponse {
    fn clone(&self) -> (r: Self)
        ensures
            r@ == self@,
    {
        InfoResponse {
            id: self.id,
            request_id: self.request_id,
            applicant: self.applicant,
            responses: clone_texts(&self.responses),
            version: self.version,
            responded_at: self.responded_at,
        }
    }
}

// ── Scoring arithmetic ─────────────────────────────────────────────────────

/// The sum of the criterion weights.
pub open spec fn weight_sum(criteria: Seq<RubricCriterion>) -> int
    decreases criteria.len(),
{
    if criteria.len() == 0 {
        0
    } else {
        weight_sum(criteria.drop_last()) + criteria.last().weight
    }
}

/// Why a criterion list cannot make a rubric, if it cannot.
pub open spec fn criteria_check(criteria: Seq<RubricCriterion>) -> Result<(), ContractError> {
    if weight_sum(criteria) != TOTAL_WEIGHT {
        Err(ContractError::WeightsDontReconcile)
    } else if criteria.len() > MAX_RUBRIC_CRITERIA {
        Err(ContractError::InvalidRubricConfig)
    } else {
        Ok(())
    }
}

/// The first criterion at or after `from` whose id is `id`.
pub open spec fn find_from(criteria: Seq<RubricCriterion>, id: Seq<char>, from: int) -> Option<RubricCriterion>
    decreases criteria.len() - from,
{
    if from < 0 || from >= criteria.len() {
        None
    } else if criteria[from].id@ == id {
        Some(criteria[from])
    } else {
        find_from(criteria, id, from + 1)
    }
}

/// The criterion a score refers to.
pub open spec fn find_criterion(criteria: Seq<RubricCriterion>, id: Seq<char>) -> Option<RubricCriterion> {
    find_from(criteria, id, 0)
}

/// Every score refers to a criterion of the rubric.
pub open spec fn scores_known(scores: Seq<ReviewScore>, criteria: Seq<RubricCriterion>) -> bool {
    forall|i: int| 0 <= i < scores.len() ==> (#[trigger] find_criterion(criteria, scores[i].criterion_id@)) is Some
}

/// What one score contributes: the score's share of the scale's top,
/// times the criterion's weight, rounded down; `None` when the product does
/// not fit in 32 bits or the scale has no top.
pub open spec fn weighted_score(score: i32, c: RubricCriterion) -> Option<u32> {
    let product = (score as u32) * c.weight;
    if product > u32::MAX || scale_top(c.scale) == 0 {
        None
    } else {
        Some((product / (scale_top(c.scale) as int)) as u32)
    }
}

/// The weighted total of a list of scores, accumulated in order.
pub open spec fn total_score_of(scores: Seq<ReviewScore>, criteria: Seq<RubricCriterion>) -> Result<u32, ContractError>
    decreases scores.len(),
{
    if scores.len() == 0 {
        Ok(0)
    } else {
        match total_score_of(scores.drop_last(), criteria) {
            Err(e) => Err(e),
            Ok(t) => match find_criterion(criteria, scores.last().criterion_id@) {
                None => Err(ContractError::InvalidRubricConfig),
                Some(c) => match weighted_score(scores.last().score, c) {
                    None => Err(ContractError::ArithmeticOverflow),
                    Some(w) => if t + w > u32::MAX {
                        Err(ContractError::ArithmeticOverflow)
                    } else {
                        Ok((t + w) as u32)
                    },
                },
            },
        }
    }
}

fn find_criterion_exec(criteria: &Vec<RubricCriterion>, id: &String) -> (r: Option<usize>)
    ensures
        r is None ==> find_criterion(criteria@, id@) is None,
        r matches Some(j) ==> j < criteria@.len() && find_criterion(criteria@, id@) == Some(criteria@[j as int]),
{
    let mut j: usize = 0;
    while j < criteria.len()
        invariant
            j <= criteria@.len(),
            find_criterion(criteria@, id@) == find_from(criteria@, id@, j as int),
        decreases criteria@.len() - j,
    {
        if criteria[j].id == *id {
            return Some(j);
        }
        j = j + 1;
    }
    None
}

/// The weights must add up to exactly the full weight, and a rubric holds
/// at most `MAX_RUBRIC_CRITERIA` criteria.
fn validate_rubric_weights(criteria: &Vec<RubricCriterion>) -> (r: Result<(), ContractError>)
    ensures
        r == criteria_check(criteria@),
{
    let mut total: u64 = 0;
    let mut i: usize = 0;
    while i < criteria.len()
        invariant
            i <= criteria@.len(),
            total == weight_sum(criteria@.take(i as int)) || (total > TOTAL_WEIGHT && weight_sum(
                criteria@.take(i as int),
            ) > TOTAL_WEIGHT),
            total <= TOTAL_WEIGHT + u32::MAX,
        decreases criteria@.len() - i,
    {
        proof {
            assert(criteria@.take(i + 1).drop_last() =~= criteria@.take(i as int));
            lemma_weight_sum_nonneg(criteria@.take(i as int));
        }
        if total <= TOTAL_WEIGHT as u64 {
            total = total + criteria[i].weight as u64;
        }
        i = i + 1;
    }
    proof {
        assert(criteria@.take(criteria@.len() as int) =~= criteria@);
    }
    if total != TOTAL_WEIGHT as u64 {
        return Err(ContractError::WeightsDontReconcile);
    }
    if criteria.len() > MAX_RUBRIC_CRITERIA as usize {
        return Err(ContractError::InvalidRubricConfig);
    }
    Ok(())
}

proof fn lemma_weight_sum_nonneg(criteria: Seq<RubricCriterion>)
    ensures
        weight_sum(criteria) >= 0,
    decreases criteria.len(),
{
    if criteria.len() > 0 {
        lemma_weight_sum_nonneg(criteria.drop_last());
    }
}

fn check_scores(scores: &Vec<ReviewScore>, criteria: &Vec<RubricCriterion>) -> (ok: bool)
    ensures
        ok == scores_known(scores@, criteria@),
{
    let mut i: usize = 0;
    while i < scores.len()
        invariant
            i <= scores@.len(),
            forall|k: int| 0 <= k < i ==> (#[trigger] find_criterion(criteria@, scores@[k].criterion_id@)) is Some,
        decreases scores@.len() - i,
    {
        if find_criterion_exec(criteria, &scores[i].criterion_id).is_none() {
            return false;
        }
        i = i + 1;
    }
    true
}

fn weighted_score_exec(score: i32, c: &RubricCriterion) -> (r: Option<u32>)
    ensures
        r == weighted_score(score, *c),
{
    let top: u32 = match c.scale {
        CriterionScale::Numeric { max, .. } => max as u32,
        CriterionScale::Boolean => 1,
        CriterionScale::Categorical { options } => options,
    };
    let product = match (score as u32).checked_mul(c.weight) {
        Some(p) => p,
        None => return None,
    };
    if top == 0 {
        return None;
    }
    Some(product / top)
}

/// The weighted total of `scores` against `criteria`.
pub fn compute_total_score(scores: &Vec<ReviewScore>, criteria: &Vec<RubricCriterion>) -> (r: Result<u32, ContractError>)
    ensures
        r == total_score_of(scores@, criteria@),
{
    let mut total: u32 = 0;
    let mut i: usize = 0;
    while i < scores.len()
        invariant
            i <= scores@.len(),
            total_score_of(scores@.take(i as int), criteria@) == Ok::<u32, ContractError>(total),
        decreases scores@.len() - i,
    {
        proof {
            assert(scores@.take(i + 1).drop_last() =~= scores@.take(i as int));
            assert(scores@.take(i + 1).last() == scores@[i as int]);
        }
        let c = match find_criterion_exec(criteria, &scores[i].criterion_id) {
            Some(j) => &criteria[j],
            None => {
                proof {
                    lemma_total_error_sticks(scores@, criteria@, (i + 1) as int);
                }
                return Err(ContractError::InvalidRubricConfig);
            },
        };
        let w = match weighted_score_exec(scores[i].score, c) {
            Some(w) => w,
            None => {
                proof {
                    lemma_total_error_sticks(scores@, criteria@, (i + 1) as int);
                }
                return Err(ContractError::ArithmeticOverflow);
            },
        };
        total = match total.checked_add(w) {
            Some(t) => t,
            None => {
                proof {
                    lemma_total_error_sticks(scores@, criteria@, (i + 1) as int);
                }
                return Err(ContractError::ArithmeticOverflow);
            },
        };
        i = i + 1;
    }
    proof {
        assert(scores@.take(scores@.len() as int) =~= scores@);
    }
    Ok(total)
}

/// Once a prefix of the scores fails, the whole list fails the same way.
proof fn lemma_total_error_sticks(scores: Seq<ReviewScore>, criteria: Seq<RubricCriterion>, n: int)
    requires
        0 <= n <= scores.len(),
        total_score_of(scores.take(n), criteria) is Err,
    ensures
        total_score_of(scores, criteria) == total_score_of(scores.take(n), criteria),
    decreases scores.len() - n,
{
    if n < scores.len() {
        assert(scores.take(n + 1).drop_last() =~= scores.take(n));
        lemma_total_error_sticks(scores, criteria, n + 1);
    } else {
        assert(scores.take(n) =~= scores);
    }
}

// ── Contract state ─────────────────────────────────────────────────────────

/// Every stored review's application is on record as submitted.
pub open spec fn reviews_are_indexed(s: WorkflowState) -> bool {
    forall|k: Bytes32| #[trigger]
        s.reviews.contains_key(k) ==> s.submitted.contains_key(s.reviews[k].application_id)
}

/// The index invariant survives any change that leaves the reviews'
/// applications and the index alone.
proof fn lemma_index_kept(before: WorkflowState, after: WorkflowState)
    requires
        reviews_are_indexed(before),
        after.reviews.dom() == before.reviews.dom(),
        forall|k: Bytes32| #[trigger]
            before.reviews.contains_key(k) ==> after.reviews[k].application_id == before.reviews[k].application_id,
        after.submitted == before.submitted,
    ensures
        reviews_are_indexed(after),
{
    assert forall|k: Bytes32| #[trigger] after.reviews.contains_key(k) implies after.submitted.contains_key(
        after.reviews[k].application_id,
    ) by {
        assert(before.reviews.contains_key(k));
    }
}

/// The abstract storage of the workflow contract.
pub struct WorkflowState {
    pub admin: Option<Bytes32>,
    pub counter: u64,
    pub rubrics: Map<Bytes32, RubricView>,
    pub rubric_versions: Map<(Bytes32, u32), RubricView>,
    pub drafts: Map<(Bytes32, Bytes32), DraftView>,
    pub reviews: Map<Bytes32, ReviewView>,
    /// Each application with a submitted review, mapped to that review's id.
    pub submitted: Map<Bytes32, Bytes32>,
    pub amendments: Map<Bytes32, AmendmentView>,
    pub requests: Map<Bytes32, RequestView>,
    pub responses: Map<Bytes32, ResponseView>,
}

pub open spec fn admin_gate(s: WorkflowState, caller: Bytes32) -> Result<(), ContractError> {
    match s.admin {
        None => Err(ContractError::NotInitialized),
        Some(a) => if a == caller {
            Ok(())
        } else {
            Err(ContractError::NotAdmin)
        },
    }
}

/// The id the next minted record gets, and the counter after it.
pub open spec fn next_id_of(s: WorkflowState, now: u64) -> Bytes32 {
    counter_id(next_counter(s.counter), now)
}

pub open spec fn create_rubric_spec(
    s: WorkflowState,
    admin: Bytes32,
    program_id: Bytes32,
    name: String,
    criteria: Seq<RubricCriterion>,
    now: u64,
) -> (Result<RubricView, ContractError>, WorkflowState) {
    if admin_gate(s, admin) is Err {
        (Err(admin_gate(s, admin)->Err_0), s)
    } else if criteria_check(criteria) is Err {
        (Err(criteria_check(criteria)->Err_0), s)
    } else {
        let id = next_id_of(s, now);
        let rubric = RubricView {
            id,
            program_id,
            name,
            version: 1,
            criteria,
            is_active: false,
            created_at: now,
            created_by: admin,
            approved_at: None,
            approved_by: None,
        };
        (
            Ok(rubric),
            WorkflowState {
                counter: next_counter(s.counter),
                rubrics: s.rubrics.insert(id, rubric),
                rubric_versions: s.rubric_versions.insert((id, 1u32), rubric),
                ..s
            },
        )
    }
}

pub open spec fn update_rubric_spec(
    s: WorkflowState,
    admin: Bytes32,
    rubric_id: Bytes32,
    name: Option<String>,
    criteria: Option<Seq<RubricCriterion>>,
) -> (Result<RubricView, ContractError>, WorkflowState) {
    if admin_gate(s, admin) is Err {
        (Err(admin_gate(s, admin)->Err_0), s)
    } else if !s.rubrics.contains_key(rubric_id) {
        (Err(ContractError::RubricNotFound), s)
    } else if s.rubrics[rubric_id].is_active {
        (Err(ContractError::InvalidRubricConfig), s)
    } else if criteria is Some && criteria_check(criteria->Some_0) is Err {
        (Err(criteria_check(criteria->Some_0)->Err_0), s)
    } else if s.rubrics[rubric_id].version == u32::MAX {
        (Err(ContractError::ArithmeticOverflow), s)
    } else {
        let old = s.rubrics[rubric_id];
        let version = (old.version + 1) as u32;
        let rubric = RubricView {
            name: match name {
                Some(n) => n,
                None => old.name,
            },
            criteria: match criteria {
                Some(c) => c,
                None => old.criteria,
            },
            version,
            ..old
        };
        (
            Ok(rubric),
            WorkflowState {
                rubrics: s.rubrics.insert(rubric_id, rubric),
                rubric_versions: s.rubric_versions.insert((rubric_id, version), rubric),
                ..s
            },
        )
    }
}

pub open spec fn activate_rubric_spec(s: WorkflowState, admin: Bytes32, rubric_id: Bytes32, now: u64) -> (
    Result<(), ContractError>,
    WorkflowState,
) {
    if admin_gate(s, admin) is Err {
        (Err(admin_gate(s, admin)->Err_0), s)
    } else if !s.rubrics.contains_key(rubric_id) {
        (Err(ContractError::RubricNotFound), s)
    } else if s.rubrics[rubric_id].is_active {
        (Ok(()), s)
    } else {
        let rubric = RubricView {
            is_active: true,
            approved_at: Some(now),
            approved_by: Some(admin),
            ..s.rubrics[rubric_id]
        };
        (Ok(()), WorkflowState { rubrics: s.rubrics.insert(rubric_id, rubric), ..s })
    }
}

pub open spec fn save_draft_spec(
    s: WorkflowState,
    reviewer: Bytes32,
    application_id: Bytes32,
    rubric_id: Bytes32,
    scores: Seq<ReviewScore>,
    is_complete: bool,
    now: u64,
) -> (Result<DraftView, ContractError>, WorkflowState) {
    if !s.rubrics.contains_key(rubric_id) {
        (Err(ContractError::RubricNotFound), s)
    } else if !s.rubrics[rubric_id].is_active {
        (Err(ContractError::InvalidRubricConfig), s)
    } else if !scores_known(scores, s.rubrics[rubric_id].criteria) {
        (Err(ContractError::InvalidRubricConfig), s)
    } else {
        let draft = DraftView {
            reviewer,
            application_id,
            rubric_id,
            rubric_version: s.rubrics[rubric_id].version,
            scores,
            last_saved_at: now,
            is_complete,
        };
        (Ok(draft), WorkflowState { drafts: s.drafts.insert((reviewer, application_id), draft), ..s })
    }
}

pub open spec fn submit_review_spec(s: WorkflowState, reviewer: Bytes32, application_id: Bytes32, now: u64) -> (
    Result<ReviewView, ContractError>,
    WorkflowState,
) {
    if !s.drafts.contains_key((reviewer, application_id)) {
        (Err(ContractError::DraftNotFound), s)
    } else {
        let draft = s.drafts[(reviewer, application_id)];
        if !draft.is_complete {
            (Err(ContractError::InvalidRubricConfig), s)
        } else if s.submitted.contains_key(application_id) {
            (Err(ContractError::ReviewAlreadySubmitted), s)
        } else if !s.rubrics.contains_key(draft.rubric_id) {
            (Err(ContractError::RubricNotFound), s)
        } else if total_score_of(draft.scores, s.rubrics[draft.rubric_id].criteria) is Err {
            (Err(total_score_of(draft.scores, s.rubrics[draft.rubric_id].criteria)->Err_0), s)
        } else {
            let id = next_id_of(s, now);
            let review = ReviewView {
                id,
                application_id,
                reviewer,
                rubric_id: draft.rubric_id,
                rubric_version: draft.rubric_version,
                scores: draft.scores,
                total_score: total_score_of(draft.scores, s.rubrics[draft.rubric_id].criteria)->Ok_0,
                status: ReviewStatus::Submitted,
                submitted_at: now,
                finalized_at: None,
                amendment_count: 0,
            };
            (
                Ok(review),
                WorkflowState {
                    counter: next_counter(s.counter),
                    reviews: s.reviews.insert(id, review),
                    submitted: s.submitted.insert(application_id, id),
                    ..s
                },
            )
        }
    }
}

pub open spec fn amend_review_spec(
    s: WorkflowState,
    reviewer: Bytes32,
    review_id: Bytes32,
    new_scores: Seq<ReviewScore>,
    reason: String,
    now: u64,
) -> (Result<(), ContractError>, WorkflowState) {
    if !s.reviews.contains_key(review_id) {
        (Err(ContractError::ReviewNotFound), s)
    } else {
        let review = s.reviews[review_id];
        if review.reviewer != reviewer {
            (Err(ContractError::DraftOwnershipViolation), s)
        } else if review.status is Finalized {
            (Err(ContractError::CannotAmendFinalized), s)
        } else if !s.rubrics.contains_key(review.rubric_id) {
            (Err(ContractError::RubricNotFound), s)
        } else if !scores_known(new_scores, s.rubrics[review.rubric_id].criteria) {
            (Err(ContractError::InvalidRubricConfig), s)
        } else if total_score_of(new_scores, s.rubrics[review.rubric_id].criteria) is Err {
            (Err(total_score_of(new_scores, s.rubrics[review.rubric_id].criteria)->Err_0), s)
        } else if review.amendment_count == u32::MAX {
            (Err(ContractError::ArithmeticOverflow), s)
        } else {
            let id = next_id_of(s, now);
            let amendment = AmendmentView {
                id,
                review_id,
                amended_by: reviewer,
                previous_scores: review.scores,
                new_scores,
                reason,
                amended_at: now,
            };
            let updated = ReviewView {
                scores: new_scores,
                total_score: total_score_of(new_scores, s.rubrics[review.rubric_id].criteria)->Ok_0,
                status: ReviewStatus::Amended,
                amendment_count: (review.amendment_count + 1) as u32,
                ..review
            };
            (
                Ok(()),
                WorkflowState {
                    counter: next_counter(s.counter),
                    amendments: s.amendments.insert(id, amendment),
                    reviews: s.reviews.insert(review_id, updated),
                    ..s
                },
            )
        }
    }
}

pub open spec fn finalize_review_spec(s: WorkflowState, admin: Bytes32, review_id: Bytes32, now: u64) -> (
    Result<(), ContractError>,
    WorkflowState,
) {
    if admin_gate(s, admin) is Err {
        (Err(admin_gate(s, admin)->Err_0), s)
    } else if !s.reviews.contains_key(review_id) {
        (Err(ContractError::ReviewNotFound), s)
    } else if s.reviews[review_id].status is Finalized {
        (Ok(()), s)
    } else {
        let updated = ReviewView {
            status: ReviewStatus::Finalized,
            finalized_at: Some(now),
            ..s.reviews[review_id]
        };
        (Ok(()), WorkflowState { reviews: s.reviews.insert(review_id, updated), ..s })
    }
}

pub open spec fn request_info_spec(
    s: WorkflowState,
    reviewer: Bytes32,
    application_id: Bytes32,
    questions: Seq<String>,
    visible_fields: Seq<String>,
    deadline: u64,
    now: u64,
) -> (Result<RequestView, ContractError>, WorkflowState) {
    if questions.len() > MAX_QUESTIONS_PER_REQUEST {
        (Err(ContractError::QuestionLimitExceeded), s)
    } else if deadline <= now {
        (Err(ContractError::DeadlinePassed), s)
    } else {
        let id = next_id_of(s, now);
        let request = RequestView {
            id,
            application_id,
            reviewer,
            questions,
            visible_fields,
            deadline,
            status: InfoRequestStatus::Pending,
            created_at: now,
            responded_at: None,
        };
        (
            Ok(request),
            WorkflowState { counter: next_counter(s.counter), requests: s.requests.insert(id, request), ..s },
        )
    }
}

pub open spec fn respond_spec(
    s: WorkflowState,
    applicant: Bytes32,
    request_id: Bytes32,
    responses: Seq<String>,
    now: u64,
) -> (Result<ResponseView, ContractError>, WorkflowState) {
    if !s.requests.contains_key(request_id) {
        (Err(ContractError::InfoRequestNotFound), s)
    } else {
        let request = s.requests[request_id];
        if !(request.status is Pending) {
            (Err(ContractError::InvalidRubricConfig), s)
        } else if now > request.deadline {
            (Err(ContractError::DeadlinePassed), s)
        } else if responses.len() != request.questions.len() {
            (Err(ContractError::QuestionLimitExceeded), s)
        } else {
            let id = next_id_of(s, now);
            let response = ResponseView {
                id,
                request_id,
                applicant,
                responses,
                version: 1,
                responded_at: now,
            };
            let updated = RequestView { status: InfoRequestStatus::Responded, responded_at: Some(now), ..request };
            (
                Ok(response),
                WorkflowState {
                    counter: next_counter(s.counter),
                    requests: s.requests.insert(request_id, updated),
                    responses: s.responses.insert(id, response),
                    ..s
                },
            )
        }
    }
}

/// The workflow contract's storage.
pub struct ScholarshipReviewWorkflowContract {
    admin: Option<Bytes32>,
    counter: u64,
    rubrics: Table<Bytes32, ScoringRubric>,
    rubric_versions: Table<(Bytes32, u32), ScoringRubric>,
    drafts: Table<(Bytes32, Bytes32), ReviewDraft>,
    reviews: Table<Bytes32, Review>,
    submitted: Table<Bytes32, Bytes32>,
    amendments: Table<Bytes32, ReviewAmendment>,
    requests: Table<Bytes32, InfoRequest>,
    responses: Table<Bytes32, InfoResponse>,
}

impl ScholarshipReviewWorkflowContract {
    pub closed spec fn wf(&self) -> bool {
        &&& self.rubrics.wf()
        &&& self.rubric_versions.wf()
        &&& self.drafts.wf()
        &&& self.reviews.wf()
        &&& self.amendments.wf()
        &&& self.requests.wf()
        &&& self.responses.wf()
        &&& self.submitted.wf()
        &&& reviews_are_indexed(self@)
    }

    pub closed spec fn view(&self) -> WorkflowState {
        WorkflowState {
            admin: self.admin,
            counter: self.counter,
            rubrics: self.rubrics.view().map_values(|r: ScoringRubric| r@),
            rubric_versions: self.rubric_versions.view().map_values(|r: ScoringRubric| r@),
            drafts: self.drafts.view().map_values(|d: ReviewDraft| d@),
            reviews: self.reviews.view().map_values(|r: Review| r@),
            submitted: self.submitted.view(),
            amendments: self.amendments.view().map_values(|a: ReviewAmendment| a@),
            requests: self.requests.view().map_values(|r: InfoRequest| r@),
            responses: self.responses.view().map_values(|r: InfoResponse| r@),
        }
    }

    pub fn new() -> (c: Self)
        ensures
            c.wf(),
            c@ == (WorkflowState {
                admin: None,
                counter: 0,
                rubrics: Map::empty(),
                rubric_versions: Map::empty(),
                drafts: Map::empty(),
                reviews: Map::empty(),
                submitted: Map::empty(),
                amendments: Map::empty(),
                requests: Map::empty(),
                responses: Map::empty(),
            }),
    {
        let c = ScholarshipReviewWorkflowContract {
            admin: None,
            counter: 0,
            rubrics: Table::new(),
            rubric_versions: Table::new(),
            drafts: Table::new(),
            reviews: Table::new(),
            submitted: Table::new(),
            amendments: Table::new(),
            requests: Table::new(),
            responses: Table::new(),
        };
        proof {
            assert(c@.rubrics =~= Map::<Bytes32, RubricView>::empty());
            assert(c@.rubric_versions =~= Map::<(Bytes32, u32), RubricView>::empty());
            assert(c@.drafts =~= Map::<(Bytes32, Bytes32), DraftView>::empty());
            assert(c@.reviews =~= Map::<Bytes32, ReviewView>::empty());
            assert(c@.amendments =~= Map::<Bytes32, AmendmentView>::empty());
            assert(c@.requests =~= Map::<Bytes32, RequestView>::empty());
            assert(c@.responses =~= Map::<Bytes32, ResponseView>::empty());
        }
        c
    }

    pub fn initialize(&mut self, admin: Bytes32) -> (r: Result<(), ContractError>)
        requires
            old(self).wf(),
        ensures
            final(self).wf(),
            old(self)@.admin is Some ==> r == Err::<(), ContractError>(ContractError::AlreadyInitialized)
                && final(self)@ == old(self)@,
            old(self)@.admin is None ==> r == Ok::<(), ContractError>(()) && final(self)@ == (WorkflowState {
                admin: Some(admin),
                counter: 0,
                ..old(self)@
            }),
    {
        if self.admin.is_some() {
            return Err(ContractError::AlreadyInitialized);
        }
        self.admin = Some(admin);
        self.counter = 0;
        Ok(())
    }

    fn require_admin(&self, caller: &Bytes32) -> (r: Result<(), ContractError>)
        ensures
            r == admin_gate(self@, *caller),
    {
        match &self.admin {
            None => Err(ContractError::NotInitialized),
            Some(a) => if bytes32_eq(a, caller) {
                Ok(())
            } else {
                Err(ContractError::NotAdmin)
            },
        }
    }

    fn next_id(&mut self, env: &Env, now: u64) -> (id: Bytes32)
        ensures
            id == next_id_of(old(self)@, now),
            final(self)@ == (WorkflowState { counter: next_counter(old(self)@.counter), ..old(self)@ }),
            final(self).rubrics == old(self).rubrics,
            final(self).rubric_versions == old(self).rubric_versions,
            final(self).drafts == old(self).drafts,
            final(self).reviews == old(self).reviews,
            final(self).submitted == old(self).submitted,
            final(self).amendments == old(self).amendments,
            final(self).requests == old(self).requests,
            final(self).responses == old(self).responses,
    {
        let next = match self.counter.checked_add(1) {
            Some(n) => n,
            None => 1,
        };
        self.counter = next;
        derive_counter_id(env, next, now)
    }

    /// Creates version 1 of a rubric, inactive.
    pub fn create_rubric(
        &mut self,
        env: &Env,
        admin: Bytes32,
        program_id: Bytes32,
        name: String,
        criteria: Vec<RubricCriterion>,
        now: u64,
    ) -> (r: Result<ScoringRubric, ContractError>)
        requires
            old(self).wf(),
        ensures
            final(self).wf(),
            final(self)@ == create_rubric_spec(old(self)@, admin, program_id, name, criteria@, now).1,
            r matches Ok(x) ==> create_rubric_spec(old(self)@, admin, program_id, name, criteria@, now).0
                == Ok::<RubricView, ContractError>(x@),
            r matches Err(e) ==> create_rubric_spec(old(self)@, admin, program_id, name, criteria@, now).0
                == Err::<RubricView, ContractError>(e),
    {
        match self.require_admin(&admin) {
            Err(e) => return Err(e),
            Ok(()) => {},
        }
        match validate_rubric_weights(&criteria) {
            Err(e) => return Err(e),
            Ok(()) => {},
        }
        let id = self.next_id(env, now);
        let rubric = ScoringRubric {
            id,
            program_id,
            name,
            version: 1,
            criteria,
            is_active: false,
            created_at: now,
            created_by: admin,
            approved_at: None,
            approved_by: None,
        };
        let ghost before = self@;
        self.rubrics.insert(id, rubric.clone());
        self.rubric_versions.insert((id, 1u32), rubric.clone());
        proof {
            assert(self@.rubrics =~= before.rubrics.insert(id, rubric@));
            assert(self@.rubric_versions =~= before.rubric_versions.insert((id, 1u32), rubric@));
        }
        Ok(rubric)
    }

    /// Writes a new version of an inactive rubric; earlier versions stay
    /// readable.
    pub fn update_rubric(
        &mut self,
        admin: Bytes32,
        rubric_id: Bytes32,
        name: Option<String>,
        criteria: Option<Vec<RubricCriterion>>,
    ) -> (r: Result<ScoringRubric, ContractError>)
        requires
            old(self).wf(),
        ensures
            final(self).wf(),
            final(self)@ == update_rubric_spec(
                old(self)@,
                admin,
                rubric_id,
                name,
                match criteria {
                    Some(c) => Some(c@),
                    None => None,
                },
            ).1,
            r matches Ok(x) ==> update_rubric_spec(
                old(self)@,
                admin,
                rubric_id,
                name,
                match criteria {
                    Some(c) => Some(c@),
                    None => None,
                },
            ).0 == Ok::<RubricView, ContractError>(x@),
            r matches Err(e) ==> update_rubric_spec(
                old(self)@,
                admin,
                rubric_id,
                name,
                match criteria {
                    Some(c) => Some(c@),
                    None => None,
                },
            ).0 == Err::<RubricView, ContractError>(e),
    {
        match self.require_admin(&admin) {
            Err(e) => return Err(e),
            Ok(()) => {},
        }
        let mut rubric = match self.rubrics.get(&rubric_id) {
            Some(r) => r.clone(),
            None => return Err(ContractError::RubricNotFound),
        };
        if rubric.is_active {
            return Err(ContractError::InvalidRubricConfig);
        }
        match criteria {
            Some(c) => {
                match validate_rubric_weights(&c) {
                    Err(e) => return Err(e),
                    Ok(()) => {},
                }
                rubric.criteria = c;
            },
            None => {},
        }
        match name {
            Some(n) => {
                rubric.name = n;
            },
            None => {},
        }
        let version = match rubric.version.checked_add(1) {
            Some(v) => v,
            None => return Err(ContractError::ArithmeticOverflow),
        };
        rubric.version = version;
        let ghost before = self@;
        self.rubrics.insert(rubric_id, rubric.clone());
        self.rubric_versions.insert((rubric_id, version), rubric.clone());
        proof {
            assert(self@.rubrics =~= before.rubrics.insert(rubric_id, rubric@));
            assert(self@.rubric_versions =~= before.rubric_versions.insert((rubric_id, version), rubric@));
        }
        Ok(rubric)
    }

    /// Makes a rubric usable for drafts; from then on it is immutable.
    pub fn activate_rubric(&mut self, admin: Bytes32, rubric_id: Bytes32, now: u64) -> (r: Result<(), ContractError>)
        requires
            old(self).wf(),
        ensures
            final(self).wf(),
            (r, final(self)@) == activate_rubric_spec(old(self)@, admin, rubric_id, now),
    {
        match self.require_admin(&admin) {
            Err(e) => return Err(e),
            Ok(()) => {},
        }
        let mut rubric = match self.rubrics.get(&rubric_id) {
            Some(r) => r.clone(),
            None => return Err(ContractError::RubricNotFound),
        };
        if rubric.is_active {
            return Ok(());
        }
        rubric.is_active = true;
        rubric.approved_at = Some(now);
        rubric.approved_by = Some(admin);
        let ghost before = self@;
        let ghost rv = rubric@;
        self.rubrics.insert(rubric_id, rubric);
        proof {
            assert(self@.rubrics =~= before.rubrics.insert(rubric_id, rv));
        }
        Ok(())
    }

    pub fn get_rubric(&self, rubric_id: Bytes32) -> (r: Result<ScoringRubric, ContractError>)
        requires
            self.wf(),
        ensures
            r matches Ok(x) ==> self@.rubrics.contains_key(rubric_id) && x@ == self@.rubrics[rubric_id],
            r matches Err(e) ==> !self@.rubrics.contains_key(rubric_id) && e == ContractError::RubricNotFound,
    {
        match self.rubrics.get(&rubric_id) {
            Some(r) => Ok(r.clone()),
            None => Err(ContractError::RubricNotFound),
        }
    }

    pub fn get_rubric_version(&self, rubric_id: Bytes32, version: u32) -> (r: Result<ScoringRubric, ContractError>)
        requires
            self.wf(),
        ensures
            r matches Ok(x) ==> self@.rubric_versions.contains_key((rubric_id, version)) && x@
                == self@.rubric_versions[(rubric_id, version)],
            r matches Err(e) ==> !self@.rubric_versions.contains_key((rubric_id, version)) && e
                == ContractError::RubricNotFound,
    {
        match self.rubric_versions.get(&(rubric_id, version)) {
            Some(r) => Ok(r.clone()),
            None => Err(ContractError::RubricNotFound),
        }
    }

    /// Saves (or overwrites) an assessor's private draft against an active
    /// rubric. Authorization is the assessor's own signature.
    pub fn save_draft(
        &mut self,
        reviewer: Bytes32,
        application_id: Bytes32,
        rubric_id: Bytes32,
        scores: Vec<ReviewScore>,
        is_complete: bool,
        now: u64,
    ) -> (r: Result<ReviewDraft, ContractError>)
        requires
            old(self).wf(),
        ensures
            final(self).wf(),
            final(self)@ == save_draft_spec(old(self)@, reviewer, application_id, rubric_id, scores@, is_complete, now).1,
            r matches Ok(x) ==> save_draft_spec(old(self)@, reviewer, application_id, rubric_id, scores@, is_complete, now).0
                == Ok::<DraftView, ContractError>(x@),
            r matches Err(e) ==> save_draft_spec(old(self)@, reviewer, application_id, rubric_id, scores@, is_complete, now).0
                == Err::<DraftView, ContractError>(e),
    {
        let rubric = match self.rubrics.get(&rubric_id) {
            Some(r) => r,
            None => return Err(ContractError::RubricNotFound),
        };
        if !rubric.is_active {
            return Err(ContractError::InvalidRubricConfig);
        }
        if !check_scores(&scores, &rubric.criteria) {
            return Err(ContractError::InvalidRubricConfig);
        }
        let draft = ReviewDraft {
            reviewer,
            application_id,
            rubric_id,
            rubric_version: rubric.version,
            scores,
            last_saved_at: now,
            is_complete,
        };
        let ghost before = self@;
        self.drafts.insert((reviewer, application_id), draft.clone());
        proof {
            assert(self@.drafts =~= before.drafts.insert((reviewer, application_id), draft@));
        }
        Ok(draft)
    }

    pub fn get_draft(&self, reviewer: Bytes32, application_id: Bytes32) -> (r: Result<ReviewDraft, ContractError>)
        requires
            self.wf(),
        ensures
            r matches Ok(x) ==> self@.drafts.contains_key((reviewer, application_id)) && x@ == self@.drafts[(
                reviewer,
                application_id,
            )],
            r matches Err(e) ==> !self@.drafts.contains_key((reviewer, application_id)) && e
                == ContractError::DraftNotFound,
    {
        match self.drafts.get(&(reviewer, application_id)) {
            Some(d) => Ok(d.clone()),
            None => Err(ContractError::DraftNotFound),
        }
    }

    /// Locks a complete draft in as a submitted review with its weighted
    /// total.
    pub fn submit_review(&mut self, env: &Env, reviewer: Bytes32, application_id: Bytes32, now: u64) -> (r: Result<
        Review,
        ContractError,
    >)
        requires
            old(self).wf(),
        ensures
            final(self).wf(),
            final(self)@ == submit_review_spec(old(self)@, reviewer, application_id, now).1,
            r matches Ok(x) ==> submit_review_spec(old(self)@, reviewer, application_id, now).0 == Ok::<
                ReviewView,
                ContractError,
            >(x@),
            r matches Err(e) ==> submit_review_spec(old(self)@, reviewer, application_id, now).0 == Err::<
                ReviewView,
                ContractError,
            >(e),
    {
        let draft = match self.drafts.get(&(reviewer, application_id)) {
            Some(d) => d.clone(),
            None => return Err(ContractError::DraftNotFound),
        };
        if !draft.is_complete {
            return Err(ContractError::InvalidRubricConfig);
        }
        if self.submitted.contains_key(&application_id) {
            return Err(ContractError::ReviewAlreadySubmitted);
        }
        let total = match self.rubrics.get(&draft.rubric_id) {
            Some(rubric) => compute_total_score(&draft.scores, &rubric.criteria),
            None => return Err(ContractError::RubricNotFound),
        };
        let total = match total {
            Ok(t) => t,
            Err(e) => return Err(e),
        };
        let id = self.next_id(env, now);
        let review = Review {
            id,
            application_id,
            reviewer,
            rubric_id: draft.rubric_id,
            rubric_version: draft.rubric_version,
            scores: draft.scores,
            total_score: total,
            status: ReviewStatus::Submitted,
            submitted_at: now,
            finalized_at: None,
            amendment_count: 0,
        };
        let ghost before = self@;
        self.reviews.insert(id, review.clone());
        self.submitted.insert(application_id, id);
        proof {
            assert(self@.reviews =~= before.reviews.insert(id, review@));
            assert forall|k: Bytes32| #[trigger] self@.reviews.contains_key(k) implies self@.submitted.contains_key(
                self@.reviews[k].application_id,
            ) by {
                if k != id {
                    assert(before.reviews.contains_key(k));
                }
            }
        }
        Ok(review)
    }

    /// Replaces a review's scores, recording the scores it replaced and the
    /// reason; a finalized review cannot be amended.
    pub fn amend_review(
        &mut self,
        env: &Env,
        reviewer: Bytes32,
        review_id: Bytes32,
        new_scores: Vec<ReviewScore>,
        reason: String,
        now: u64,
    ) -> (r: Result<(), ContractError>)
        requires
            old(self).wf(),
        ensures
            final(self).wf(),
            (r, final(self)@) == amend_review_spec(old(self)@, reviewer, review_id, new_scores@, reason, now),
    {
        let mut review = match self.reviews.get(&review_id) {
            Some(r) => r.clone(),
            None => return Err(ContractError::ReviewNotFound),
        };
        if !bytes32_eq(&review.reviewer, &reviewer) {
            return Err(ContractError::DraftOwnershipViolation);
        }
        match review.status {
            ReviewStatus::Finalized => return Err(ContractError::CannotAmendFinalized),
            _ => {},
        }
        let total = match self.rubrics.get(&review.rubric_id) {
            Some(rubric) => {
                if !check_scores(&new_scores, &rubric.criteria) {
                    return Err(ContractError::InvalidRubricConfig);
                }
                compute_total_score(&new_scores, &rubric.criteria)
            },
            None => return Err(ContractError::RubricNotFound),
        };
        let total = match total {
            Ok(t) => t,
            Err(e) => return Err(e),
        };
        let count = match review.amendment_count.checked_add(1) {
            Some(c) => c,
            None => return Err(ContractError::ArithmeticOverflow),
        };
        let id = self.next_id(env, now);
        let amendment = ReviewAmendment {
            id,
            review_id,
            amended_by: reviewer,
            previous_scores: review.scores,
            new_scores: clone_scores(&new_scores),
            reason,
            amended_at: now,
        };
        review = Review {
            scores: new_scores,
            total_score: total,
            status: ReviewStatus::Amended,
            amendment_count: count,
            ..review
        };
        let ghost before = self@;
        let ghost av = amendment@;
        let ghost rv = review@;
        self.amendments.insert(id, amendment);
        self.reviews.insert(review_id, review);
        proof {
            assert(self@.amendments =~= before.amendments.insert(id, av));
            assert(self@.reviews =~= before.reviews.insert(review_id, rv));
            assert(self@.reviews.dom() =~= old(self)@.reviews.dom());
            lemma_index_kept(old(self)@, self@);
        }
        Ok(())
    }

    /// Closes a review to amendment.
    pub fn finalize_review(&mut self, admin: Bytes32, review_id: Bytes32, now: u64) -> (r: Result<(), ContractError>)
        requires
            old(self).wf(),
        ensures
            final(self).wf(),
            (r, final(self)@) == finalize_review_spec(old(self)@, admin, review_id, now),
    {
        match self.require_admin(&admin) {
            Err(e) => return Err(e),
            Ok(()) => {},
        }
        let mut review = match self.reviews.get(&review_id) {
            Some(r) => r.clone(),
            None => return Err(ContractError::ReviewNotFound),
        };
        match review.status {
            ReviewStatus::Finalized => return Ok(()),
            _ => {},
        }
        review.status = ReviewStatus::Finalized;
        review.finalized_at = Some(now);
        let ghost before = self@;
        let ghost rv = review@;
        self.reviews.insert(review_id, review);
        proof {
            assert(self@.reviews =~= before.reviews.insert(review_id, rv));
            assert(self@.reviews.dom() =~= old(self)@.reviews.dom());
            lemma_index_kept(old(self)@, self@);
        }
        Ok(())
    }

    pub fn get_review(&self, review_id: Bytes32) -> (r: Result<Review, ContractError>)
        requires
            self.wf(),
        ensures
            r matches Ok(x) ==> self@.reviews.contains_key(review_id) && x@ == self@.reviews[review_id],
            r matches Err(e) ==> !self@.reviews.contains_key(review_id) && e == ContractError::ReviewNotFound,
    {
        match self.reviews.get(&review_id) {
            Some(r) => Ok(r.clone()),
            None => Err(ContractError::ReviewNotFound),
        }
    }

    /// Asks an applicant up to `MAX_QUESTIONS_PER_REQUEST` questions, to be
    /// answered before `deadline`.
    pub fn request_info(
        &mut self,
        env: &Env,
        reviewer: Bytes32,
        application_id: Bytes32,
        questions: Vec<String>,
        visible_fields: Vec<String>,
        deadline: u64,
        now: u64,
    ) -> (r: Result<InfoRequest, ContractError>)
        requires
            old(self).wf(),
        ensures
            final(self).wf(),
            final(self)@ == request_info_spec(
                old(self)@,
                reviewer,
                application_id,
                questions@,
                visible_fields@,
                deadline,
                now,
            ).1,
            r matches Ok(x) ==> request_info_spec(
                old(self)@,
                reviewer,
                application_id,
                questions@,
                visible_fields@,
                deadline,
                now,
            ).0 == Ok::<RequestView, ContractError>(x@),
            r matches Err(e) ==> request_info_spec(
                old(self)@,
                reviewer,
                application_id,
                questions@,
                visible_fields@,
                deadline,
                now,
            ).0 == Err::<RequestView, ContractError>(e),
    {
        if questions.len() > MAX_QUESTIONS_PER_REQUEST as usize {
            return Err(ContractError::QuestionLimitExceeded);
        }
        if deadline <= now {
            return Err(ContractError::DeadlinePassed);
        }
        let id = self.next_id(env, now);
        let request = InfoRequest {
            id,
            application_id,
            reviewer,
            questions,
            visible_fields,
            deadline,
            status: InfoRequestStatus::Pending,
            created_at: now,
            responded_at: None,
        };
        let ghost before = self@;
        self.requests.insert(id, request.clone());
        proof {
            assert(self@.requests =~= before.requests.insert(id, request@));
        }
        Ok(request)
    }

    /// Records an applicant's answers, one per question, before the
    /// deadline. Authorization is the applicant's own signature.
    pub fn respond_to_info_request(
        &mut self,
        env: &Env,
        applicant: Bytes32,
        request_id: Bytes32,
        responses: Vec<String>,
        now: u64,
    ) -> (r: Result<InfoResponse, ContractError>)
        requires
            old(self).wf(),
        ensures
            final(self).wf(),
            final(self)@ == respond_spec(old(self)@, applicant, request_id, responses@, now).1,
            r matches Ok(x) ==> respond_spec(old(self)@, applicant, request_id, responses@, now).0 == Ok::<
                ResponseView,
                ContractError,
            >(x@),
            r matches Err(e) ==> respond_spec(old(self)@, applicant, request_id, responses@, now).0 == Err::<
                ResponseView,
                ContractError,
            >(e),
    {
        let mut request = match self.requests.get(&request_id) {
            Some(r) => r.clone(),
            None => return Err(ContractError::InfoRequestNotFound),
        };
        match request.status {
            InfoRequestStatus::Pending => {},
            _ => return Err(ContractError::InvalidRubricConfig),
        }
        if now > request.deadline {
            return Err(ContractError::DeadlinePassed);
        }
        if responses.len() != request.questions.len() {
            return Err(ContractError::QuestionLimitExceeded);
        }
        let id = self.next_id(env, now);
        let response = InfoResponse { id, request_id, applicant, responses, version: 1, responded_at: now };
        request.status = InfoRequestStatus::Responded;
        request.responded_at = Some(now);
        let ghost before = self@;
        let ghost qv = request@;
        self.requests.insert(request_id, request);
        self.responses.insert(id, response.clone());
        proof {
            assert(self@.requests =~= before.requests.insert(request_id, qv));
            assert(self@.responses =~= before.responses.insert(id, response@));
        }
        Ok(response)
    }

    pub fn get_info_request(&self, request_id: Bytes32) -> (r: Result<InfoRequest, ContractError>)
        requires
            self.wf(),
        ensures
            r matches Ok(x) ==> self@.requests.contains_key(request_id) && x@ == self@.requests[request_id],
            r matches Err(e) ==> !self@.requests.contains_key(request_id) && e == ContractError::InfoRequestNotFound,
    {
        match self.requests.get(&request_id) {
            Some(r) => Ok(r.clone()),
            None => Err(ContractError::InfoRequestNotFound),
        }
    }

    pub fn get_info_response(&self, response_id: Bytes32) -> (r: Result<InfoResponse, ContractError>)
        requires
            self.wf(),
        ensures
            r matches Ok(x) ==> self@.responses.contains_key(response_id) && x@ == self@.responses[response_id],
            r matches Err(e) ==> !self@.responses.contains_key(response_id) && e == ContractError::ResponseNotFound,
    {
        match self.responses.get(&response_id) {
            Some(r) => Ok(r.clone()),
            None => Err(ContractError::ResponseNotFound),
        }
    }

    pub fn version() -> (v: u32)
        ensures
            v == CONTRACT_VERSION,
    {
        CONTRACT_VERSION
    }
}

/// An active rubric is immutable: an update is refused and changes nothing.
pub proof fn lemma_active_rubric_is_immutable(
    s: WorkflowState,
    admin: Bytes32,
    rubric_id: Bytes32,
    name: Option<String>,
    criteria: Option<Seq<RubricCriterion>>,
)
    requires
        admin_gate(s, admin) is Ok,
        s.rubrics.contains_key(rubric_id),
        s.rubrics[rubric_id].is_active,
    ensures
        update_rubric_spec(s, admin, rubric_id, name, criteria) == (
            Err::<RubricView, ContractError>(ContractError::InvalidRubricConfig),
            s,
        ),
{
}

/// An update writes one new version and leaves every version stored
/// before it as it was.
pub proof fn lemma_update_keeps_earlier_versions(
    s: WorkflowState,
    admin: Bytes32,
    rubric_id: Bytes32,
    name: Option<String>,
    criteria: Option<Seq<RubricCriterion>>,
    key: (Bytes32, u32),
)
    requires
        update_rubric_spec(s, admin, rubric_id, name, criteria).0 is Ok,
        key.0 != rubric_id || key.1 <= s.rubrics[rubric_id].version,
    ensures
        update_rubric_spec(s, admin, rubric_id, name, criteria).1.rubric_versions.contains_key(key)
            == s.rubric_versions.contains_key(key),
        update_rubric_spec(s, admin, rubric_id, name, criteria).1.rubric_versions[key] == s.rubric_versions[key],
        update_rubric_spec(s, admin, rubric_id, name, criteria).0->Ok_0.version == s.rubrics[rubric_id].version + 1,
{
}

/// Once finalized, a review refuses every amendment and stays as it is.
pub proof fn lemma_finalized_review_is_locked(
    s: WorkflowState,
    admin: Bytes32,
    review_id: Bytes32,
    now: u64,
    reviewer: Bytes32,
    new_scores: Seq<ReviewScore>,
    reason: String,
    later: u64,
)
    requires
        finalize_review_spec(s, admin, review_id, now).0 is Ok,
    ensures
        ({
            let t = finalize_review_spec(s, admin, review_id, now).1;
            let (r, u) = amend_review_spec(t, reviewer, review_id, new_scores, reason, later);
            r is Err && u == t && t.reviews[review_id].status is Finalized
        }),
{
}

/// An amendment keeps an audit record of the scores it replaced and the
/// ones it wrote, and counts itself on the review.
pub proof fn lemma_amendment_is_auditable(
    s: WorkflowState,
    reviewer: Bytes32,
    review_id: Bytes32,
    new_scores: Seq<ReviewScore>,
    reason: String,
    now: u64,
)
    requires
        amend_review_spec(s, reviewer, review_id, new_scores, reason, now).0 is Ok,
    ensures
        ({
            let t = amend_review_spec(s, reviewer, review_id, new_scores, reason, now).1;
            let id = next_id_of(s, now);
            &&& t.amendments.contains_key(id)
            &&& t.amendments[id].previous_scores == s.reviews[review_id].scores
            &&& t.amendments[id].new_scores == new_scores
            &&& t.amendments[id].review_id == review_id
            &&& t.reviews[review_id].scores == new_scores
            &&& t.reviews[review_id].amendment_count == s.reviews[review_id].amendment_count + 1
            &&& t.reviews[review_id].status is Amended
        }),
{
}

/// Drafts are private: saving one never touches a submitted review or a
/// rubric.
pub proof fn lemma_drafts_do_not_affect_decisions(
    s: WorkflowState,
    reviewer: Bytes32,
    application_id: Bytes32,
    rubric_id: Bytes32,
    scores: Seq<ReviewScore>,
    is_complete: bool,
    now: u64,
)
    ensures
        save_draft_spec(s, reviewer, application_id, rubric_id, scores, is_complete, now).1.reviews == s.reviews,
        save_draft_spec(s, reviewer, application_id, rubric_id, scores, is_complete, now).1.rubrics == s.rubrics,
{
}

/// A full score on a criterion earns exactly the criterion's weight.
pub proof fn lemma_full_marks_earn_full_weight(c: RubricCriterion)
    requires
        0 < scale_top(c.scale) <= i32::MAX,
        scale_top(c.scale) * c.weight <= u32::MAX,
    ensures
        weighted_score(scale_top(c.scale) as i32, c) == Some(c.weight),
{
    let top = scale_top(c.scale);
    assert((top as i32) as u32 == top);
    assert((top * c.weight) / (top as int) == c.weight) by (nonlinear_arith)
        requires
            top > 0,
    ;
}

/// A submitted review is locked: once a submission for an application has
/// succeeded, every later submission for that application, whoever
/// submits it, is refused and changes nothing; with a complete draft in
/// hand the refusal is `ReviewAlreadySubmitted`.
pub proof fn lemma_a_submitted_review_is_locked(
    s: WorkflowState,
    reviewer: Bytes32,
    application_id: Bytes32,
    now: u64,
    other: Bytes32,
    later: u64,
)
    requires
        submit_review_spec(s, reviewer, application_id, now).0 is Ok,
    ensures
        ({
            let t = submit_review_spec(s, reviewer, application_id, now).1;
            let (r, u) = submit_review_spec(t, other, application_id, later);
            &&& r is Err
            &&& u == t
            &&& t.drafts.contains_key((other, application_id)) && t.drafts[(other, application_id)].is_complete
                ==> r == Err::<ReviewView, ContractError>(ContractError::ReviewAlreadySubmitted)
        }),
{
}

/// On well-formed storage, an application that already has a stored review
/// is refused a new one whenever the submitting draft is complete.
pub proof fn lemma_reviewed_applications_take_no_new_review(
    s: WorkflowState,
    reviewer: Bytes32,
    application_id: Bytes32,
    now: u64,
    k: Bytes32,
)
    requires
        reviews_are_indexed(s),
        s.reviews.contains_key(k),
        s.reviews[k].application_id == application_id,
        s.drafts.contains_key((reviewer, application_id)),
        s.drafts[(reviewer, application_id)].is_complete,
    ensures
        submit_review_spec(s, reviewer, application_id, now) == (
            Err::<ReviewView, ContractError>(ContractError::ReviewAlreadySubmitted),
            s,
        ),
{
}

/// Every operation keeps each stored review's application on record.
pub proof fn lemma_wf_indexes_reviews(c: &ScholarshipReviewWorkflowContract)
    requires
        c.wf(),
    ensures
        reviews_are_indexed(c@),
{
}

} // verus!
