//! Review aggregation: several numeric reviews of one application combine
//! into one reproducible, rubric-weighted aggregate, with an explicit tie
//! policy for comparing two applicants.
//!
//! Integer-only rounding, floors at every step:
//! 1. a criterion score `s` out of `max_score` is normalized to basis points
//!    of that maximum, `s * 10_000 / max_score`;
//! 2. a review's total is `sum(normalized_i * weight_i) / 10_000`;
//! 3. the aggregate is `sum(review_totals) / review_count`.
//! Totals and aggregates lie in `0..=10_000`. A published rubric version is
//! immutable; each review is tied to the version it was scored against, and
//! reviews scored against different versions are never combined. No
//! aggregate exists until the program's minimum number of reviews is in.
use vstd::prelude::*;
use crate::table::{Bytes32, Table, bytes32_eq};

verus! {

pub const CONTRACT_VERSION: u32 = 1;

/// Basis-point denominator for weights and normalized scores.
pub const BPS_DENOMINATOR: u64 = 10_000;

/// The most criteria a rubric may define.
pub const MAX_CRITERIA: u32 = 12;

/// The largest maximum score a criterion may declare.
pub const MAX_CRITERION_SCORE: u32 = 1_000;

/// The most reviews one application may receive.
pub const MAX_REVIEWERS: u32 = 32;

#[derive(Copy, Clone, Debug, PartialEq, Eq, Structural)]
pub enum ContractError {
    NotInitialized,
    AlreadyInitialized,
    NotAdmin,
    ProgramNotFound,
    ProgramAlreadyExists,
    ProgramInactive,
    /// `min_reviews` must be at least one, and `max_reviews` between it and
    /// `MAX_REVIEWERS`.
    InvalidReviewConfig,
    /// A rubric needs `1..=MAX_CRITERIA` criteria, each with a maximum in
    /// `1..=MAX_CRITERION_SCORE`, and weights totalling exactly 10 000.
    InvalidRubric,
    NoRubricPublished,
    RubricNotFound,
    /// One review per reviewing account per application.
    ReviewAlreadyExists,
    /// The application already has its program's maximum of reviews.
    ReviewerCapacityExceeded,
    /// Scores must match the rubric's criteria one for one, each within its
    /// criterion's maximum.
    InvalidScores,
    /// Fewer than the program's `min_reviews` have been recorded.
    InsufficientReviews,
    ReviewNotFound,
    VersionOverflow,
    ArithmeticOverflow,
    /// The application's reviews were scored against different rubric
    /// versions.
    MixedRubricVersions,
}

impl ContractError {
    /// The stable numeric code a client sees.
    pub fn code(self) -> (c: u32)
        ensures
            c == match self {
                ContractError::NotInitialized => 1u32,
                ContractError::AlreadyInitialized => 2u32,
                ContractError::NotAdmin => 3u32,
                ContractError::ProgramNotFound => 4u32,
                ContractError::ProgramAlreadyExists => 5u32,
                ContractError::ProgramInactive => 6u32,
                ContractError::InvalidReviewConfig => 7u32,
                ContractError::InvalidRubric => 8u32,
                ContractError::NoRubricPublished => 9u32,
                ContractError::RubricNotFound => 10u32,
                ContractError::ReviewAlreadyExists => 11u32,
                ContractError::ReviewerCapacityExceeded => 12u32,
                ContractError::InvalidScores => 13u32,
                ContractError::InsufficientReviews => 14u32,
                ContractError::ReviewNotFound => 15u32,
                ContractError::VersionOverflow => 16u32,
                ContractError::ArithmeticOverflow => 17u32,
                ContractError::MixedRubricVersions => 18u32,
            },
    {
        match self {
            ContractError::NotInitialized => 1,
            ContractError::AlreadyInitialized => 2,
            ContractError::NotAdmin => 3,
            ContractError::ProgramNotFound => 4,
            ContractError::ProgramAlreadyExists => 5,
            ContractError::ProgramInactive => 6,
            ContractError::InvalidReviewConfig => 7,
            ContractError::InvalidRubric => 8,
            ContractError::NoRubricPublished => 9,
            ContractError::RubricNotFound => 10,
            ContractError::ReviewAlreadyExists => 11,
            ContractError::ReviewerCapacityExceeded => 12,
            ContractError::InvalidScores => 13,
            ContractError::InsufficientReviews => 14,
            ContractError::ReviewNotFound => 15,
            ContractError::VersionOverflow => 16,
            ContractError::ArithmeticOverflow => 17,
            ContractError::MixedRubricVersions => 18,
        }
    }
}

/// One weighted criterion; `weight_bps` is in basis points.
#[derive(Copy, Clone, Debug, PartialEq, Eq, Structural)]
pub struct Criterion {
    pub weight_bps: u32,
    pub max_score: u32,
}

/// A published rubric version.
#[derive(Debug, PartialEq, Eq)]
pub struct Rubric {
    pub version: u32,
    pub criteria: Vec<Criterion>,
    pub published_at: u64,
}

pub struct RubricView {
    pub version: u32,
    pub criteria: Seq<Criterion>,
    pub published_at: u64,
}

impl Rubric {
    pub open spec fn view(&self) -> RubricView {
        RubricView { version: self.version, criteria: self.criteria@, published_at: self.published_at }
    }
}

fn clone_criteria(v: &Vec<Criterion>) -> (r: Vec<Criterion>)
    ensures
        r@ == v@,
{
    let r = v.clone();
    proof {
        assert(r@ =~= v@);
    }
    r
}

impl Clone for Rubric {
    fn clone(&self) -> (r: Self)
        ensures
            r@ == self@,
    {
        Rubric { version: self.version, criteria: clone_criteria(&self.criteria), published_at: self.published_at }
    }
}

/// A program's review policy.
#[derive(Copy, Clone, Debug, PartialEq, Eq, Structural)]
pub struct ProgramConfig {
    pub active: bool,
    pub min_reviews: u32,
    pub max_reviews: u32,
}

/// One numeric review of one applicant.
#[derive(Debug, PartialEq, Eq)]
pub struct Review {
    pub program_id: Bytes32,
    pub applicant: Bytes32,
    pub reviewer: Bytes32,
    pub rubric_version: u32,
    pub scores: Vec<u32>,
    pub submitted_at: u64,
}

pub struct ReviewView {
    pub program_id: Bytes32,
    pub applicant: Bytes32,
    pub reviewer: Bytes32,
    pub rubric_version: u32,
    pub scores: Seq<u32>,
    pub submitted_at: u64,
}

impl Review {
    pub open spec fn view(&self) -> ReviewView {
        ReviewView {
            program_id: self.program_id,
            applicant: self.applicant,
            reviewer: self.reviewer,
            rubric_version: self.rubric_version,
            scores: self.scores@,
            submitted_at: self.submitted_at,
        }
    }
}

fn clone_scores(v: &Vec<u32>) -> (r: Vec<u32>)
    ensures
        r@ == v@,
{
    let r = v.clone();
    proof {
        assert(r@ =~= v@);
    }
    r
}

fn clone_ids(v: &Vec<Bytes32>) -> (r: Vec<Bytes32>)
    ensures
        r@ == v@,
{
    let mut r: Vec<Bytes32> = Vec::new();
    let mut i: usize = 0;
    while i < v.len()
        invariant
            i <= v@.len(),
            r@ == v@.take(i as int),
        decreases v@.len() - i,
    {
        r.push(v[i]);
        proof {
            assert(r@ =~= v@.take(i + 1));
        }
        i = i + 1;
    }
    proof {
        assert(v@.take(v@.len() as int) =~= v@);
    }
    r
}

impl Clone for Review {
    fn clone(&self) -> (r: Self)
        ensures
            r@ == self@,
    {
        Review {
            program_id: self.program_id,
            applicant: self.applicant,
            reviewer: self.reviewer,
            rubric_version: self.rubric_version,
            scores: clone_scores(&self.scores),
            submitted_at: self.submitted_at,
        }
    }
}

/// The tie policy's verdict on two applicants.
#[derive(Copy, Clone, Debug, PartialEq, Eq, Structural)]
pub enum CompareOutcome {
    ABetter,
    BBetter,
    Tie,
}

// ── Rubric arithmetic ──────────────────────────────────────────────────────

/// The weights of the first `n` criteria.
pub open spec fn weight_prefix(criteria: Seq<Criterion>, n: int) -> int
    decreases n,
{
    if n <= 0 {
        0
    } else {
        weight_prefix(criteria, n - 1) + criteria[n - 1].weight_bps
    }
}

/// A rubric that may be published.
pub open spec fn rubric_valid(criteria: Seq<Criterion>) -> bool {
    &&& 1 <= criteria.len() <= MAX_CRITERIA
    &&& forall|i: int| 0 <= i < criteria.len() ==> 1 <= #[trigger] criteria[i].max_score <= MAX_CRITERION_SCORE
    &&& weight_prefix(criteria, criteria.len() as int) == BPS_DENOMINATOR
}

/// A criterion score in basis points of the criterion's maximum.
pub open spec fn normalized(score: u32, c: Criterion) -> int {
    (score * 10_000) / (c.max_score as int)
}

/// The weighted sum over the first `n` criteria.
pub open spec fn weighted_sum(criteria: Seq<Criterion>, scores: Seq<u32>, n: int) -> int
    decreases n,
{
    if n <= 0 {
        0
    } else {
        weighted_sum(criteria, scores, n - 1) + normalized(scores[n - 1], criteria[n - 1]) * criteria[n - 1].weight_bps
    }
}

/// Each score lies within its criterion's maximum.
pub open spec fn scores_fit(criteria: Seq<Criterion>, scores: Seq<u32>) -> bool {
    forall|i: int| 0 <= i < scores.len() ==> #[trigger] scores[i] <= criteria[i].max_score
}

/// A review's weighted total against a rubric's criteria.
pub open spec fn weighted_total_of(criteria: Seq<Criterion>, scores: Seq<u32>) -> Result<u32, ContractError> {
    if scores.len() != criteria.len() {
        Err(ContractError::InvalidScores)
    } else if !scores_fit(criteria, scores) {
        Err(ContractError::InvalidScores)
    } else {
        Ok((weighted_sum(criteria, scores, criteria.len() as int) / 10_000) as u32)
    }
}

proof fn lemma_term_bounds(score: u32, c: Criterion)
    requires
        1 <= c.max_score,
        score <= c.max_score,
    ensures
        0 <= normalized(score, c) <= 10_000,
        0 <= normalized(score, c) * c.weight_bps <= 10_000 * c.weight_bps,
        score == c.max_score ==> normalized(score, c) == 10_000,
{
    let m = c.max_score as int;
    let s = score as int;
    assert(0 <= (s * 10_000) / m <= 10_000) by (nonlinear_arith)
        requires
            1 <= m,
            0 <= s <= m,
    ;
    assert(s == m ==> (s * 10_000) / m == 10_000) by (nonlinear_arith)
        requires
            1 <= m,
    ;
    let n = (s * 10_000) / m;
    let w = c.weight_bps as int;
    assert(0 <= n * w <= 10_000 * w) by (nonlinear_arith)
        requires
            0 <= n <= 10_000,
            0 <= w,
    ;
}

proof fn lemma_prefix_nonneg(criteria: Seq<Criterion>, n: int)
    requires
        0 <= n <= criteria.len(),
    ensures
        0 <= weight_prefix(criteria, n),
    decreases n,
{
    if n > 0 {
        lemma_prefix_nonneg(criteria, n - 1);
    }
}

proof fn lemma_prefix_monotone(criteria: Seq<Criterion>, a: int, b: int)
    requires
        0 <= a <= b <= criteria.len(),
    ensures
        0 <= weight_prefix(criteria, a) <= weight_prefix(criteria, b),
    decreases b - a,
{
    if a < b {
        lemma_prefix_monotone(criteria, a, b - 1);
    } else {
        lemma_prefix_nonneg(criteria, a);
    }
}

proof fn lemma_sum_bounds(criteria: Seq<Criterion>, scores: Seq<u32>, n: int)
    requires
        0 <= n <= criteria.len(),
        n <= scores.len(),
        forall|i: int| 0 <= i < criteria.len() ==> 1 <= #[trigger] criteria[i].max_score,
        forall|i: int| 0 <= i < n ==> #[trigger] scores[i] <= criteria[i].max_score,
    ensures
        0 <= weighted_sum(criteria, scores, n) <= 10_000 * weight_prefix(criteria, n),
    decreases n,
{
    if n > 0 {
        lemma_sum_bounds(criteria, scores, n - 1);
        lemma_term_bounds(scores[n - 1], criteria[n - 1]);
    }
}

/// A full score on every criterion of a valid rubric totals exactly 10 000.
proof fn lemma_full_sum(criteria: Seq<Criterion>, scores: Seq<u32>, n: int)
    requires
        0 <= n <= criteria.len(),
        n <= scores.len(),
        forall|i: int| 0 <= i < criteria.len() ==> 1 <= #[trigger] criteria[i].max_score,
        forall|i: int| 0 <= i < n ==> #[trigger] scores[i] == criteria[i].max_score,
    ensures
        weighted_sum(criteria, scores, n) == 10_000 * weight_prefix(criteria, n),
    decreases n,
{
    if n > 0 {
        lemma_full_sum(criteria, scores, n - 1);
        lemma_term_bounds(scores[n - 1], criteria[n - 1]);
    }
}

/// A review of a valid rubric totals at most 10 000, and exactly 10 000
/// when every score is the criterion's maximum.
pub proof fn lemma_total_in_range(criteria: Seq<Criterion>, scores: Seq<u32>)
    requires
        rubric_valid(criteria),
    ensures
        weighted_total_of(criteria, scores) matches Ok(t) ==> t <= 10_000,
        scores.len() == criteria.len() && (forall|i: int| 0 <= i < scores.len() ==> #[trigger] scores[i]
            == criteria[i].max_score) ==> weighted_total_of(criteria, scores) == Ok::<u32, ContractError>(10_000),
{
    if scores.len() == criteria.len() && scores_fit(criteria, scores) {
        lemma_sum_bounds(criteria, scores, criteria.len() as int);
    }
    if scores.len() == criteria.len() && (forall|i: int| 0 <= i < scores.len() ==> #[trigger] scores[i]
        == criteria[i].max_score) {
        lemma_full_sum(criteria, scores, criteria.len() as int);
        assert(scores_fit(criteria, scores));
    }
}

fn validate_rubric(criteria: &Vec<Criterion>) -> (r: Result<(), ContractError>)
    ensures
        r is Ok <==> rubric_valid(criteria@),
        r is Err ==> r == Err::<(), ContractError>(ContractError::InvalidRubric),
{
    let count = criteria.len();
    if count == 0 || count > MAX_CRITERIA as usize {
        return Err(ContractError::InvalidRubric);
    }
    let mut total: u64 = 0;
    let mut i: usize = 0;
    while i < count
        invariant
            count == criteria@.len(),
            1 <= count <= MAX_CRITERIA,
            i <= count,
            total == weight_prefix(criteria@, i as int),
            total <= i * (u32::MAX as int),
            forall|k: int| 0 <= k < i ==> 1 <= #[trigger] criteria@[k].max_score <= MAX_CRITERION_SCORE,
        decreases count - i,
    {
        let c = criteria[i];
        if c.max_score == 0 || c.max_score > MAX_CRITERION_SCORE {
            return Err(ContractError::InvalidRubric);
        }
        total = total + c.weight_bps as u64;
        i = i + 1;
    }
    if total != BPS_DENOMINATOR {
        return Err(ContractError::InvalidRubric);
    }
    Ok(())
}

/// The weighted total of one review's scores against a valid rubric.
pub fn weighted_total(rubric: &Rubric, scores: &Vec<u32>) -> (r: Result<u32, ContractError>)
    requires
        rubric_valid(rubric.criteria@),
    ensures
        r == weighted_total_of(rubric.criteria@, scores@),
        r matches Ok(t) ==> t <= 10_000,
{
    proof {
        lemma_total_in_range(rubric.criteria@, scores@);
    }
    let count = rubric.criteria.len();
    if scores.len() != count {
        return Err(ContractError::InvalidScores);
    }
    let mut acc: u64 = 0;
    let mut i: usize = 0;
    while i < count
        invariant
            count == rubric.criteria@.len(),
            count == scores@.len(),
            rubric_valid(rubric.criteria@),
            i <= count,
            acc == weighted_sum(rubric.criteria@, scores@, i as int),
            acc <= 10_000 * weight_prefix(rubric.criteria@, i as int),
            forall|k: int| 0 <= k < i ==> #[trigger] scores@[k] <= rubric.criteria@[k].max_score,
        decreases count - i,
    {
        let c = rubric.criteria[i];
        let score = scores[i];
        if score > c.max_score {
            return Err(ContractError::InvalidScores);
        }
        proof {
            lemma_term_bounds(score, c);
            lemma_prefix_monotone(rubric.criteria@, i + 1, count as int);
        }
        let norm: u64 = (score as u64) * BPS_DENOMINATOR / (c.max_score as u64);
        let weighted: u64 = norm * (c.weight_bps as u64);
        acc = acc + weighted;
        i = i + 1;
    }
    Ok((acc / BPS_DENOMINATOR) as u32)
}

// ── Contract state ─────────────────────────────────────────────────────────

/// The abstract storage of the aggregation contract.
pub struct ReviewsState {
    pub admin: Option<Bytes32>,
    pub configs: Map<Bytes32, ProgramConfig>,
    pub latest: Map<Bytes32, u32>,
    pub rubrics: Map<(Bytes32, u32), RubricView>,
    pub reviews: Map<(Bytes32, Bytes32, Bytes32), ReviewView>,
    pub reviewers: Map<(Bytes32, Bytes32), Seq<Bytes32>>,
}

pub open spec fn admin_gate(s: ReviewsState, caller: Bytes32) -> Result<(), ContractError> {
    match s.admin {
        None => Err(ContractError::NotInitialized),
        Some(a) => if a == caller {
            Ok(())
        } else {
            Err(ContractError::NotAdmin)
        },
    }
}

/// The reviewing accounts an application has, in submission order.
pub open spec fn reviewers_of(s: ReviewsState, program_id: Bytes32, applicant: Bytes32) -> Seq<Bytes32> {
    if s.reviewers.contains_key((program_id, applicant)) {
        s.reviewers[(program_id, applicant)]
    } else {
        Seq::empty()
    }
}

pub open spec fn register_program_spec(
    s: ReviewsState,
    admin: Bytes32,
    program_id: Bytes32,
    min_reviews: u32,
    max_reviews: u32,
) -> (Result<(), ContractError>, ReviewsState) {
    if admin_gate(s, admin) is Err {
        (Err(admin_gate(s, admin)->Err_0), s)
    } else if min_reviews == 0 || max_reviews < min_reviews || max_reviews > MAX_REVIEWERS {
        (Err(ContractError::InvalidReviewConfig), s)
    } else if s.configs.contains_key(program_id) {
        (Err(ContractError::ProgramAlreadyExists), s)
    } else {
        let config = ProgramConfig { active: true, min_reviews, max_reviews };
        (Ok(()), ReviewsState { configs: s.configs.insert(program_id, config), ..s })
    }
}

pub open spec fn set_program_active_spec(s: ReviewsState, admin: Bytes32, program_id: Bytes32, active: bool) -> (
    Result<(), ContractError>,
    ReviewsState,
) {
    if admin_gate(s, admin) is Err {
        (Err(admin_gate(s, admin)->Err_0), s)
    } else if !s.configs.contains_key(program_id) {
        (Err(ContractError::ProgramNotFound), s)
    } else {
        let config = ProgramConfig { active, ..s.configs[program_id] };
        (Ok(()), ReviewsState { configs: s.configs.insert(program_id, config), ..s })
    }
}

pub open spec fn publish_rubric_spec(
    s: ReviewsState,
    admin: Bytes32,
    program_id: Bytes32,
    criteria: Seq<Criterion>,
    now: u64,
) -> (Result<u32, ContractError>, ReviewsState) {
    let current: int = if s.latest.contains_key(program_id) {
        s.latest[program_id] as int
    } else {
        0
    };
    if admin_gate(s, admin) is Err {
        (Err(admin_gate(s, admin)->Err_0), s)
    } else if !s.configs.contains_key(program_id) {
        (Err(ContractError::ProgramNotFound), s)
    } else if !rubric_valid(criteria) {
        (Err(ContractError::InvalidRubric), s)
    } else if current == u32::MAX {
        (Err(ContractError::VersionOverflow), s)
    } else {
        let version = (current + 1) as u32;
        let rubric = RubricView { version, criteria, published_at: now };
        (
            Ok(version),
            ReviewsState {
                rubrics: s.rubrics.insert((program_id, version), rubric),
                latest: s.latest.insert(program_id, version),
                ..s
            },
        )
    }
}

pub open spec fn submit_review_spec(
    s: ReviewsState,
    reviewer: Bytes32,
    program_id: Bytes32,
    applicant: Bytes32,
    scores: Seq<u32>,
    now: u64,
) -> (Result<u32, ContractError>, ReviewsState) {
    if !s.configs.contains_key(program_id) {
        (Err(ContractError::ProgramNotFound), s)
    } else if !s.configs[program_id].active {
        (Err(ContractError::ProgramInactive), s)
    } else if !s.latest.contains_key(program_id) {
        (Err(ContractError::NoRubricPublished), s)
    } else if !s.rubrics.contains_key((program_id, s.latest[program_id])) {
        (Err(ContractError::RubricNotFound), s)
    } else if s.reviews.contains_key((program_id, applicant, reviewer)) {
        (Err(ContractError::ReviewAlreadyExists), s)
    } else if reviewers_of(s, program_id, applicant).len() >= s.configs[program_id].max_reviews {
        (Err(ContractError::ReviewerCapacityExceeded), s)
    } else {
        let rubric = s.rubrics[(program_id, s.latest[program_id])];
        match weighted_total_of(rubric.criteria, scores) {
            Err(e) => (Err(e), s),
            Ok(total) => {
                let review = ReviewView {
                    program_id,
                    applicant,
                    reviewer,
                    rubric_version: rubric.version,
                    scores,
                    submitted_at: now,
                };
                (
                    Ok(total),
                    ReviewsState {
                        reviews: s.reviews.insert((program_id, applicant, reviewer), review),
                        reviewers: s.reviewers.insert(
                            (program_id, applicant),
                            reviewers_of(s, program_id, applicant).push(reviewer),
                        ),
                        ..s
                    },
                )
            },
        }
    }
}

/// The sum of the totals of the first `n` listed reviews, all of which
/// must be stored and scored against `version`.
pub open spec fn totals_sum(
    s: ReviewsState,
    program_id: Bytes32,
    applicant: Bytes32,
    version: u32,
    criteria: Seq<Criterion>,
    list: Seq<Bytes32>,
    n: int,
) -> Result<int, ContractError>
    decreases n,
{
    if n <= 0 {
        Ok(0)
    } else {
        match totals_sum(s, program_id, applicant, version, criteria, list, n - 1) {
            Err(e) => Err(e),
            Ok(t) => {
                let key = (program_id, applicant, list[n - 1]);
                if !s.reviews.contains_key(key) {
                    Err(ContractError::ReviewNotFound)
                } else if s.reviews[key].rubric_version != version {
                    Err(ContractError::MixedRubricVersions)
                } else {
                    match weighted_total_of(criteria, s.reviews[key].scores) {
                        Err(e) => Err(e),
                        Ok(w) => Ok(t + w),
                    }
                }
            },
        }
    }
}

/// The normalized aggregate score of an application.
pub open spec fn aggregate_of(s: ReviewsState, program_id: Bytes32, applicant: Bytes32) -> Result<u32, ContractError> {
    let list = reviewers_of(s, program_id, applicant);
    if !s.configs.contains_key(program_id) {
        Err(ContractError::ProgramNotFound)
    } else if list.len() < s.configs[program_id].min_reviews {
        Err(ContractError::InsufficientReviews)
    } else if list.len() == 0 || !s.reviews.contains_key((program_id, applicant, list[0])) {
        Err(ContractError::ReviewNotFound)
    } else {
        let version = s.reviews[(program_id, applicant, list[0])].rubric_version;
        if !s.rubrics.contains_key((program_id, version)) {
            Err(ContractError::RubricNotFound)
        } else {
            match totals_sum(s, program_id, applicant, version, s.rubrics[(program_id, version)].criteria, list, list.len() as int) {
                Err(e) => Err(e),
                Ok(t) => Ok((t / (list.len() as int)) as u32),
            }
        }
    }
}

/// The earliest submission time among the first `n` listed reviews.
pub open spec fn earliest_of(s: ReviewsState, program_id: Bytes32, applicant: Bytes32, list: Seq<Bytes32>, n: int) -> Result<
    Option<u64>,
    ContractError,
>
    decreases n,
{
    if n <= 0 {
        Ok(None)
    } else {
        match earliest_of(s, program_id, applicant, list, n - 1) {
            Err(e) => Err(e),
            Ok(e) => {
                let key = (program_id, applicant, list[n - 1]);
                if !s.reviews.contains_key(key) {
                    Err(ContractError::ReviewNotFound)
                } else {
                    let t = s.reviews[key].submitted_at;
                    match e {
                        None => Ok(Some(t)),
                        Some(cur) => Ok(Some(if t < cur { t } else { cur })),
                    }
                }
            },
        }
    }
}

/// The tie-break input: when an application's first review came in.
pub open spec fn first_review_time_of(s: ReviewsState, program_id: Bytes32, applicant: Bytes32) -> Result<u64, ContractError> {
    let list = reviewers_of(s, program_id, applicant);
    match earliest_of(s, program_id, applicant, list, list.len() as int) {
        Err(e) => Err(e),
        Ok(None) => Err(ContractError::InsufficientReviews),
        Ok(Some(t)) => Ok(t),
    }
}

/// The tie policy: higher aggregate first, then the earlier first review,
/// else a tie.
pub open spec fn compare_of(s: ReviewsState, program_id: Bytes32, a: Bytes32, b: Bytes32) -> Result<CompareOutcome, ContractError> {
    match aggregate_of(s, program_id, a) {
        Err(e) => Err(e),
        Ok(sa) => match aggregate_of(s, program_id, b) {
            Err(e) => Err(e),
            Ok(sb) => if sa > sb {
                Ok(CompareOutcome::ABetter)
            } else if sb > sa {
                Ok(CompareOutcome::BBetter)
            } else {
                match first_review_time_of(s, program_id, a) {
                    Err(e) => Err(e),
                    Ok(ta) => match first_review_time_of(s, program_id, b) {
                        Err(e) => Err(e),
                        Ok(tb) => if ta < tb {
                            Ok(CompareOutcome::ABetter)
                        } else if tb < ta {
                            Ok(CompareOutcome::BBetter)
                        } else {
                            Ok(CompareOutcome::Tie)
                        },
                    },
                }
            },
        },
    }
}

/// Published rubrics sit under their own version, no later than the
/// program's latest; every stored review was scored validly against the
/// published rubric of its version; every account listed for an
/// application has a stored review.
pub open spec fn reviews_consistent(s: ReviewsState) -> bool {
    &&& forall|k: (Bytes32, u32)| #[trigger]
        s.rubrics.contains_key(k) ==> s.latest.contains_key(k.0) && 1 <= k.1 <= s.latest[k.0]
            && s.rubrics[k].version == k.1 && rubric_valid(s.rubrics[k].criteria)
    &&& forall|k: (Bytes32, Bytes32, Bytes32)| #[trigger]
        s.reviews.contains_key(k) ==> s.rubrics.contains_key((k.0, s.reviews[k].rubric_version)) && weighted_total_of(
            s.rubrics[(k.0, s.reviews[k].rubric_version)].criteria,
            s.reviews[k].scores,
        ) is Ok
    &&& forall|k: (Bytes32, Bytes32), i: int|
        s.reviewers.contains_key(k) && 0 <= i < s.reviewers[k].len() ==> s.reviews.contains_key(
            (k.0, k.1, #[trigger] s.reviewers[k][i]),
        )
}

/// The aggregation contract's storage.
pub struct ScholarshipReviewsContract {
    admin: Option<Bytes32>,
    configs: Table<Bytes32, ProgramConfig>,
    latest: Table<Bytes32, u32>,
    rubrics: Table<(Bytes32, u32), Rubric>,
    reviews: Table<(Bytes32, Bytes32, Bytes32), Review>,
    reviewers: Table<(Bytes32, Bytes32), Vec<Bytes32>>,
}

impl ScholarshipReviewsContract {
    /// Every published rubric is valid, every program's bounds are sane, and
    /// no application lists more than `MAX_REVIEWERS` reviews.
    pub closed spec fn wf(&self) -> bool {
        &&& self.configs.wf()
        &&& self.latest.wf()
        &&& self.rubrics.wf()
        &&& self.reviews.wf()
        &&& self.reviewers.wf()
        &&& forall|k: (Bytes32, u32)| #[trigger] self@.rubrics.contains_key(k) ==> rubric_valid(
            self@.rubrics[k].criteria,
        )
        &&& forall|k: Bytes32| #[trigger] self@.configs.contains_key(k) ==> self@.configs[k].max_reviews
            <= MAX_REVIEWERS
        &&& forall|k: (Bytes32, Bytes32)| #[trigger] self@.reviewers.contains_key(k) ==> self@.reviewers[k].len()
            <= MAX_REVIEWERS
        &&& reviews_consistent(self@)
    }

    pub closed spec fn view(&self) -> ReviewsState {
        ReviewsState {
            admin: self.admin,
            configs: self.configs.view(),
            latest: self.latest.view(),
            rubrics: self.rubrics.view().map_values(|r: Rubric| r@),
            reviews: self.reviews.view().map_values(|r: Review| r@),
            reviewers: self.reviewers.view().map_values(|v: Vec<Bytes32>| v@),
        }
    }

    pub fn new() -> (c: Self)
        ensures
            c.wf(),
            c@ == (ReviewsState {
                admin: None,
                configs: Map::empty(),
                latest: Map::empty(),
                rubrics: Map::empty(),
                reviews: Map::empty(),
                reviewers: Map::empty(),
            }),
    {
        let c = ScholarshipReviewsContract {
            admin: None,
            configs: Table::new(),
            latest: Table::new(),
            rubrics: Table::new(),
            reviews: Table::new(),
            reviewers: Table::new(),
        };
        proof {
            assert(c@.rubrics =~= Map::<(Bytes32, u32), RubricView>::empty());
            assert(c@.reviews =~= Map::<(Bytes32, Bytes32, Bytes32), ReviewView>::empty());
            assert(c@.reviewers =~= Map::<(Bytes32, Bytes32), Seq<Bytes32>>::empty());
        }
        c
    }

    pub fn initialize(&mut self, admin: Bytes32) -> (r: Result<(), ContractError>)
        requires
            old(self).wf(),
        ensures
            final(self).wf(),
            old(self)@.admin is Some ==> r == Err::<(), ContractError>(ContractError::AlreadyInitialized)
                && final(self)@ == old(self)@,
            old(self)@.admin is None ==> r == Ok::<(), ContractError>(()) && final(self)@ == (ReviewsState {
                admin: Some(admin),
                ..old(self)@
            }),
    {
        if self.admin.is_some() {
            return Err(ContractError::AlreadyInitialized);
        }
        self.admin = Some(admin);
        Ok(())
    }

    fn require_admin(&self, caller: &Bytes32) -> (r: Result<(), ContractError>)
        ensures
            r == admin_gate(self@, *caller),
    {
        match &self.admin {
            None => Err(ContractError::NotInitialized),
            Some(a) => if bytes32_eq(a, caller) {
                Ok(())
            } else {
                Err(ContractError::NotAdmin)
            },
        }
    }

    /// Registers a program whose reviews will be aggregated.
    pub fn register_program(&mut self, admin: Bytes32, program_id: Bytes32, min_reviews: u32, max_reviews: u32) -> (r:
        Result<(), ContractError>)
        requires
            old(self).wf(),
        ensures
            final(self).wf(),
            (r, final(self)@) == register_program_spec(old(self)@, admin, program_id, min_reviews, max_reviews),
    {
        match self.require_admin(&admin) {
            Err(e) => return Err(e),
            Ok(()) => {},
        }
        if min_reviews == 0 || max_reviews < min_reviews || max_reviews > MAX_REVIEWERS {
            return Err(ContractError::InvalidReviewConfig);
        }
        if self.configs.contains_key(&program_id) {
            return Err(ContractError::ProgramAlreadyExists);
        }
        let ghost before = self@;
        self.configs.insert(program_id, ProgramConfig { active: true, min_reviews, max_reviews });
        proof {
            assert(self@.configs == before.configs.insert(
                program_id,
                ProgramConfig { active: true, min_reviews, max_reviews },
            ));
            assert forall|k: Bytes32| #[trigger] self@.configs.contains_key(k) implies self@.configs[k].max_reviews
                <= MAX_REVIEWERS by {
                if k != program_id {
                    assert(before.configs.contains_key(k));
                }
            }
        }
        Ok(())
    }

    /// Opens or closes review collection for a program.
    pub fn set_program_active(&mut self, admin: Bytes32, program_id: Bytes32, active: bool) -> (r: Result<
        (),
        ContractError,
    >)
        requires
            old(self).wf(),
        ensures
            final(self).wf(),
            (r, final(self)@) == set_program_active_spec(old(self)@, admin, program_id, active),
    {
        match self.require_admin(&admin) {
            Err(e) => return Err(e),
            Ok(()) => {},
        }
        let config = match self.configs.get(&program_id) {
            Some(c) => *c,
            None => return Err(ContractError::ProgramNotFound),
        };
        let ghost before = self@;
        self.configs.insert(program_id, ProgramConfig { active, ..config });
        proof {
            assert(old(self)@.configs.contains_key(program_id));
            assert(config == old(self)@.configs[program_id]);
            assert(self@.configs == before.configs.insert(program_id, ProgramConfig { active, ..config }));
            assert(self@.rubrics == before.rubrics);
            assert(self@.reviewers == before.reviewers);
            assert forall|k: Bytes32| #[trigger] self@.configs.contains_key(k) implies self@.configs[k].max_reviews
                <= MAX_REVIEWERS by {
                assert(before.configs.contains_key(k));
            }
        }
        Ok(())
    }

    pub fn get_program_config(&self, program_id: Bytes32) -> (r: Result<ProgramConfig, ContractError>)
        requires
            self.wf(),
        ensures
            r == if self@.configs.contains_key(program_id) {
                Ok::<ProgramConfig, ContractError>(self@.configs[program_id])
            } else {
                Err(ContractError::ProgramNotFound)
            },
    {
        match self.configs.get(&program_id) {
            Some(c) => Ok(*c),
            None => Err(ContractError::ProgramNotFound),
        }
    }

    /// Publishes the next, immutable rubric version for a program.
    pub fn publish_rubric(&mut self, admin: Bytes32, program_id: Bytes32, criteria: Vec<Criterion>, now: u64) -> (r:
        Result<u32, ContractError>)
        requires
            old(self).wf(),
        ensures
            final(self).wf(),
            (r, final(self)@) == publish_rubric_spec(old(self)@, admin, program_id, criteria@, now),
    {
        match self.require_admin(&admin) {
            Err(e) => return Err(e),
            Ok(()) => {},
        }
        if !self.configs.contains_key(&program_id) {
            return Err(ContractError::ProgramNotFound);
        }
        match validate_rubric(&criteria) {
            Err(e) => return Err(e),
            Ok(()) => {},
        }
        let current: u32 = match self.latest.get(&program_id) {
            Some(v) => *v,
            None => 0,
        };
        let version = match current.checked_add(1) {
            Some(v) => v,
            None => return Err(ContractError::VersionOverflow),
        };
        let rubric = Rubric { version, criteria, published_at: now };
        let ghost before = self@;
        let ghost rv = rubric@;
        self.rubrics.insert((program_id, version), rubric);
        self.latest.insert(program_id, version);
        proof {
            assert(self@.rubrics =~= before.rubrics.insert((program_id, version), rv));
        }
        Ok(version)
    }

    pub fn get_latest_rubric_version(&self, program_id: Bytes32) -> (r: Result<u32, ContractError>)
        requires
            self.wf(),
        ensures
            r == if self@.latest.contains_key(program_id) {
                Ok::<u32, ContractError>(self@.latest[program_id])
            } else {
                Err(ContractError::NoRubricPublished)
            },
    {
        match self.latest.get(&program_id) {
            Some(v) => Ok(*v),
            None => Err(ContractError::NoRubricPublished),
        }
    }

    pub fn get_rubric(&self, program_id: Bytes32, version: u32) -> (r: Result<Rubric, ContractError>)
        requires
            self.wf(),
        ensures
            r matches Ok(x) ==> self@.rubrics.contains_key((program_id, version)) && x@ == self@.rubrics[(
                program_id,
                version,
            )],
            r matches Err(e) ==> !self@.rubrics.contains_key((program_id, version)) && e
                == ContractError::RubricNotFound,
    {
        match self.rubrics.get(&(program_id, version)) {
            Some(r) => Ok(r.clone()),
            None => Err(ContractError::RubricNotFound),
        }
    }

    fn reviewers_copy(&self, program_id: &Bytes32, applicant: &Bytes32) -> (v: Vec<Bytes32>)
        requires
            self.wf(),
        ensures
            v@ == reviewers_of(self@, *program_id, *applicant),
            v@.len() <= MAX_REVIEWERS,
    {
        match self.reviewers.get(&(*program_id, *applicant)) {
            Some(v) => {
                proof {
                    assert(self@.reviewers.contains_key((*program_id, *applicant)));
                }
                clone_ids(v)
            },
            None => Vec::new(),
        }
    }

    /// Records one account's review of one applicant against the program's
    /// latest rubric, and returns its weighted total. Authorization is the
    /// submitting account's own signature.
    pub fn submit_review(
        &mut self,
        reviewer: Bytes32,
        program_id: Bytes32,
        applicant: Bytes32,
        scores: Vec<u32>,
        now: u64,
    ) -> (r: Result<u32, ContractError>)
        requires
            old(self).wf(),
        ensures
            final(self).wf(),
            (r, final(self)@) == submit_review_spec(old(self)@, reviewer, program_id, applicant, scores@, now),
    {
        let config = match self.configs.get(&program_id) {
            Some(c) => *c,
            None => return Err(ContractError::ProgramNotFound),
        };
        if !config.active {
            return Err(ContractError::ProgramInactive);
        }
        let version = match self.latest.get(&program_id) {
            Some(v) => *v,
            None => return Err(ContractError::NoRubricPublished),
        };
        if !self.rubrics.contains_key(&(program_id, version)) {
            return Err(ContractError::RubricNotFound);
        }
        if self.reviews.contains_key(&(program_id, applicant, reviewer)) {
            return Err(ContractError::ReviewAlreadyExists);
        }
        let mut list = self.reviewers_copy(&program_id, &applicant);
        if list.len() >= config.max_reviews as usize {
            return Err(ContractError::ReviewerCapacityExceeded);
        }
        let (total, rubric_version) = match self.rubrics.get(&(program_id, version)) {
            Some(rubric) => {
                proof {
                    assert(self@.rubrics.contains_key((program_id, version)));
                }
                (weighted_total(rubric, &scores), rubric.version)
            },
            None => return Err(ContractError::RubricNotFound),
        };
        let total = match total {
            Ok(t) => t,
            Err(e) => return Err(e),
        };
        let review = Review { program_id, applicant, reviewer, rubric_version, scores, submitted_at: now };
        list.push(reviewer);
        let ghost before = self@;
        let ghost rv = review@;
        let ghost lv = list@;
        self.reviews.insert((program_id, applicant, reviewer), review);
        self.reviewers.insert((program_id, applicant), list);
        proof {
            assert(self@.reviews =~= before.reviews.insert((program_id, applicant, reviewer), rv));
            assert(self@.reviewers =~= before.reviewers.insert((program_id, applicant), lv));
        }
        Ok(total)
    }

    pub fn get_review(&self, program_id: Bytes32, applicant: Bytes32, reviewer: Bytes32) -> (r: Result<
        Review,
        ContractError,
    >)
        requires
            self.wf(),
        ensures
            r matches Ok(x) ==> self@.reviews.contains_key((program_id, applicant, reviewer)) && x@
                == self@.reviews[(program_id, applicant, reviewer)],
            r matches Err(e) ==> !self@.reviews.contains_key((program_id, applicant, reviewer)) && e
                == ContractError::ReviewNotFound,
    {
        match self.reviews.get(&(program_id, applicant, reviewer)) {
            Some(r) => Ok(r.clone()),
            None => Err(ContractError::ReviewNotFound),
        }
    }

    pub fn has_review(&self, program_id: Bytes32, applicant: Bytes32, reviewer: Bytes32) -> (b: bool)
        requires
            self.wf(),
        ensures
            b == self@.reviews.contains_key((program_id, applicant, reviewer)),
    {
        self.reviews.contains_key(&(program_id, applicant, reviewer))
    }

    /// How many reviews an application has.
    pub fn get_reviewer_count(&self, program_id: Bytes32, applicant: Bytes32) -> (n: u32)
        requires
            self.wf(),
        ensures
            n == reviewers_of(self@, program_id, applicant).len(),
    {
        match self.reviewers.get(&(program_id, applicant)) {
            Some(v) => {
                proof {
                    assert(self@.reviewers.contains_key((program_id, applicant)));
                }
                v.len() as u32
            },
            None => 0,
        }
    }

    /// The normalized aggregate score of an application.
    pub fn aggregate_score(&self, program_id: Bytes32, applicant: Bytes32) -> (r: Result<u32, ContractError>)
        requires
            self.wf(),
        ensures
            r == aggregate_of(self@, program_id, applicant),
            r matches Ok(a) ==> a <= 10_000,
    {
        let min_reviews = match self.configs.get(&program_id) {
            Some(c) => c.min_reviews,
            None => return Err(ContractError::ProgramNotFound),
        };
        let list = self.reviewers_copy(&program_id, &applicant);
        let count = list.len();
        if count < min_reviews as usize {
            return Err(ContractError::InsufficientReviews);
        }
        if count == 0 {
            return Err(ContractError::ReviewNotFound);
        }
        let version = match self.reviews.get(&(program_id, applicant, list[0])) {
            Some(r) => r.rubric_version,
            None => return Err(ContractError::ReviewNotFound),
        };
        let rubric = match self.rubrics.get(&(program_id, version)) {
            Some(r) => {
                proof {
                    assert(self@.rubrics.contains_key((program_id, version)));
                }
                r
            },
            None => return Err(ContractError::RubricNotFound),
        };
        let ghost criteria = rubric.criteria@;
        proof {
            assert(self@.reviews.contains_key((program_id, applicant, list@[0])));
            assert(self@.rubrics[(program_id, version)].criteria == criteria);
        }
        let ghost outcome = match totals_sum(self@, program_id, applicant, version, criteria, list@, count as int) {
            Err(e) => Err(e),
            Ok(t) => Ok((t / (count as int)) as u32),
        };
        assert(aggregate_of(self@, program_id, applicant) == outcome);
        let mut sum: u64 = 0;
        let mut i: usize = 0;
        while i < count
            invariant
                self.wf(),
                count == list@.len(),
                count <= MAX_REVIEWERS,
                i <= count,
                criteria == rubric.criteria@,
                rubric_valid(criteria),
                totals_sum(self@, program_id, applicant, version, criteria, list@, i as int) == Ok::<
                    int,
                    ContractError,
                >(sum as int),
                sum <= i * 10_000,
                aggregate_of(self@, program_id, applicant) == outcome,
                outcome == match totals_sum(self@, program_id, applicant, version, criteria, list@, count as int) {
                    Err(e) => Err(e),
                    Ok(t) => Ok((t / (count as int)) as u32),
                },
            decreases count - i,
        {
            let key = (program_id, applicant, list[i]);
            proof {
                assert(key == (program_id, applicant, list@[i as int]));
            }
            let total = match self.reviews.get(&key) {
                Some(review) => {
                    proof {
                        assert(self@.reviews.contains_key(key));
                        assert(self@.reviews[key] == review@);
                    }
                    if review.rubric_version != version {
                        proof {
                            assert(totals_sum(self@, program_id, applicant, version, criteria, list@, i + 1) == Err::<
                                int,
                                ContractError,
                            >(ContractError::MixedRubricVersions));
                            lemma_sum_error_sticks(self@, program_id, applicant, version, criteria, list@, i + 1);
                        }
                        return Err(ContractError::MixedRubricVersions);
                    }
                    weighted_total(rubric, &review.scores)
                },
                None => {
                    proof {
                        assert(!self@.reviews.contains_key(key));
                        lemma_sum_error_sticks(self@, program_id, applicant, version, criteria, list@, i + 1);
                    }
                    return Err(ContractError::ReviewNotFound);
                },
            };
            let total = match total {
                Ok(t) => t,
                Err(e) => {
                    proof {
                        lemma_sum_error_sticks(self@, program_id, applicant, version, criteria, list@, i + 1);
                    }
                    return Err(e);
                },
            };
            sum = sum + total as u64;
            i = i + 1;
        }
        proof {
            assert((sum as int) / (count as int) <= 10_000) by (nonlinear_arith)
                requires
                    sum <= count * 10_000,
                    count >= 1,
            ;
        }
        Ok((sum / count as u64) as u32)
    }

    /// Compares two applicants under the tie policy.
    pub fn compare_applicants(&self, program_id: Bytes32, applicant_a: Bytes32, applicant_b: Bytes32) -> (r: Result<
        CompareOutcome,
        ContractError,
    >)
        requires
            self.wf(),
        ensures
            r == compare_of(self@, program_id, applicant_a, applicant_b),
    {
        let score_a = match self.aggregate_score(program_id, applicant_a) {
            Ok(s) => s,
            Err(e) => return Err(e),
        };
        let score_b = match self.aggregate_score(program_id, applicant_b) {
            Ok(s) => s,
            Err(e) => return Err(e),
        };
        if score_a > score_b {
            return Ok(CompareOutcome::ABetter);
        }
        if score_b > score_a {
            return Ok(CompareOutcome::BBetter);
        }
        let time_a = match self.first_review_time(program_id, applicant_a) {
            Ok(t) => t,
            Err(e) => return Err(e),
        };
        let time_b = match self.first_review_time(program_id, applicant_b) {
            Ok(t) => t,
            Err(e) => return Err(e),
        };
        if time_a < time_b {
            return Ok(CompareOutcome::ABetter);
        }
        if time_b < time_a {
            return Ok(CompareOutcome::BBetter);
        }
        Ok(CompareOutcome::Tie)
    }

    /// The earliest submission time among an application's reviews.
    pub fn first_review_time(&self, program_id: Bytes32, applicant: Bytes32) -> (r: Result<u64, ContractError>)
        requires
            self.wf(),
        ensures
            r == first_review_time_of(self@, program_id, applicant),
    {
        let list = self.reviewers_copy(&program_id, &applicant);
        let mut earliest: Option<u64> = None;
        let mut i: usize = 0;
        while i < list.len()
            invariant
                self.wf(),
                i <= list@.len(),
                list@ == reviewers_of(self@, program_id, applicant),
                earliest_of(self@, program_id, applicant, list@, i as int) == Ok::<Option<u64>, ContractError>(
                    earliest,
                ),
            decreases list@.len() - i,
        {
            let t = match self.reviews.get(&(program_id, applicant, list[i])) {
                Some(r) => r.submitted_at,
                None => {
                    proof {
                        lemma_earliest_error_sticks(self@, program_id, applicant, list@, i + 1);
                    }
                    return Err(ContractError::ReviewNotFound);
                },
            };
            earliest = match earliest {
                None => Some(t),
                Some(cur) => Some(if t < cur { t } else { cur }),
            };
            i = i + 1;
        }
        match earliest {
            Some(t) => Ok(t),
            None => Err(ContractError::InsufficientReviews),
        }
    }

    pub fn version() -> (v: u32)
        ensures
            v == CONTRACT_VERSION,
    {
        CONTRACT_VERSION
    }
}

proof fn lemma_sum_error_sticks(
    s: ReviewsState,
    program_id: Bytes32,
    applicant: Bytes32,
    version: u32,
    criteria: Seq<Criterion>,
    list: Seq<Bytes32>,
    n: int,
)
    requires
        0 <= n <= list.len(),
        totals_sum(s, program_id, applicant, version, criteria, list, n) is Err,
    ensures
        totals_sum(s, program_id, applicant, version, criteria, list, list.len() as int) == totals_sum(
            s,
            program_id,
            applicant,
            version,
            criteria,
            list,
            n,
        ),
    decreases list.len() - n,
{
    if n < list.len() {
        lemma_sum_error_sticks(s, program_id, applicant, version, criteria, list, n + 1);
    }
}

proof fn lemma_earliest_error_sticks(s: ReviewsState, program_id: Bytes32, applicant: Bytes32, list: Seq<Bytes32>, n: int)
    requires
        0 <= n <= list.len(),
        earliest_of(s, program_id, applicant, list, n) is Err,
    ensures
        earliest_of(s, program_id, applicant, list, list.len() as int) == earliest_of(s, program_id, applicant, list, n),
    decreases list.len() - n,
{
    if n < list.len() {
        lemma_earliest_error_sticks(s, program_id, applicant, list, n + 1);
    }
}

/// The tie policy is antisymmetric: swapping the applicants swaps the
/// verdict, a tie stays a tie, and one order fails exactly when the other
/// does.
pub proof fn lemma_compare_is_antisymmetric(s: ReviewsState, program_id: Bytes32, a: Bytes32, b: Bytes32)
    ensures
        compare_of(s, program_id, a, b) is Ok <==> compare_of(s, program_id, b, a) is Ok,
        compare_of(s, program_id, a, b) == Ok::<CompareOutcome, ContractError>(CompareOutcome::ABetter)
            <==> compare_of(s, program_id, b, a) == Ok::<CompareOutcome, ContractError>(CompareOutcome::BBetter),
        compare_of(s, program_id, a, b) == Ok::<CompareOutcome, ContractError>(CompareOutcome::Tie)
            <==> compare_of(s, program_id, b, a) == Ok::<CompareOutcome, ContractError>(CompareOutcome::Tie),
{
}

/// An applicant compared with itself is a tie, whenever it can be compared.
pub proof fn lemma_compare_is_reflexive(s: ReviewsState, program_id: Bytes32, a: Bytes32)
    ensures
        compare_of(s, program_id, a, a) is Ok ==> compare_of(s, program_id, a, a) == Ok::<
            CompareOutcome,
            ContractError,
        >(CompareOutcome::Tie),
{
}

/// No aggregate is invented for an under-reviewed application.
pub proof fn lemma_no_aggregate_below_minimum(s: ReviewsState, program_id: Bytes32, applicant: Bytes32)
    requires
        s.configs.contains_key(program_id),
        reviewers_of(s, program_id, applicant).len() < s.configs[program_id].min_reviews,
    ensures
        aggregate_of(s, program_id, applicant) == Err::<u32, ContractError>(ContractError::InsufficientReviews),
{
}

/// Publishing writes version N+1 and leaves every published version as it
/// was.
pub proof fn lemma_publishing_never_rewrites_a_version(
    s: ReviewsState,
    admin: Bytes32,
    program_id: Bytes32,
    criteria: Seq<Criterion>,
    now: u64,
    key: (Bytes32, u32),
)
    requires
        s.rubrics.contains_key(key),
        forall|k: (Bytes32, u32)| #[trigger] s.rubrics.contains_key(k) ==> s.latest.contains_key(k.0) && k.1
            <= s.latest[k.0],
    ensures
        publish_rubric_spec(s, admin, program_id, criteria, now).1.rubrics.contains_key(key),
        publish_rubric_spec(s, admin, program_id, criteria, now).1.rubrics[key] == s.rubrics[key],
{
}

/// One review per account per application: a second submission is refused
/// and changes nothing.
pub proof fn lemma_one_review_per_account(
    s: ReviewsState,
    reviewer: Bytes32,
    program_id: Bytes32,
    applicant: Bytes32,
    scores: Seq<u32>,
    now: u64,
    scores2: Seq<u32>,
    later: u64,
)
    requires
        submit_review_spec(s, reviewer, program_id, applicant, scores, now).0 is Ok,
    ensures
        ({
            let t = submit_review_spec(s, reviewer, program_id, applicant, scores, now).1;
            submit_review_spec(t, reviewer, program_id, applicant, scores2, later) == (
                Err::<u32, ContractError>(ContractError::ReviewAlreadyExists),
                t,
            )
        }),
{
}

/// The sum of the weighted totals of the first `n` listed reviews.
pub open spec fn review_totals(
    s: ReviewsState,
    program_id: Bytes32,
    applicant: Bytes32,
    criteria: Seq<Criterion>,
    list: Seq<Bytes32>,
    n: int,
) -> int
    decreases n,
{
    if n <= 0 {
        0
    } else {
        review_totals(s, program_id, applicant, criteria, list, n - 1) + weighted_total_of(
            criteria,
            s.reviews[(program_id, applicant, list[n - 1])].scores,
        )->Ok_0
    }
}

/// Over stored reviews whose totals are computable, the running sum is
/// the plain sum while every version is `version`, and is refused as mixed
/// as soon as one is not.
proof fn lemma_totals_split(
    s: ReviewsState,
    program_id: Bytes32,
    applicant: Bytes32,
    version: u32,
    criteria: Seq<Criterion>,
    list: Seq<Bytes32>,
    n: int,
)
    requires
        0 <= n <= list.len(),
        forall|i: int| 0 <= i < n ==> s.reviews.contains_key((program_id, applicant, #[trigger] list[i])),
        forall|i: int|
            0 <= i < n && s.reviews[(program_id, applicant, #[trigger] list[i])].rubric_version == version
                ==> weighted_total_of(criteria, s.reviews[(program_id, applicant, list[i])].scores) is Ok,
        rubric_valid(criteria),
    ensures
        (forall|i: int| 0 <= i < n ==> s.reviews[(program_id, applicant, #[trigger] list[i])].rubric_version == version)
            ==> totals_sum(s, program_id, applicant, version, criteria, list, n) == Ok::<int, ContractError>(
            review_totals(s, program_id, applicant, criteria, list, n),
        ) && 0 <= review_totals(s, program_id, applicant, criteria, list, n) <= 10_000 * n,
        !(forall|i: int| 0 <= i < n ==> s.reviews[(program_id, applicant, #[trigger] list[i])].rubric_version == version)
            ==> totals_sum(s, program_id, applicant, version, criteria, list, n) == Err::<int, ContractError>(
            ContractError::MixedRubricVersions,
        ),
    decreases n,
{
    if n > 0 {
        lemma_totals_split(s, program_id, applicant, version, criteria, list, n - 1);
        let last = s.reviews[(program_id, applicant, list[n - 1])];
        if last.rubric_version == version {
            lemma_total_in_range(criteria, last.scores);
        }
        if !(forall|i: int| 0 <= i < n ==> s.reviews[(program_id, applicant, #[trigger] list[i])].rubric_version
            == version) {
            if forall|i: int|
                0 <= i < n - 1 ==> s.reviews[(program_id, applicant, #[trigger] list[i])].rubric_version == version {
                let j = choose|j: int|
                    0 <= j < n && s.reviews[(program_id, applicant, #[trigger] list[j])].rubric_version != version;
                assert(j == n - 1);
            }
        } else {
            assert(s.reviews[(program_id, applicant, list[n - 1])].rubric_version == version);
        }
    }
}

/// The aggregate's cases, on every consistent state (every state the
/// contract reaches, see [`lemma_stored_reviews_are_consistent`]): too few
/// reviews is `InsufficientReviews`; enough reviews that do not all carry
/// the first review's rubric version is `MixedRubricVersions`; otherwise
/// the aggregate is the sum of the weighted totals divided by the number
/// of reviews, at most 10 000.
pub proof fn lemma_aggregate_score_cases(s: ReviewsState, program_id: Bytes32, applicant: Bytes32)
    requires
        reviews_consistent(s),
        s.configs.contains_key(program_id),
    ensures
        ({
            let list = reviewers_of(s, program_id, applicant);
            let n = list.len();
            let agg = aggregate_of(s, program_id, applicant);
            &&& n < s.configs[program_id].min_reviews ==> agg == Err::<u32, ContractError>(
                ContractError::InsufficientReviews,
            )
            &&& n >= s.configs[program_id].min_reviews && n == 0 ==> agg == Err::<u32, ContractError>(
                ContractError::ReviewNotFound,
            )
            &&& n >= s.configs[program_id].min_reviews && n > 0 ==> {
                let v = s.reviews[(program_id, applicant, list[0])].rubric_version;
                let criteria = s.rubrics[(program_id, v)].criteria;
                &&& (exists|i: int|
                    0 <= i < n && s.reviews[(program_id, applicant, #[trigger] list[i])].rubric_version != v)
                    ==> agg == Err::<u32, ContractError>(ContractError::MixedRubricVersions)
                &&& (forall|i: int|
                    0 <= i < n ==> s.reviews[(program_id, applicant, #[trigger] list[i])].rubric_version == v)
                    ==> agg == Ok::<u32, ContractError>(
                    (review_totals(s, program_id, applicant, criteria, list, n as int) / (n as int)) as u32,
                ) && review_totals(s, program_id, applicant, criteria, list, n as int) / (n as int) <= 10_000
            }
        }),
{
    let list = reviewers_of(s, program_id, applicant);
    let n = list.len();
    assert forall|i: int| 0 <= i < n implies s.reviews.contains_key((program_id, applicant, #[trigger] list[i])) by {
        assert(s.reviewers.contains_key((program_id, applicant)));
        assert(s.reviews.contains_key((program_id, applicant, s.reviewers[(program_id, applicant)][i])));
    }
    if n >= s.configs[program_id].min_reviews && n > 0 {
        let v = s.reviews[(program_id, applicant, list[0])].rubric_version;
        assert(s.reviews.contains_key((program_id, applicant, list[0])));
        assert(s.rubrics.contains_key((program_id, v)));
        let criteria = s.rubrics[(program_id, v)].criteria;
        assert forall|i: int|
            0 <= i < n && s.reviews[(program_id, applicant, #[trigger] list[i])].rubric_version == v
                implies weighted_total_of(criteria, s.reviews[(program_id, applicant, list[i])].scores) is Ok by {
            assert(s.reviews.contains_key((program_id, applicant, list[i])));
        }
        lemma_totals_split(s, program_id, applicant, v, criteria, list, n as int);
        let t = review_totals(s, program_id, applicant, criteria, list, n as int);
        if forall|i: int| 0 <= i < n ==> s.reviews[(program_id, applicant, #[trigger] list[i])].rubric_version == v {
            assert(0 <= t / (n as int) <= 10_000) by (nonlinear_arith)
                requires
                    0 <= t <= 10_000 * n,
                    n > 0,
            ;
        }
    }
}

/// Every state the contract holds is consistent: rubrics sit under their
/// own version, every stored review was validly scored against its
/// rubric, and every account listed for an application has a stored
/// review.
pub proof fn lemma_stored_reviews_are_consistent(c: &ScholarshipReviewsContract)
    requires
        c.wf(),
    ensures
        reviews_consistent(c@),
{
}

} // verus!
