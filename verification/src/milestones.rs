//! Milestone disbursement schedules: an award split into verified
//! milestones, each with a share in basis points and a due date, released
//! in order.
//!
//! Shares must total exactly 10 000 basis points and dates must strictly
//! increase. Amounts are derived from the shares against the award total,
//! each rounded down, with the last milestone taking whatever remains, so
//! the amounts always add up to the award exactly. A schedule is defined
//! inactive, activated once, and afterwards changed only by a governed
//! amendment that bumps its version and is refused once any milestone has
//! been released. A milestone is released only after it is verified and
//! after every earlier one. A refused call changes nothing.
use vstd::prelude::*;
use crate::table::{Bytes32, Table, bytes32_eq};

verus! {

pub const CONTRACT_VERSION: u32 = 1;

/// The most milestones a schedule may hold.
pub const MAX_MILESTONES: u32 = 16;

/// The whole award, in basis points.
pub const BPS_DENOMINATOR: u32 = 10_000;

#[derive(Copy, Clone, Debug, PartialEq, Eq, Structural)]
pub enum ContractError {
    NotInitialized,
    AlreadyInitialized,
    NotAdmin,
    ScheduleNotFound,
    /// The award already has a schedule; amend it instead.
    ScheduleAlreadyExists,
    /// A schedule needs between one and `MAX_MILESTONES` milestones.
    InvalidMilestoneCount,
    /// Milestone shares must total exactly 10 000 basis points.
    PercentagesDoNotSumTo100,
    /// Milestone dates must strictly increase.
    DatesNotOrdered,
    /// The award total must be positive, and its shares must be computable.
    InvalidAmount,
    ScheduleInactive,
    ScheduleAlreadyActive,
    MilestoneIndexOutOfRange,
    MilestoneNotVerified,
    MilestoneAlreadyVerified,
    MilestoneAlreadyReleased,
    /// Milestones are released in schedule order.
    OutOfOrderRelease,
    /// An amendment is refused once any milestone has been released.
    ScheduleLockedAfterDisbursement,
    VersionOverflow,
    /// A milestone is released only at or after its due time.
    MilestoneNotDue,
}

impl ContractError {
    /// The stable numeric code a client sees.
    pub fn code(self) -> (c: u32)
        ensures
            c == match self {
                ContractError::NotInitialized => 1u32,
                ContractError::AlreadyInitialized => 2u32,
                ContractError::NotAdmin => 3u32,
                ContractError::ScheduleNotFound => 4u32,
                ContractError::ScheduleAlreadyExists => 5u32,
                ContractError::InvalidMilestoneCount => 6u32,
                ContractError::PercentagesDoNotSumTo100 => 7u32,
                ContractError::DatesNotOrdered => 8u32,
                ContractError::InvalidAmount => 9u32,
                ContractError::ScheduleInactive => 10u32,
                ContractError::ScheduleAlreadyActive => 11u32,
                ContractError::MilestoneIndexOutOfRange => 12u32,
                ContractError::MilestoneNotVerified => 13u32,
                ContractError::MilestoneAlreadyVerified => 14u32,
                ContractError::MilestoneAlreadyReleased => 15u32,
                ContractError::OutOfOrderRelease => 16u32,
                ContractError::ScheduleLockedAfterDisbursement => 17u32,
                ContractError::VersionOverflow => 18u32,
                ContractError::MilestoneNotDue => 19u32,
            },
    {
        match self {
            ContractError::NotInitialized => 1,
            ContractError::AlreadyInitialized => 2,
            ContractError::NotAdmin => 3,
            ContractError::ScheduleNotFound => 4,
            ContractError::ScheduleAlreadyExists => 5,
            ContractError::InvalidMilestoneCount => 6,
            ContractError::PercentagesDoNotSumTo100 => 7,
            ContractError::DatesNotOrdered => 8,
            ContractError::InvalidAmount => 9,
            ContractError::ScheduleInactive => 10,
            ContractError::ScheduleAlreadyActive => 11,
            ContractError::MilestoneIndexOutOfRange => 12,
            ContractError::MilestoneNotVerified => 13,
            ContractError::MilestoneAlreadyVerified => 14,
            ContractError::MilestoneAlreadyReleased => 15,
            ContractError::OutOfOrderRelease => 16,
            ContractError::ScheduleLockedAfterDisbursement => 17,
            ContractError::VersionOverflow => 18,
            ContractError::MilestoneNotDue => 19,
        }
    }
}

#[derive(Copy, Clone, Debug, PartialEq, Eq, Structural)]
pub enum MilestoneKind {
    Enrollment,
    Attendance,
    Coursework,
    Completion,
    Custom,
}

/// The caller's definition of one milestone; its amount is derived.
#[derive(Copy, Clone, Debug, PartialEq, Eq)]
pub struct MilestoneInput {
    pub kind: MilestoneKind,
    pub label_hash: Bytes32,
    pub percentage_bps: u32,
    pub due_at: u64,
}

#[derive(Copy, Clone, Debug, PartialEq, Eq)]
pub struct Milestone {
    pub index: u32,
    pub kind: MilestoneKind,
    pub label_hash: Bytes32,
    pub percentage_bps: u32,
    pub amount: i128,
    pub due_at: u64,
    pub verified: bool,
    pub released: bool,
}

/// A reconciled disbursement schedule for one award.
#[derive(Debug, PartialEq, Eq)]
pub struct MilestoneSchedule {
    pub award_id: Bytes32,
    pub total_amount: i128,
    pub currency: Bytes32,
    pub version: u32,
    pub active: bool,
    pub created_at: u64,
    pub activated_at: u64,
    pub amended_at: u64,
    pub milestones: Vec<Milestone>,
}

pub struct ScheduleView {
    pub award_id: Bytes32,
    pub total_amount: i128,
    pub currency: Bytes32,
    pub version: u32,
    pub active: bool,
    pub created_at: u64,
    pub activated_at: u64,
    pub amended_at: u64,
    pub milestones: Seq<Milestone>,
}

impl MilestoneSchedule {
    pub open spec fn view(&self) -> ScheduleView {
        ScheduleView {
            award_id: self.award_id,
            total_amount: self.total_amount,
            currency: self.currency,
            version: self.version,
            active: self.active,
            created_at: self.created_at,
            activated_at: self.activated_at,
            amended_at: self.amended_at,
            milestones: self.milestones@,
        }
    }
}

fn clone_milestones(v: &Vec<Milestone>) -> (r: Vec<Milestone>)
    ensures
        r@ == v@,
{
    let mut r: Vec<Milestone> = Vec::new();
    let mut i: usize = 0;
    while i < v.len()
        invariant
            i <= v@.len(),
            r@ == v@.take(i as int),
        decreases v@.len() - i,
    {
        r.push(v[i]);
        proof {
            assert(r@ =~= v@.take(i + 1));
        }
        i = i + 1;
    }
    proof {
        assert(v@.take(v@.len() as int) =~= v@);
    }
    r
}

impl Clone for MilestoneSchedule {
    fn clone(&self) -> (r: Self)
        ensures
            r@ == self@,
    {
        MilestoneSchedule { milestones: clone_milestones(&self.milestones), ..*self }
    }
}

// ── Building a schedule ────────────────────────────────────────────────────

/// The first pass over the inputs, up to `n`: the running share total, or
/// the first overflow of it or the first misordered date.
pub open spec fn share_pass(inputs: Seq<MilestoneInput>, n: int) -> Result<u32, ContractError>
    decreases n,
{
    if n <= 0 {
        Ok(0)
    } else {
        match share_pass(inputs, n - 1) {
            Err(e) => Err(e),
            Ok(sum) => if sum + inputs[n - 1].percentage_bps > u32::MAX {
                Err(ContractError::PercentagesDoNotSumTo100)
            } else if n - 1 > 0 && inputs[n - 1].due_at <= inputs[n - 2].due_at {
                Err(ContractError::DatesNotOrdered)
            } else {
                Ok((sum + inputs[n - 1].percentage_bps) as u32)
            },
        }
    }
}

/// A milestone's share of the award, rounded down.
pub open spec fn share_of(total: int, bps: u32) -> int {
    (total * bps) / 10_000
}

/// The amounts allotted to the first `n` milestones.
pub open spec fn allotted(total: int, inputs: Seq<MilestoneInput>, n: int) -> int
    decreases n,
{
    if n <= 0 {
        0
    } else {
        allotted(total, inputs, n - 1) + share_of(total, inputs[n - 1].percentage_bps)
    }
}

/// The amount derived for milestone `i`: its share, or the remainder for
/// the last one.
pub open spec fn amount_of(total: int, inputs: Seq<MilestoneInput>, i: int) -> int {
    if i == inputs.len() - 1 {
        total - allotted(total, inputs, i)
    } else {
        share_of(total, inputs[i].percentage_bps)
    }
}

/// The milestone built from input `i`.
pub open spec fn milestone_of(total: i128, inputs: Seq<MilestoneInput>, i: int) -> Milestone {
    Milestone {
        index: i as u32,
        kind: inputs[i].kind,
        label_hash: inputs[i].label_hash,
        percentage_bps: inputs[i].percentage_bps,
        amount: amount_of(total as int, inputs, i) as i128,
        due_at: inputs[i].due_at,
        verified: false,
        released: false,
    }
}

/// The outcome of deriving a schedule's milestones.
pub open spec fn build_spec(total: i128, inputs: Seq<MilestoneInput>) -> Result<Seq<Milestone>, ContractError> {
    if inputs.len() == 0 || inputs.len() > MAX_MILESTONES {
        Err(ContractError::InvalidMilestoneCount)
    } else if total <= 0 {
        Err(ContractError::InvalidAmount)
    } else if share_pass(inputs, inputs.len() as int) is Err {
        Err(share_pass(inputs, inputs.len() as int)->Err_0)
    } else if share_pass(inputs, inputs.len() as int) != Ok::<u32, ContractError>(BPS_DENOMINATOR) {
        Err(ContractError::PercentagesDoNotSumTo100)
    } else if exists|i: int| 0 <= i < inputs.len() - 1 && total * #[trigger] inputs[i].percentage_bps > i128::MAX {
        Err(ContractError::InvalidAmount)
    } else {
        Ok(Seq::new(inputs.len(), |i: int| milestone_of(total, inputs, i)))
    }
}

/// The amounts of the first `n` milestones.
pub open spec fn amount_sum(ms: Seq<Milestone>, n: int) -> int
    decreases n,
{
    if n <= 0 {
        0
    } else {
        amount_sum(ms, n - 1) + ms[n - 1].amount
    }
}

/// The amounts of the released milestones among the first `n`.
pub open spec fn released_sum(ms: Seq<Milestone>, n: int) -> int
    decreases n,
{
    if n <= 0 {
        0
    } else {
        released_sum(ms, n - 1) + if ms[n - 1].released {
            ms[n - 1].amount as int
        } else {
            0
        }
    }
}

/// Amounts are non-negative and add up to the award.
pub open spec fn reconciles(total: i128, ms: Seq<Milestone>) -> bool {
    &&& forall|i: int| 0 <= i < ms.len() ==> #[trigger] ms[i].amount >= 0
    &&& amount_sum(ms, ms.len() as int) == total
}

/// The shares of the first `n` inputs.
pub open spec fn bps_prefix(inputs: Seq<MilestoneInput>, n: int) -> int
    decreases n,
{
    if n <= 0 {
        0
    } else {
        bps_prefix(inputs, n - 1) + inputs[n - 1].percentage_bps
    }
}

proof fn lemma_share_pass_sum(inputs: Seq<MilestoneInput>, n: int)
    requires
        0 <= n <= inputs.len(),
        share_pass(inputs, n) is Ok,
    ensures
        share_pass(inputs, n) == Ok::<u32, ContractError>(bps_prefix(inputs, n) as u32),
        bps_prefix(inputs, n) <= u32::MAX,
        forall|i: int, j: int| 0 <= i < j < n ==> inputs[i].due_at < inputs[j].due_at,
    decreases n,
{
    lemma_bps_prefix_nonneg(inputs, n);
    if n > 0 {
        lemma_share_pass_sum(inputs, n - 1);
        lemma_bps_prefix_nonneg(inputs, n - 1);
        assert forall|i: int, j: int| 0 <= i < j < n implies inputs[i].due_at < inputs[j].due_at by {
            if j == n - 1 && i < n - 2 {
                assert(inputs[i].due_at < inputs[n - 2].due_at);
            }
        }
    }
}

proof fn lemma_share_pass_error_sticks(inputs: Seq<MilestoneInput>, n: int)
    requires
        0 <= n <= inputs.len(),
        share_pass(inputs, n) is Err,
    ensures
        share_pass(inputs, inputs.len() as int) == share_pass(inputs, n),
    decreases inputs.len() - n,
{
    if n < inputs.len() {
        lemma_share_pass_error_sticks(inputs, n + 1);
    }
}

proof fn lemma_bps_prefix_monotone(inputs: Seq<MilestoneInput>, a: int, b: int)
    requires
        0 <= a <= b <= inputs.len(),
    ensures
        0 <= bps_prefix(inputs, a) <= bps_prefix(inputs, b),
    decreases b - a,
{
    if a < b {
        lemma_bps_prefix_monotone(inputs, a, b - 1);
    } else if a > 0 {
        lemma_bps_prefix_nonneg(inputs, a);
    }
}

proof fn lemma_bps_prefix_nonneg(inputs: Seq<MilestoneInput>, n: int)
    requires
        0 <= n <= inputs.len(),
    ensures
        0 <= bps_prefix(inputs, n),
    decreases n,
{
    if n > 0 {
        lemma_bps_prefix_nonneg(inputs, n - 1);
    }
}

/// What is allotted to a prefix never exceeds the prefix's share of the
/// total.
proof fn lemma_allotted_bounded(total: int, inputs: Seq<MilestoneInput>, n: int)
    requires
        0 <= n <= inputs.len(),
        total > 0,
    ensures
        0 <= allotted(total, inputs, n),
        allotted(total, inputs, n) * 10_000 <= total * bps_prefix(inputs, n),
    decreases n,
{
    if n > 0 {
        lemma_allotted_bounded(total, inputs, n - 1);
        let b = inputs[n - 1].percentage_bps as int;
        let a = allotted(total, inputs, n - 1);
        let p = bps_prefix(inputs, n - 1);
        assert(0 <= (total * b) / 10_000 && ((total * b) / 10_000) * 10_000 <= total * b) by (nonlinear_arith)
            requires
                total > 0,
                b >= 0,
        ;
        assert(total * (p + b) == total * p + total * b) by (nonlinear_arith);
    }
}

/// The derived amounts of a successful build reconcile to the award.
proof fn lemma_build_reconciles(total: i128, inputs: Seq<MilestoneInput>)
    requires
        build_spec(total, inputs) is Ok,
    ensures
        reconciles(total, build_spec(total, inputs)->Ok_0),
        build_spec(total, inputs)->Ok_0.len() == inputs.len(),
{
    let n = inputs.len() as int;
    let t = total as int;
    let ms = build_spec(total, inputs)->Ok_0;
    lemma_share_pass_sum(inputs, n);
    lemma_allotted_bounded(t, inputs, n - 1);
    lemma_bps_prefix_monotone(inputs, n - 1, n);
    let a = allotted(t, inputs, n - 1);
    let p = bps_prefix(inputs, n - 1);
    assert(a <= t) by (nonlinear_arith)
        requires
            a * 10_000 <= t * p,
            p <= 10_000,
            t > 0,
    ;
    assert forall|i: int| 0 <= i < n - 1 implies 0 <= #[trigger] share_of(t, inputs[i].percentage_bps) <= i128::MAX by {
        let b = inputs[i].percentage_bps as int;
        assert(t * b <= i128::MAX);
        assert(0 <= (t * b) / 10_000 <= t * b) by (nonlinear_arith)
            requires
                t > 0,
                b >= 0,
        ;
    }
    assert forall|i: int| 0 <= i < ms.len() implies #[trigger] ms[i].amount >= 0 by {
        if i < n - 1 {
            assert(0 <= share_of(t, inputs[i].percentage_bps));
        }
    }
    lemma_prefix_sums(total, inputs, ms, n - 1);
    assert(ms[n - 1].amount == t - a);
    assert(amount_sum(ms, n) == amount_sum(ms, n - 1) + ms[n - 1].amount);
}

proof fn lemma_prefix_sums(total: i128, inputs: Seq<MilestoneInput>, ms: Seq<Milestone>, k: int)
    requires
        build_spec(total, inputs) is Ok,
        ms == build_spec(total, inputs)->Ok_0,
        0 <= k <= inputs.len() - 1,
    ensures
        amount_sum(ms, k) == allotted(total as int, inputs, k),
    decreases k,
{
    if k > 0 {
        lemma_prefix_sums(total, inputs, ms, k - 1);
        let b = inputs[k - 1].percentage_bps as int;
        let t = total as int;
        assert(t * b <= i128::MAX);
        assert(0 <= (t * b) / 10_000 <= t * b) by (nonlinear_arith)
            requires
                t > 0,
                b >= 0,
        ;
        assert(ms[k - 1].amount == share_of(t, inputs[k - 1].percentage_bps));
    }
}

/// Derives the milestones of a schedule from the caller's inputs.
pub fn build_milestones(total_amount: i128, inputs: &Vec<MilestoneInput>) -> (r: Result<Vec<Milestone>, ContractError>)
    ensures
        match r {
            Ok(ms) => build_spec(total_amount, inputs@) == Ok::<Seq<Milestone>, ContractError>(ms@),
            Err(e) => build_spec(total_amount, inputs@) == Err::<Seq<Milestone>, ContractError>(e),
        },
        r matches Ok(ms) ==> reconciles(total_amount, ms@),
{
    let count = inputs.len();
    if count == 0 || count > MAX_MILESTONES as usize {
        return Err(ContractError::InvalidMilestoneCount);
    }
    if total_amount <= 0 {
        return Err(ContractError::InvalidAmount);
    }
    let mut bps_sum: u32 = 0;
    let mut prev_due: u64 = 0;
    let mut i: usize = 0;
    while i < count
        invariant
            count == inputs@.len(),
            1 <= count <= MAX_MILESTONES,
            total_amount > 0,
            i <= count,
            share_pass(inputs@, i as int) == Ok::<u32, ContractError>(bps_sum),
            i > 0 ==> prev_due == inputs@[i - 1].due_at,
        decreases count - i,
    {
        let input = inputs[i];
        let next = match bps_sum.checked_add(input.percentage_bps) {
            Some(s) => s,
            None => {
                proof {
                    assert(share_pass(inputs@, i + 1) == Err::<u32, ContractError>(
                        ContractError::PercentagesDoNotSumTo100,
                    ));
                    lemma_share_pass_error_sticks(inputs@, i + 1);
                }
                return Err(ContractError::PercentagesDoNotSumTo100);
            },
        };
        if i > 0 && input.due_at <= prev_due {
            proof {
                assert(share_pass(inputs@, i + 1) == Err::<u32, ContractError>(ContractError::DatesNotOrdered));
                lemma_share_pass_error_sticks(inputs@, i + 1);
            }
            return Err(ContractError::DatesNotOrdered);
        }
        bps_sum = next;
        prev_due = input.due_at;
        i = i + 1;
    }
    if bps_sum != BPS_DENOMINATOR {
        return Err(ContractError::PercentagesDoNotSumTo100);
    }
    proof {
        lemma_share_pass_sum(inputs@, count as int);
        lemma_bps_prefix_nonneg(inputs@, count as int);
        assert(bps_prefix(inputs@, count as int) as u32 == 10_000u32);
        assert(bps_prefix(inputs@, count as int) == 10_000);
    }
    let mut milestones: Vec<Milestone> = Vec::new();
    let mut allocated: i128 = 0;
    let mut j: usize = 0;
    while j < count
        invariant
            count == inputs@.len(),
            1 <= count <= MAX_MILESTONES,
            j <= count,
            total_amount > 0,
            bps_prefix(inputs@, count as int) == 10_000,
            share_pass(inputs@, count as int) == Ok::<u32, ContractError>(BPS_DENOMINATOR),
            forall|k: int| 0 <= k < j && k < count - 1 ==> total_amount * #[trigger] inputs@[k].percentage_bps
                <= i128::MAX,
            j < count ==> allocated == allotted(total_amount as int, inputs@, j as int),
            milestones@.len() == j,
            forall|k: int| 0 <= k < j ==> #[trigger] milestones@[k] == milestone_of(total_amount, inputs@, k),
        decreases count - j,
    {
        let input = inputs[j];
        proof {
            lemma_allotted_bounded(total_amount as int, inputs@, j as int);
            lemma_bps_prefix_monotone(inputs@, j as int, count as int);
            assert(total_amount * bps_prefix(inputs@, j as int) <= total_amount * 10_000) by (nonlinear_arith)
                requires
                    total_amount > 0,
                    bps_prefix(inputs@, j as int) <= 10_000,
            ;
        }
        let amount: i128 = if j == count - 1 {
            total_amount - allocated
        } else {
            let product = match total_amount.checked_mul(input.percentage_bps as i128) {
                Some(p) => p,
                None => {
                    proof {
                        assert(total_amount * inputs@[j as int].percentage_bps > i128::MAX);
                    }
                    return Err(ContractError::InvalidAmount);
                },
            };
            product / 10_000
        };
        proof {
            let b = input.percentage_bps as int;
            if j < count - 1 {
                assert(0 <= (total_amount * b) / 10_000 <= total_amount * b) by (nonlinear_arith)
                    requires
                        total_amount > 0,
                        b >= 0,
                ;
                lemma_bps_prefix_monotone(inputs@, (j + 1) as int, count as int);
                lemma_allotted_bounded(total_amount as int, inputs@, (j + 1) as int);
                assert(total_amount * bps_prefix(inputs@, (j + 1) as int) <= total_amount * 10_000)
                    by (nonlinear_arith)
                    requires
                        total_amount > 0,
                        bps_prefix(inputs@, (j + 1) as int) <= 10_000,
                ;
            }
        }
        if j < count - 1 {
            allocated = allocated + amount;
        }
        milestones.push(
            Milestone {
                index: j as u32,
                kind: input.kind,
                label_hash: input.label_hash,
                percentage_bps: input.percentage_bps,
                amount,
                due_at: input.due_at,
                verified: false,
                released: false,
            },
        );
        j = j + 1;
    }
    proof {
        assert(milestones@ =~= Seq::new(count as nat, |i: int| milestone_of(total_amount, inputs@, i)));
        assert(!(exists|i: int| 0 <= i < count - 1 && total_amount * #[trigger] inputs@[i].percentage_bps
            > i128::MAX));
        lemma_build_reconciles(total_amount, inputs@);
    }
    Ok(milestones)
}

// ── Contract state ─────────────────────────────────────────────────────────

/// The abstract storage of the milestones contract.
pub struct MilestonesState {
    pub admin: Option<Bytes32>,
    pub schedules: Map<Bytes32, ScheduleView>,
}

pub open spec fn admin_gate(s: MilestonesState, caller: Bytes32) -> Result<(), ContractError> {
    match s.admin {
        None => Err(ContractError::NotInitialized),
        Some(a) => if a == caller {
            Ok(())
        } else {
            Err(ContractError::NotAdmin)
        },
    }
}

pub open spec fn define_spec(
    s: MilestonesState,
    admin: Bytes32,
    award_id: Bytes32,
    total_amount: i128,
    currency: Bytes32,
    inputs: Seq<MilestoneInput>,
    now: u64,
) -> (Result<(), ContractError>, MilestonesState) {
    if admin_gate(s, admin) is Err {
        (Err(admin_gate(s, admin)->Err_0), s)
    } else if s.schedules.contains_key(award_id) {
        (Err(ContractError::ScheduleAlreadyExists), s)
    } else {
        match build_spec(total_amount, inputs) {
            Err(e) => (Err(e), s),
            Ok(ms) => {
                let schedule = ScheduleView {
                    award_id,
                    total_amount,
                    currency,
                    version: 1,
                    active: false,
                    created_at: now,
                    activated_at: 0,
                    amended_at: 0,
                    milestones: ms,
                };
                (Ok(()), MilestonesState { schedules: s.schedules.insert(award_id, schedule), ..s })
            },
        }
    }
}

pub open spec fn activate_spec(s: MilestonesState, admin: Bytes32, award_id: Bytes32, now: u64) -> (
    Result<(), ContractError>,
    MilestonesState,
) {
    if admin_gate(s, admin) is Err {
        (Err(admin_gate(s, admin)->Err_0), s)
    } else if !s.schedules.contains_key(award_id) {
        (Err(ContractError::ScheduleNotFound), s)
    } else if s.schedules[award_id].active {
        (Err(ContractError::ScheduleAlreadyActive), s)
    } else {
        let schedule = ScheduleView { active: true, activated_at: now, ..s.schedules[award_id] };
        (Ok(()), MilestonesState { schedules: s.schedules.insert(award_id, schedule), ..s })
    }
}

/// Whether any milestone has been released.
pub open spec fn any_released(ms: Seq<Milestone>) -> bool {
    exists|i: int| 0 <= i < ms.len() && #[trigger] ms[i].released
}

pub open spec fn amend_spec(
    s: MilestonesState,
    admin: Bytes32,
    award_id: Bytes32,
    total_amount: i128,
    currency: Bytes32,
    inputs: Seq<MilestoneInput>,
    now: u64,
) -> (Result<(), ContractError>, MilestonesState) {
    if admin_gate(s, admin) is Err {
        (Err(admin_gate(s, admin)->Err_0), s)
    } else if !s.schedules.contains_key(award_id) {
        (Err(ContractError::ScheduleNotFound), s)
    } else if !s.schedules[award_id].active {
        (Err(ContractError::ScheduleInactive), s)
    } else if any_released(s.schedules[award_id].milestones) {
        (Err(ContractError::ScheduleLockedAfterDisbursement), s)
    } else {
        match build_spec(total_amount, inputs) {
            Err(e) => (Err(e), s),
            Ok(ms) => if s.schedules[award_id].version == u32::MAX {
                (Err(ContractError::VersionOverflow), s)
            } else {
                let old = s.schedules[award_id];
                let schedule = ScheduleView {
                    total_amount,
                    currency,
                    milestones: ms,
                    version: (old.version + 1) as u32,
                    amended_at: now,
                    ..old
                };
                (Ok(()), MilestonesState { schedules: s.schedules.insert(award_id, schedule), ..s })
            },
        }
    }
}

pub open spec fn verify_spec(s: MilestonesState, admin: Bytes32, award_id: Bytes32, index: u32) -> (
    Result<(), ContractError>,
    MilestonesState,
) {
    if admin_gate(s, admin) is Err {
        (Err(admin_gate(s, admin)->Err_0), s)
    } else if !s.schedules.contains_key(award_id) {
        (Err(ContractError::ScheduleNotFound), s)
    } else if !s.schedules[award_id].active {
        (Err(ContractError::ScheduleInactive), s)
    } else if index >= s.schedules[award_id].milestones.len() {
        (Err(ContractError::MilestoneIndexOutOfRange), s)
    } else if s.schedules[award_id].milestones[index as int].verified {
        (Err(ContractError::MilestoneAlreadyVerified), s)
    } else {
        let old = s.schedules[award_id];
        let m = Milestone { verified: true, ..old.milestones[index as int] };
        let schedule = ScheduleView { milestones: old.milestones.update(index as int, m), ..old };
        (Ok(()), MilestonesState { schedules: s.schedules.insert(award_id, schedule), ..s })
    }
}

pub open spec fn release_spec(s: MilestonesState, admin: Bytes32, award_id: Bytes32, index: u32, now: u64) -> (
    Result<(), ContractError>,
    MilestonesState,
) {
    if admin_gate(s, admin) is Err {
        (Err(admin_gate(s, admin)->Err_0), s)
    } else if !s.schedules.contains_key(award_id) {
        (Err(ContractError::ScheduleNotFound), s)
    } else if !s.schedules[award_id].active {
        (Err(ContractError::ScheduleInactive), s)
    } else if index >= s.schedules[award_id].milestones.len() {
        (Err(ContractError::MilestoneIndexOutOfRange), s)
    } else if s.schedules[award_id].milestones[index as int].released {
        (Err(ContractError::MilestoneAlreadyReleased), s)
    } else if !s.schedules[award_id].milestones[index as int].verified {
        (Err(ContractError::MilestoneNotVerified), s)
    } else if exists|j: int| 0 <= j < index && !(#[trigger] s.schedules[award_id].milestones[j]).released {
        (Err(ContractError::OutOfOrderRelease), s)
    } else if now < s.schedules[award_id].milestones[index as int].due_at {
        (Err(ContractError::MilestoneNotDue), s)
    } else {
        let old = s.schedules[award_id];
        let m = Milestone { released: true, ..old.milestones[index as int] };
        let schedule = ScheduleView { milestones: old.milestones.update(index as int, m), ..old };
        (Ok(()), MilestonesState { schedules: s.schedules.insert(award_id, schedule), ..s })
    }
}

/// The milestones contract's storage.
pub struct ScholarshipMilestonesContract {
    admin: Option<Bytes32>,
    schedules: Table<Bytes32, MilestoneSchedule>,
}

impl ScholarshipMilestonesContract {
    /// Every stored schedule reconciles to its award.
    pub closed spec fn wf(&self) -> bool {
        &&& self.schedules.wf()
        &&& forall|k: Bytes32| #[trigger] self@.schedules.contains_key(k) ==> reconciles(
            self@.schedules[k].total_amount,
            self@.schedules[k].milestones,
        ) && self@.schedules[k].award_id == k
    }

    pub closed spec fn view(&self) -> MilestonesState {
        MilestonesState {
            admin: self.admin,
            schedules: self.schedules.view().map_values(|s: MilestoneSchedule| s@),
        }
    }

    pub fn new() -> (c: Self)
        ensures
            c.wf(),
            c@.admin is None,
            c@.schedules == Map::<Bytes32, ScheduleView>::empty(),
    {
        let c = ScholarshipMilestonesContract { admin: None, schedules: Table::new() };
        proof {
            assert(c@.schedules =~= Map::<Bytes32, ScheduleView>::empty());
        }
        c
    }

    pub fn initialize(&mut self, admin: Bytes32) -> (r: Result<(), ContractError>)
        requires
            old(self).wf(),
        ensures
            final(self).wf(),
            old(self)@.admin is Some ==> r == Err::<(), ContractError>(ContractError::AlreadyInitialized)
                && final(self)@ == old(self)@,
            old(self)@.admin is None ==> r == Ok::<(), ContractError>(()) && final(self)@ == (MilestonesState {
                admin: Some(admin),
                ..old(self)@
            }),
    {
        if self.admin.is_some() {
            return Err(ContractError::AlreadyInitialized);
        }
        self.admin = Some(admin);
        Ok(())
    }

    fn require_admin(&self, caller: &Bytes32) -> (r: Result<(), ContractError>)
        ensures
            r == admin_gate(self@, *caller),
    {
        match &self.admin {
            None => Err(ContractError::NotInitialized),
            Some(a) => if bytes32_eq(a, caller) {
                Ok(())
            } else {
                Err(ContractError::NotAdmin)
            },
        }
    }

    fn load(&self, award_id: &Bytes32) -> (r: Result<MilestoneSchedule, ContractError>)
        requires
            self.wf(),
        ensures
            r matches Ok(x) ==> self@.schedules.contains_key(*award_id) && x@ == self@.schedules[*award_id],
            r matches Err(e) ==> !self@.schedules.contains_key(*award_id) && e == ContractError::ScheduleNotFound,
    {
        match self.schedules.get(award_id) {
            Some(s) => Ok(s.clone()),
            None => Err(ContractError::ScheduleNotFound),
        }
    }

    fn put(&mut self, schedule: MilestoneSchedule)
        requires
            old(self).wf(),
            reconciles(schedule.total_amount, schedule.milestones@),
        ensures
            final(self).wf(),
            final(self)@ == (MilestonesState {
                schedules: old(self)@.schedules.insert(schedule.award_id, schedule@),
                ..old(self)@
            }),
    {
        let ghost before = self@;
        let ghost sv = schedule@;
        let award_id = schedule.award_id;
        self.schedules.insert(award_id, schedule);
        proof {
            assert(self@.schedules =~= before.schedules.insert(award_id, sv));
            assert forall|k: Bytes32| #[trigger] self@.schedules.contains_key(k) implies reconciles(
                self@.schedules[k].total_amount,
                self@.schedules[k].milestones,
            ) && self@.schedules[k].award_id == k by {
                if k != award_id {
                    assert(before.schedules.contains_key(k));
                }
            }
        }
    }

    /// Defines a new, inactive schedule for an award.
    pub fn define_schedule(
        &mut self,
        admin: Bytes32,
        award_id: Bytes32,
        total_amount: i128,
        currency: Bytes32,
        inputs: Vec<MilestoneInput>,
        now: u64,
    ) -> (r: Result<(), ContractError>)
        requires
            old(self).wf(),
        ensures
            final(self).wf(),
            (r, final(self)@) == define_spec(old(self)@, admin, award_id, total_amount, currency, inputs@, now),
    {
        match self.require_admin(&admin) {
            Err(e) => return Err(e),
            Ok(()) => {},
        }
        if self.schedules.contains_key(&award_id) {
            return Err(ContractError::ScheduleAlreadyExists);
        }
        let milestones = match build_milestones(total_amount, &inputs) {
            Ok(ms) => ms,
            Err(e) => return Err(e),
        };
        self.put(
            MilestoneSchedule {
                award_id,
                total_amount,
                currency,
                version: 1,
                active: false,
                created_at: now,
                activated_at: 0,
                amended_at: 0,
                milestones,
            },
        );
        Ok(())
    }

    /// Activates a schedule, exactly once.
    pub fn activate_schedule(&mut self, admin: Bytes32, award_id: Bytes32, now: u64) -> (r: Result<(), ContractError>)
        requires
            old(self).wf(),
        ensures
            final(self).wf(),
            (r, final(self)@) == activate_spec(old(self)@, admin, award_id, now),
    {
        match self.require_admin(&admin) {
            Err(e) => return Err(e),
            Ok(()) => {},
        }
        let mut schedule = match self.load(&award_id) {
            Ok(s) => s,
            Err(e) => return Err(e),
        };
        if schedule.active {
            return Err(ContractError::ScheduleAlreadyActive);
        }
        schedule.active = true;
        schedule.activated_at = now;
        self.put(schedule);
        Ok(())
    }

    /// Replaces an active schedule's milestones, before anything has been
    /// released, bumping its version.
    pub fn amend_schedule(
        &mut self,
        admin: Bytes32,
        award_id: Bytes32,
        total_amount: i128,
        currency: Bytes32,
        inputs: Vec<MilestoneInput>,
        now: u64,
    ) -> (r: Result<(), ContractError>)
        requires
            old(self).wf(),
        ensures
            final(self).wf(),
            (r, final(self)@) == amend_spec(old(self)@, admin, award_id, total_amount, currency, inputs@, now),
    {
        match self.require_admin(&admin) {
            Err(e) => return Err(e),
            Ok(()) => {},
        }
        let mut schedule = match self.load(&award_id) {
            Ok(s) => s,
            Err(e) => return Err(e),
        };
        if !schedule.active {
            return Err(ContractError::ScheduleInactive);
        }
        let mut i: usize = 0;
        while i < schedule.milestones.len()
            invariant
                self.wf(),
                self@ == old(self)@,
                admin_gate(old(self)@, admin) is Ok,
                old(self)@.schedules.contains_key(award_id),
                schedule@ == old(self)@.schedules[award_id],
                schedule.active,
                i <= schedule.milestones@.len(),
                forall|k: int| 0 <= k < i ==> !(#[trigger] schedule.milestones@[k]).released,
            decreases schedule.milestones@.len() - i,
        {
            if schedule.milestones[i].released {
                return Err(ContractError::ScheduleLockedAfterDisbursement);
            }
            i = i + 1;
        }
        let milestones = match build_milestones(total_amount, &inputs) {
            Ok(ms) => ms,
            Err(e) => return Err(e),
        };
        let version = match schedule.version.checked_add(1) {
            Some(v) => v,
            None => return Err(ContractError::VersionOverflow),
        };
        schedule.total_amount = total_amount;
        schedule.currency = currency;
        schedule.milestones = milestones;
        schedule.version = version;
        schedule.amended_at = now;
        self.put(schedule);
        Ok(())
    }

    pub fn get_schedule(&self, award_id: Bytes32) -> (r: Result<MilestoneSchedule, ContractError>)
        requires
            self.wf(),
        ensures
            r matches Ok(x) ==> self@.schedules.contains_key(award_id) && x@ == self@.schedules[award_id],
            r matches Err(e) ==> !self@.schedules.contains_key(award_id) && e == ContractError::ScheduleNotFound,
    {
        self.load(&award_id)
    }

    pub fn get_milestone(&self, award_id: Bytes32, index: u32) -> (r: Result<Milestone, ContractError>)
        requires
            self.wf(),
        ensures
            r == if !self@.schedules.contains_key(award_id) {
                Err::<Milestone, ContractError>(ContractError::ScheduleNotFound)
            } else if index >= self@.schedules[award_id].milestones.len() {
                Err(ContractError::MilestoneIndexOutOfRange)
            } else {
                Ok(self@.schedules[award_id].milestones[index as int])
            },
    {
        let schedule = match self.schedules.get(&award_id) {
            Some(s) => s,
            None => return Err(ContractError::ScheduleNotFound),
        };
        if index as usize >= schedule.milestones.len() {
            return Err(ContractError::MilestoneIndexOutOfRange);
        }
        Ok(schedule.milestones[index as usize])
    }

    /// Marks a milestone verified, which allows its release.
    pub fn verify_milestone(&mut self, admin: Bytes32, award_id: Bytes32, index: u32) -> (r: Result<(), ContractError>)
        requires
            old(self).wf(),
        ensures
            final(self).wf(),
            (r, final(self)@) == verify_spec(old(self)@, admin, award_id, index),
    {
        match self.require_admin(&admin) {
            Err(e) => return Err(e),
            Ok(()) => {},
        }
        let mut schedule = match self.load(&award_id) {
            Ok(s) => s,
            Err(e) => return Err(e),
        };
        if !schedule.active {
            return Err(ContractError::ScheduleInactive);
        }
        if index as usize >= schedule.milestones.len() {
            return Err(ContractError::MilestoneIndexOutOfRange);
        }
        let m = schedule.milestones[index as usize];
        if m.verified {
            return Err(ContractError::MilestoneAlreadyVerified);
        }
        let ghost old_ms = schedule.milestones@;
        schedule.milestones.set(index as usize, Milestone { verified: true, ..m });
        proof {
            lemma_update_keeps_reconciled(schedule.total_amount, old_ms, index as int, Milestone { verified: true, ..m });
        }
        self.put(schedule);
        Ok(())
    }

    /// Releases a verified milestone, after every earlier one, at or after
    /// its due time `due_at`; `now` is the ledger time.
    pub fn release_milestone(&mut self, admin: Bytes32, award_id: Bytes32, index: u32, now: u64) -> (r: Result<
        (),
        ContractError,
    >)
        requires
            old(self).wf(),
        ensures
            final(self).wf(),
            (r, final(self)@) == release_spec(old(self)@, admin, award_id, index, now),
    {
        match self.require_admin(&admin) {
            Err(e) => return Err(e),
            Ok(()) => {},
        }
        let mut schedule = match self.load(&award_id) {
            Ok(s) => s,
            Err(e) => return Err(e),
        };
        if !schedule.active {
            return Err(ContractError::ScheduleInactive);
        }
        if index as usize >= schedule.milestones.len() {
            return Err(ContractError::MilestoneIndexOutOfRange);
        }
        let m = schedule.milestones[index as usize];
        if m.released {
            return Err(ContractError::MilestoneAlreadyReleased);
        }
        if !m.verified {
            return Err(ContractError::MilestoneNotVerified);
        }
        let mut j: usize = 0;
        while j < index as usize
            invariant
                self.wf(),
                self@ == old(self)@,
                admin_gate(old(self)@, admin) is Ok,
                old(self)@.schedules.contains_key(award_id),
                schedule@ == old(self)@.schedules[award_id],
                schedule.active,
                m == schedule.milestones@[index as int],
                !m.released,
                m.verified,
                index < schedule.milestones@.len(),
                j <= index,
                forall|k: int| 0 <= k < j ==> (#[trigger] schedule.milestones@[k]).released,
            decreases index - j,
        {
            if !schedule.milestones[j].released {
                proof {
                    assert(!old(self)@.schedules[award_id].milestones[j as int].released);
                }
                return Err(ContractError::OutOfOrderRelease);
            }
            j = j + 1;
        }
        if now < m.due_at {
            return Err(ContractError::MilestoneNotDue);
        }
        let ghost old_ms = schedule.milestones@;
        schedule.milestones.set(index as usize, Milestone { released: true, ..m });
        proof {
            lemma_update_keeps_reconciled(schedule.total_amount, old_ms, index as int, Milestone { released: true, ..m });
        }
        self.put(schedule);
        Ok(())
    }

    /// The total already released across a schedule.
    pub fn released_total(&self, award_id: Bytes32) -> (r: Result<i128, ContractError>)
        requires
            self.wf(),
        ensures
            r == if self@.schedules.contains_key(award_id) {
                Ok::<i128, ContractError>(
                    released_sum(self@.schedules[award_id].milestones, self@.schedules[award_id].milestones.len() as int)
                        as i128,
                )
            } else {
                Err(ContractError::ScheduleNotFound)
            },
            r matches Ok(t) ==> 0 <= t <= self@.schedules[award_id].total_amount,
            self@.schedules.contains_key(award_id) ==> 0 <= released_sum(
                self@.schedules[award_id].milestones,
                self@.schedules[award_id].milestones.len() as int,
            ) <= self@.schedules[award_id].total_amount,
    {
        let schedule = match self.schedules.get(&award_id) {
            Some(s) => s,
            None => return Err(ContractError::ScheduleNotFound),
        };
        proof {
            assert(self@.schedules.contains_key(award_id));
            assert(schedule@ == self@.schedules[award_id]);
        }
        let ghost ms = schedule.milestones@;
        let mut total: i128 = 0;
        let mut i: usize = 0;
        while i < schedule.milestones.len()
            invariant
                ms == schedule.milestones@,
                reconciles(schedule.total_amount, ms),
                i <= ms.len(),
                total == released_sum(ms, i as int),
                0 <= released_sum(ms, i as int) <= amount_sum(ms, i as int),
            decreases ms.len() - i,
        {
            proof {
                lemma_amount_prefix_bound(ms, (i + 1) as int);
            }
            let m = schedule.milestones[i];
            if m.released {
                total = total + m.amount;
            }
            i = i + 1;
        }
        proof {
            lemma_amount_prefix_bound(ms, ms.len() as int);
        }
        Ok(total)
    }

    /// The amount still to be released.
    pub fn remaining_amount(&self, award_id: Bytes32) -> (r: Result<i128, ContractError>)
        requires
            self.wf(),
        ensures
            r == if self@.schedules.contains_key(award_id) {
                Ok::<i128, ContractError>(
                    (self@.schedules[award_id].total_amount - released_sum(
                        self@.schedules[award_id].milestones,
                        self@.schedules[award_id].milestones.len() as int,
                    )) as i128,
                )
            } else {
                Err(ContractError::ScheduleNotFound)
            },
            r matches Ok(t) ==> t >= 0,
    {
        let released = match self.released_total(award_id) {
            Ok(t) => t,
            Err(e) => return Err(e),
        };
        let total = match self.schedules.get(&award_id) {
            Some(s) => {
                proof {
                    assert(self@.schedules.contains_key(award_id));
                    assert(s@ == self@.schedules[award_id]);
                }
                s.total_amount
            },
            None => return Err(ContractError::ScheduleNotFound),
        };
        Ok(total - released)
    }

    pub fn version() -> (v: u32)
        ensures
            v == CONTRACT_VERSION,
    {
        CONTRACT_VERSION
    }
}

proof fn lemma_amount_sum_update(ms: Seq<Milestone>, i: int, m: Milestone, n: int)
    requires
        0 <= i < ms.len(),
        m.amount == ms[i].amount,
        0 <= n <= ms.len(),
    ensures
        amount_sum(ms.update(i, m), n) == amount_sum(ms, n),
    decreases n,
{
    if n > 0 {
        lemma_amount_sum_update(ms, i, m, n - 1);
    }
}

proof fn lemma_update_keeps_reconciled(total: i128, ms: Seq<Milestone>, i: int, m: Milestone)
    requires
        reconciles(total, ms),
        0 <= i < ms.len(),
        m.amount == ms[i].amount,
    ensures
        reconciles(total, ms.update(i, m)),
{
    lemma_amount_sum_update(ms, i, m, ms.len() as int);
}

/// The amounts of a prefix of a reconciled schedule stay between zero and
/// the award, and so do the released amounts among them.
proof fn lemma_amount_prefix_bound(ms: Seq<Milestone>, n: int)
    requires
        forall|i: int| 0 <= i < ms.len() ==> #[trigger] ms[i].amount >= 0,
        0 <= n <= ms.len(),
    ensures
        0 <= released_sum(ms, n) <= amount_sum(ms, n) <= amount_sum(ms, ms.len() as int),
    decreases ms.len() - n,
{
    lemma_released_le_amount(ms, n);
    if n < ms.len() {
        lemma_amount_prefix_bound(ms, n + 1);
    }
}

proof fn lemma_released_le_amount(ms: Seq<Milestone>, n: int)
    requires
        forall|i: int| 0 <= i < ms.len() ==> #[trigger] ms[i].amount >= 0,
        0 <= n <= ms.len(),
    ensures
        0 <= released_sum(ms, n) <= amount_sum(ms, n),
    decreases n,
{
    if n > 0 {
        lemma_released_le_amount(ms, n - 1);
    }
}

/// A successful build yields one milestone per input, in input order, with
/// strictly increasing dates and amounts that add up to the award exactly.
pub proof fn lemma_amounts_reconcile_to_the_award(total: i128, inputs: Seq<MilestoneInput>)
    requires
        build_spec(total, inputs) is Ok,
    ensures
        ({
            let ms = build_spec(total, inputs)->Ok_0;
            &&& ms.len() == inputs.len()
            &&& amount_sum(ms, ms.len() as int) == total
            &&& forall|i: int| 0 <= i < ms.len() ==> #[trigger] ms[i].amount >= 0
            &&& forall|i: int, j: int| 0 <= i < j < ms.len() ==> ms[i].due_at < ms[j].due_at
        }),
{
    lemma_build_reconciles(total, inputs);
    lemma_share_pass_sum(inputs, inputs.len() as int);
}

/// Released milestones always form a prefix of the schedule: if they did
/// before a release, they do after it.
pub proof fn lemma_releases_stay_in_order(s: MilestonesState, admin: Bytes32, award_id: Bytes32, index: u32, now: u64)
    requires
        s.schedules.contains_key(award_id),
        forall|i: int, j: int|
            0 <= i < j < s.schedules[award_id].milestones.len() && (#[trigger] s.schedules[award_id].milestones[j]).released
                ==> (#[trigger] s.schedules[award_id].milestones[i]).released,
    ensures
        ({
            let t = release_spec(s, admin, award_id, index, now).1;
            forall|i: int, j: int|
                0 <= i < j < t.schedules[award_id].milestones.len() && (#[trigger] t.schedules[award_id].milestones[j]).released
                    ==> (#[trigger] t.schedules[award_id].milestones[i]).released
        }),
{
}

/// A schedule with a released milestone cannot be amended: its
/// disbursement history is never rewritten.
pub proof fn lemma_disbursed_schedule_is_locked(
    s: MilestonesState,
    admin: Bytes32,
    award_id: Bytes32,
    total_amount: i128,
    currency: Bytes32,
    inputs: Seq<MilestoneInput>,
    now: u64,
    index: int,
)
    requires
        admin_gate(s, admin) is Ok,
        s.schedules.contains_key(award_id),
        s.schedules[award_id].active,
        0 <= index < s.schedules[award_id].milestones.len(),
        s.schedules[award_id].milestones[index].released,
    ensures
        amend_spec(s, admin, award_id, total_amount, currency, inputs, now) == (
            Err::<(), ContractError>(ContractError::ScheduleLockedAfterDisbursement),
            s,
        ),
{
}

/// A milestone is never released before it is due: a release before
/// `due_at` is refused and changes nothing, and a successful release marks
/// exactly that milestone released.
pub proof fn lemma_no_release_before_due(s: MilestonesState, admin: Bytes32, award_id: Bytes32, index: u32, now: u64)
    ensures
        release_spec(s, admin, award_id, index, now).0 is Ok ==> ({
            let t = release_spec(s, admin, award_id, index, now).1;
            &&& now >= s.schedules[award_id].milestones[index as int].due_at
            &&& t.schedules[award_id].milestones == s.schedules[award_id].milestones.update(
                index as int,
                Milestone { released: true, ..s.schedules[award_id].milestones[index as int] },
            )
        }),
        release_spec(s, admin, award_id, index, now).0 is Err ==> release_spec(s, admin, award_id, index, now).1
            == s,
        s.schedules.contains_key(award_id) && index < s.schedules[award_id].milestones.len() && now
            < s.schedules[award_id].milestones[index as int].due_at ==> release_spec(
            s,
            admin,
            award_id,
            index,
            now,
        ).0 is Err,
{
}

} // verus!
