//! Scholarship program configuration: application windows and award budgets.
//!
//! An admin defines a program's application window and its award inventory;
//! callers check window state deterministically against the ledger time and
//! reserve or release award slots without ever over-committing capacity or
//! budget.
use vstd::prelude::*;
use crate::table::{Bytes32, Table, bytes32_eq};
use crate::math::fits_i128;

verus! {

pub const CONTRACT_VERSION: u32 = 1;

#[derive(Copy, Clone, Debug, PartialEq, Eq, Structural)]
pub enum ContractError {
    NotInitialized,
    AlreadyInitialized,
    NotAdmin,
    /// `opens_at` must be strictly before `closes_at`.
    InvalidWindow,
    WindowNotFound,
    /// `closes_at + grace_period_seconds` would overflow.
    WindowOverflow,
    BudgetNotFound,
    /// Recipients and per-award amount must be positive and the budget must
    /// cover all of them.
    InvalidBudgetConfig,
    /// Another award would exceed `max_recipients`.
    CapacityExceeded,
    /// Another award would exceed `total_budget`.
    BudgetExceeded,
    /// Nothing is reserved to release.
    NoAwardsReserved,
    /// The budget already has reserved awards and may not be replaced.
    BudgetAlreadyCommitted,
}

impl ContractError {
    /// The stable numeric code a client sees.
    pub fn code(self) -> (c: u32)
        ensures
            c == match self {
                ContractError::NotInitialized => 1u32,
                ContractError::AlreadyInitialized => 2u32,
                ContractError::NotAdmin => 3u32,
                ContractError::InvalidWindow => 4u32,
                ContractError::WindowNotFound => 5u32,
                ContractError::WindowOverflow => 6u32,
                ContractError::BudgetNotFound => 7u32,
                ContractError::InvalidBudgetConfig => 8u32,
                ContractError::CapacityExceeded => 9u32,
                ContractError::BudgetExceeded => 10u32,
                ContractError::NoAwardsReserved => 11u32,
                ContractError::BudgetAlreadyCommitted => 12u32,
            },
    {
        match self {
            ContractError::NotInitialized => 1,
            ContractError::AlreadyInitialized => 2,
            ContractError::NotAdmin => 3,
            ContractError::InvalidWindow => 4,
            ContractError::WindowNotFound => 5,
            ContractError::WindowOverflow => 6,
            ContractError::BudgetNotFound => 7,
            ContractError::InvalidBudgetConfig => 8,
            ContractError::CapacityExceeded => 9,
            ContractError::BudgetExceeded => 10,
            ContractError::NoAwardsReserved => 11,
            ContractError::BudgetAlreadyCommitted => 12,
        }
    }
}

/// A program's application window. Times are ledger seconds (UTC);
/// `timezone_offset_minutes` is display metadata only.
#[derive(Copy, Clone, Debug, PartialEq, Eq, Structural)]
pub struct ProgramWindow {
    pub opens_at: u64,
    pub closes_at: u64,
    pub timezone_offset_minutes: i32,
    pub grace_period_seconds: u64,
}

/// A program's award inventory and budget ceiling.
#[derive(Copy, Clone, Debug, PartialEq, Eq, Structural)]
pub struct AwardBudget {
    pub max_recipients: u32,
    pub per_award_amount: i128,
    pub total_budget: i128,
    pub awarded_count: u32,
    pub committed_amount: i128,
}

/// The budget's bookkeeping is consistent: what is committed is exactly one
/// award amount per reserved slot, and neither ceiling is exceeded.
pub open spec fn budget_consistent(b: AwardBudget) -> bool {
    &&& b.committed_amount == b.awarded_count * b.per_award_amount
    &&& b.awarded_count <= b.max_recipients
    &&& b.committed_amount <= b.total_budget
    &&& b.per_award_amount > 0
}

/// One more reserved award, or the reason there cannot be one.
pub open spec fn reserve_step(b: AwardBudget) -> Result<AwardBudget, ContractError> {
    if b.awarded_count >= b.max_recipients {
        Err(ContractError::CapacityExceeded)
    } else if !fits_i128(b.committed_amount + b.per_award_amount)
        || b.committed_amount + b.per_award_amount > b.total_budget {
        Err(ContractError::BudgetExceeded)
    } else {
        Ok(
            AwardBudget {
                awarded_count: (b.awarded_count + 1) as u32,
                committed_amount: (b.committed_amount + b.per_award_amount) as i128,
                ..b
            },
        )
    }
}

/// One fewer reserved award, or the reason there cannot be one.
pub open spec fn release_step(b: AwardBudget) -> Result<AwardBudget, ContractError> {
    if b.awarded_count == 0 {
        Err(ContractError::NoAwardsReserved)
    } else if !fits_i128(b.committed_amount - b.per_award_amount) {
        Err(ContractError::NoAwardsReserved)
    } else {
        Ok(
            AwardBudget {
                awarded_count: (b.awarded_count - 1) as u32,
                committed_amount: (b.committed_amount - b.per_award_amount) as i128,
                ..b
            },
        )
    }
}

/// Whether a new budget configuration is acceptable on its own terms.
pub open spec fn budget_config_ok(max_recipients: u32, per_award_amount: i128, total_budget: i128) -> bool {
    &&& max_recipients > 0
    &&& per_award_amount > 0
    &&& total_budget > 0
    &&& max_recipients * per_award_amount <= i128::MAX
    &&& max_recipients * per_award_amount <= total_budget
}

pub open spec fn admin_check(admin: Option<Bytes32>, caller: Bytes32) -> Result<(), ContractError> {
    match admin {
        None => Err(ContractError::NotInitialized),
        Some(a) => if a == caller {
            Ok(())
        } else {
            Err(ContractError::NotAdmin)
        },
    }
}

/// The programs contract's storage.
pub struct ScholarshipProgramsContract {
    admin: Option<Bytes32>,
    windows: Table<Bytes32, ProgramWindow>,
    budgets: Table<Bytes32, AwardBudget>,
}

impl ScholarshipProgramsContract {
    pub closed spec fn wf(&self) -> bool {
        self.windows.wf() && self.budgets.wf()
    }

    pub closed spec fn admin(&self) -> Option<Bytes32> {
        self.admin
    }

    pub closed spec fn windows(&self) -> Map<Bytes32, ProgramWindow> {
        self.windows.view()
    }

    pub closed spec fn budgets(&self) -> Map<Bytes32, AwardBudget> {
        self.budgets.view()
    }

    pub fn new() -> (s: Self)
        ensures
            s.wf(),
            s.admin() is None,
            s.windows() == Map::<Bytes32, ProgramWindow>::empty(),
            s.budgets() == Map::<Bytes32, AwardBudget>::empty(),
    {
        ScholarshipProgramsContract { admin: None, windows: Table::new(), budgets: Table::new() }
    }

    pub fn initialize(&mut self, admin: Bytes32) -> (r: Result<(), ContractError>)
        requires
            old(self).wf(),
        ensures
            final(self).wf(),
            old(self).admin() is Some ==> r == Err::<(), ContractError>(ContractError::AlreadyInitialized)
                && final(self).admin() == old(self).admin(),
            old(self).admin() is None ==> r == Ok::<(), ContractError>(()) && final(self).admin() == Some(admin),
            final(self).windows() == old(self).windows(),
            final(self).budgets() == old(self).budgets(),
    {
        if self.admin.is_some() {
            return Err(ContractError::AlreadyInitialized);
        }
        self.admin = Some(admin);
        Ok(())
    }

    fn require_admin(&self, caller: &Bytes32) -> (r: Result<(), ContractError>)
        ensures
            r == admin_check(self.admin(), *caller),
    {
        match &self.admin {
            None => Err(ContractError::NotInitialized),
            Some(a) => if bytes32_eq(a, caller) {
                Ok(())
            } else {
                Err(ContractError::NotAdmin)
            },
        }
    }

    /// Admin-only: create or replace a program's application window.
    pub fn set_program_window(
        &mut self,
        caller: Bytes32,
        program_id: Bytes32,
        opens_at: u64,
        closes_at: u64,
        timezone_offset_minutes: i32,
        grace_period_seconds: u64,
    ) -> (r: Result<(), ContractError>)
        requires
            old(self).wf(),
        ensures
            final(self).wf(),
            final(self).admin() == old(self).admin(),
            final(self).budgets() == old(self).budgets(),
            r == if admin_check(old(self).admin(), caller) is Err {
                admin_check(old(self).admin(), caller)
            } else if opens_at >= closes_at {
                Err(ContractError::InvalidWindow)
            } else if closes_at + grace_period_seconds > u64::MAX {
                Err(ContractError::WindowOverflow)
            } else {
                Ok::<(), ContractError>(())
            },
            r is Ok ==> final(self).windows() == old(self).windows().insert(
                program_id,
                ProgramWindow { opens_at, closes_at, timezone_offset_minutes, grace_period_seconds },
            ),
            r is Err ==> final(self).windows() == old(self).windows(),
    {
        match self.require_admin(&caller) {
            Err(e) => return Err(e),
            Ok(()) => {},
        }
        if opens_at >= closes_at {
            return Err(ContractError::InvalidWindow);
        }
        if closes_at.checked_add(grace_period_seconds).is_none() {
            return Err(ContractError::WindowOverflow);
        }
        let window = ProgramWindow { opens_at, closes_at, timezone_offset_minutes, grace_period_seconds };
        self.windows.insert(program_id, window);
        Ok(())
    }

    pub fn get_program_window(&self, program_id: Bytes32) -> (r: Result<ProgramWindow, ContractError>)
        requires
            self.wf(),
        ensures
            self.windows().contains_key(program_id) ==> r == Ok::<ProgramWindow, ContractError>(
                self.windows()[program_id],
            ),
            !self.windows().contains_key(program_id) ==> r == Err::<ProgramWindow, ContractError>(
                ContractError::WindowNotFound,
            ),
    {
        match self.windows.get(&program_id) {
            Some(w) => Ok(*w),
            None => Err(ContractError::WindowNotFound),
        }
    }

    /// Whether `now` falls within `[opens_at, closes_at]`, inclusive.
    pub fn is_open(&self, program_id: Bytes32, now: u64) -> (r: Result<bool, ContractError>)
        requires
            self.wf(),
        ensures
            self.windows().contains_key(program_id) ==> r == Ok::<bool, ContractError>(
                self.windows()[program_id].opens_at <= now <= self.windows()[program_id].closes_at,
            ),
            !self.windows().contains_key(program_id) ==> r == Err::<bool, ContractError>(
                ContractError::WindowNotFound,
            ),
    {
        let window = match self.get_program_window(program_id) {
            Ok(w) => w,
            Err(e) => return Err(e),
        };
        Ok(now >= window.opens_at && now <= window.closes_at)
    }

    /// Whether `now` is after `closes_at` but still within the grace period.
    pub fn is_within_grace(&self, program_id: Bytes32, now: u64) -> (r: Result<bool, ContractError>)
        requires
            self.wf(),
        ensures
            !self.windows().contains_key(program_id) ==> r == Err::<bool, ContractError>(
                ContractError::WindowNotFound,
            ),
            self.windows().contains_key(program_id) ==> ({
                let w = self.windows()[program_id];
                r == if now <= w.closes_at {
                    Ok::<bool, ContractError>(false)
                } else if w.closes_at + w.grace_period_seconds > u64::MAX {
                    Err(ContractError::WindowOverflow)
                } else {
                    Ok(now <= w.closes_at + w.grace_period_seconds)
                }
            }),
    {
        let window = match self.get_program_window(program_id) {
            Ok(w) => w,
            Err(e) => return Err(e),
        };
        if now <= window.closes_at {
            return Ok(false);
        }
        match window.closes_at.checked_add(window.grace_period_seconds) {
            Some(grace_end) => Ok(now <= grace_end),
            None => Err(ContractError::WindowOverflow),
        }
    }

    /// Admin-only: configure, or replace before any award is reserved, a
    /// program's award inventory.
    pub fn configure_award_budget(
        &mut self,
        caller: Bytes32,
        program_id: Bytes32,
        max_recipients: u32,
        per_award_amount: i128,
        total_budget: i128,
    ) -> (r: Result<(), ContractError>)
        requires
            old(self).wf(),
        ensures
            final(self).wf(),
            final(self).admin() == old(self).admin(),
            final(self).windows() == old(self).windows(),
            r == if admin_check(old(self).admin(), caller) is Err {
                admin_check(old(self).admin(), caller)
            } else if !budget_config_ok(max_recipients, per_award_amount, total_budget) {
                Err(ContractError::InvalidBudgetConfig)
            } else if old(self).budgets().contains_key(program_id) && (
            old(self).budgets()[program_id].awarded_count > 0
                || old(self).budgets()[program_id].committed_amount > 0) {
                Err(ContractError::BudgetAlreadyCommitted)
            } else {
                Ok::<(), ContractError>(())
            },
            r is Ok ==> final(self).budgets() == old(self).budgets().insert(
                program_id,
                AwardBudget { max_recipients, per_award_amount, total_budget, awarded_count: 0, committed_amount: 0 },
            ),
            r is Err ==> final(self).budgets() == old(self).budgets(),
    {
        match self.require_admin(&caller) {
            Err(e) => return Err(e),
            Ok(()) => {},
        }
        if max_recipients == 0 || per_award_amount <= 0 || total_budget <= 0 {
            return Err(ContractError::InvalidBudgetConfig);
        }
        let required = match (max_recipients as i128).checked_mul(per_award_amount) {
            Some(v) => v,
            None => return Err(ContractError::InvalidBudgetConfig),
        };
        if required > total_budget {
            return Err(ContractError::InvalidBudgetConfig);
        }
        match self.budgets.get(&program_id) {
            Some(existing) => {
                if existing.awarded_count > 0 || existing.committed_amount > 0 {
                    return Err(ContractError::BudgetAlreadyCommitted);
                }
            },
            None => {},
        }
        let budget = AwardBudget {
            max_recipients,
            per_award_amount,
            total_budget,
            awarded_count: 0,
            committed_amount: 0,
        };
        self.budgets.insert(program_id, budget);
        Ok(())
    }

    /// Admin-only: atomically reserve one award slot. Returns the new
    /// awarded count.
    pub fn reserve_award(&mut self, caller: Bytes32, program_id: Bytes32) -> (r: Result<u32, ContractError>)
        requires
            old(self).wf(),
        ensures
            final(self).wf(),
            final(self).admin() == old(self).admin(),
            final(self).windows() == old(self).windows(),
            admin_check(old(self).admin(), caller) matches Err(e) ==> r == Err::<u32, ContractError>(e)
                && final(self).budgets() == old(self).budgets(),
            admin_check(old(self).admin(), caller) is Ok && !old(self).budgets().contains_key(program_id)
                ==> r == Err::<u32, ContractError>(ContractError::BudgetNotFound) && final(self).budgets()
                == old(self).budgets(),
            admin_check(old(self).admin(), caller) is Ok && old(self).budgets().contains_key(program_id)
                ==> match reserve_step(old(self).budgets()[program_id]) {
                Ok(b) => r == Ok::<u32, ContractError>(b.awarded_count) && final(self).budgets() == old(
                    self,
                ).budgets().insert(program_id, b),
                Err(e) => r == Err::<u32, ContractError>(e) && final(self).budgets() == old(self).budgets(),
            },
    {
        match self.require_admin(&caller) {
            Err(e) => return Err(e),
            Ok(()) => {},
        }
        let mut budget = match self.budgets.get(&program_id) {
            Some(b) => *b,
            None => return Err(ContractError::BudgetNotFound),
        };
        if budget.awarded_count >= budget.max_recipients {
            return Err(ContractError::CapacityExceeded);
        }
        let new_committed = match budget.committed_amount.checked_add(budget.per_award_amount) {
            Some(v) => v,
            None => return Err(ContractError::BudgetExceeded),
        };
        if new_committed > budget.total_budget {
            return Err(ContractError::BudgetExceeded);
        }
        budget.awarded_count = budget.awarded_count + 1;
        budget.committed_amount = new_committed;
        self.budgets.insert(program_id, budget);
        Ok(budget.awarded_count)
    }

    /// Admin-only: release one reserved award slot back to the budget.
    pub fn release_award(&mut self, caller: Bytes32, program_id: Bytes32) -> (r: Result<(), ContractError>)
        requires
            old(self).wf(),
        ensures
            final(self).wf(),
            final(self).admin() == old(self).admin(),
            final(self).windows() == old(self).windows(),
            admin_check(old(self).admin(), caller) matches Err(e) ==> r == Err::<(), ContractError>(e)
                && final(self).budgets() == old(self).budgets(),
            admin_check(old(self).admin(), caller) is Ok && !old(self).budgets().contains_key(program_id)
                ==> r == Err::<(), ContractError>(ContractError::BudgetNotFound) && final(self).budgets()
                == old(self).budgets(),
            admin_check(old(self).admin(), caller) is Ok && old(self).budgets().contains_key(program_id)
                ==> match release_step(old(self).budgets()[program_id]) {
                Ok(b) => r == Ok::<(), ContractError>(()) && final(self).budgets() == old(self).budgets().insert(
                    program_id,
                    b,
                ),
                Err(e) => r == Err::<(), ContractError>(e) && final(self).budgets() == old(self).budgets(),
            },
    {
        match self.require_admin(&caller) {
            Err(e) => return Err(e),
            Ok(()) => {},
        }
        let mut budget = match self.budgets.get(&program_id) {
            Some(b) => *b,
            None => return Err(ContractError::BudgetNotFound),
        };
        if budget.awarded_count == 0 {
            return Err(ContractError::NoAwardsReserved);
        }
        let new_committed = match budget.committed_amount.checked_sub(budget.per_award_amount) {
            Some(v) => v,
            None => return Err(ContractError::NoAwardsReserved),
        };
        budget.awarded_count = budget.awarded_count - 1;
        budget.committed_amount = new_committed;
        self.budgets.insert(program_id, budget);
        Ok(())
    }

    pub fn get_award_budget(&self, program_id: Bytes32) -> (r: Result<AwardBudget, ContractError>)
        requires
            self.wf(),
        ensures
            self.budgets().contains_key(program_id) ==> r == Ok::<AwardBudget, ContractError>(
                self.budgets()[program_id],
            ),
            !self.budgets().contains_key(program_id) ==> r == Err::<AwardBudget, ContractError>(
                ContractError::BudgetNotFound,
            ),
    {
        match self.budgets.get(&program_id) {
            Some(b) => Ok(*b),
            None => Err(ContractError::BudgetNotFound),
        }
    }

    /// `max_recipients - awarded_count`, stopping at zero.
    pub fn remaining_capacity(&self, program_id: Bytes32) -> (r: Result<u32, ContractError>)
        requires
            self.wf(),
        ensures
            self.budgets().contains_key(program_id) ==> r == Ok::<u32, ContractError>(
                if self.budgets()[program_id].max_recipients >= self.budgets()[program_id].awarded_count {
                    (self.budgets()[program_id].max_recipients - self.budgets()[program_id].awarded_count) as u32
                } else {
                    0u32
                },
            ),
            !self.budgets().contains_key(program_id) ==> r == Err::<u32, ContractError>(
                ContractError::BudgetNotFound,
            ),
    {
        let budget = match self.get_award_budget(program_id) {
            Ok(b) => b,
            Err(e) => return Err(e),
        };
        Ok(budget.max_recipients.saturating_sub(budget.awarded_count))
    }

    pub fn version(&self) -> (v: u32)
        ensures
            v == CONTRACT_VERSION,
    {
        CONTRACT_VERSION
    }
}

/// A freshly configured budget is consistent, and reserving or releasing a
/// slot keeps it so: capacity and budget are never over-committed.
pub proof fn lemma_budget_stays_consistent(b: AwardBudget, max_recipients: u32, per_award_amount: i128, total_budget: i128)
    ensures
        budget_config_ok(max_recipients, per_award_amount, total_budget) ==> budget_consistent(
            AwardBudget { max_recipients, per_award_amount, total_budget, awarded_count: 0, committed_amount: 0 },
        ),
        budget_consistent(b) && reserve_step(b) is Ok ==> budget_consistent(reserve_step(b)->Ok_0),
        budget_consistent(b) && release_step(b) is Ok ==> budget_consistent(release_step(b)->Ok_0),
{
    if budget_consistent(b) && release_step(b) is Ok {
        assert((b.awarded_count - 1) * b.per_award_amount == b.awarded_count * b.per_award_amount - b.per_award_amount)
            by (nonlinear_arith);
        assert((b.awarded_count - 1) * b.per_award_amount >= 0) by (nonlinear_arith)
            requires
                b.awarded_count >= 1,
                b.per_award_amount > 0,
        ;
    }
    if budget_consistent(b) && reserve_step(b) is Ok {
        assert((b.awarded_count + 1) * b.per_award_amount == b.awarded_count * b.per_award_amount + b.per_award_amount)
            by (nonlinear_arith);
    }
}

/// On a consistent budget, reserving a slot succeeds exactly while
/// `awarded_count < max_recipients`, and releasing right after restores the
/// budget as it was.
pub proof fn lemma_reserve_then_release(b: AwardBudget)
    requires
        budget_consistent(b),
        b.max_recipients * b.per_award_amount <= b.total_budget,
    ensures
        reserve_step(b) is Ok <==> b.awarded_count < b.max_recipients,
        reserve_step(b) matches Ok(n) ==> release_step(n) == Ok::<AwardBudget, ContractError>(b),
{
    if b.awarded_count < b.max_recipients {
        assert((b.awarded_count + 1) * b.per_award_amount <= b.max_recipients * b.per_award_amount)
            by (nonlinear_arith)
            requires
                b.awarded_count + 1 <= b.max_recipients,
                b.per_award_amount > 0,
        ;
        assert((b.awarded_count + 1) * b.per_award_amount == b.awarded_count * b.per_award_amount + b.per_award_amount)
            by (nonlinear_arith);
    }
}

} // verus!
