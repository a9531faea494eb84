//! Checked arithmetic for seats, debt, and treasury balances.
//!
//! Every amount that moves goes through these helpers, so an overflow
//! surfaces as a typed [`MathError`] rather than a trap. [`mul_div`] takes an
//! explicit [`Rounding`] mode, and [`DebtAccount`] is the deposit / charge /
//! payment / waiver / withdrawal state machine that never lets a balance go
//! negative.
use vstd::prelude::*;

verus! {

/// Typed arithmetic failures. Their on-ledger codes start at 200 (see
/// [`MathError::code`]).
#[derive(Copy, Clone, Debug, PartialEq, Eq, Structural)]
pub enum MathError {
    /// The result is larger than the type can represent.
    Overflow,
    /// The result is smaller than the type can represent.
    Underflow,
    /// A zero denominator.
    DivideByZero,
    /// The operation would leave a liability or balance negative.
    NegativeResult,
    /// A negative input where only non-negative values are meaningful.
    NegativeAmount,
}

impl MathError {
    /// The stable numeric code a client sees.
    pub fn code(self) -> (c: u32)
        ensures
            c == match self {
                MathError::Overflow => 200u32,
                MathError::Underflow => 201u32,
                MathError::DivideByZero => 202u32,
                MathError::NegativeResult => 203u32,
                MathError::NegativeAmount => 204u32,
            },
    {
        match self {
            MathError::Overflow => 200,
            MathError::Underflow => 201,
            MathError::DivideByZero => 202,
            MathError::NegativeResult => 203,
            MathError::NegativeAmount => 204,
        }
    }
}

/// Which way an inexact division is resolved.
#[derive(Copy, Clone, Debug, PartialEq, Eq, Structural)]
pub enum Rounding {
    /// Truncate toward zero.
    Down,
    /// Round away from zero whenever there is a remainder.
    Up,
}

/// Division truncating toward zero, as Rust's integer `/` does.
pub open spec fn trunc_div(x: int, d: int) -> int {
    if x >= 0 && d > 0 {
        x / d
    } else if x < 0 && d < 0 {
        (-x) / (-d)
    } else if x < 0 && d > 0 {
        -((-x) / d)
    } else if x >= 0 && d < 0 {
        -(x / (-d))
    } else {
        0
    }
}

/// Checked `u32` addition.
pub fn add_u32(a: u32, b: u32) -> (r: Result<u32, MathError>)
    ensures
        r == if a + b <= u32::MAX { Ok::<u32, MathError>((a + b) as u32) } else { Err(MathError::Overflow) },
{
    match a.checked_add(b) {
        Some(v) => Ok(v),
        None => Err(MathError::Overflow),
    }
}

/// Checked `u32` subtraction: never wraps below zero.
pub fn sub_u32(a: u32, b: u32) -> (r: Result<u32, MathError>)
    ensures
        r == if a >= b { Ok::<u32, MathError>((a - b) as u32) } else { Err(MathError::Underflow) },
{
    match a.checked_sub(b) {
        Some(v) => Ok(v),
        None => Err(MathError::Underflow),
    }
}

/// Checked `u64` addition.
pub fn add_u64(a: u64, b: u64) -> (r: Result<u64, MathError>)
    ensures
        r == if a + b <= u64::MAX { Ok::<u64, MathError>((a + b) as u64) } else { Err(MathError::Overflow) },
{
    match a.checked_add(b) {
        Some(v) => Ok(v),
        None => Err(MathError::Overflow),
    }
}

/// Checked `u64` subtraction.
pub fn sub_u64(a: u64, b: u64) -> (r: Result<u64, MathError>)
    ensures
        r == if a >= b { Ok::<u64, MathError>((a - b) as u64) } else { Err(MathError::Underflow) },
{
    match a.checked_sub(b) {
        Some(v) => Ok(v),
        None => Err(MathError::Underflow),
    }
}

/// Whether `x` fits in an `i128`.
pub open spec fn fits_i128(x: int) -> bool {
    i128::MIN <= x <= i128::MAX
}

/// Checked `i128` addition. Out of range in either direction is `Overflow`.
pub fn add_i128(a: i128, b: i128) -> (r: Result<i128, MathError>)
    ensures
        r == if fits_i128(a + b) { Ok::<i128, MathError>((a + b) as i128) } else { Err(MathError::Overflow) },
{
    match a.checked_add(b) {
        Some(v) => Ok(v),
        None => Err(MathError::Overflow),
    }
}

/// Checked `i128` subtraction: `Overflow` above the type's range,
/// `Underflow` below it.
pub fn sub_i128(a: i128, b: i128) -> (r: Result<i128, MathError>)
    ensures
        r == if a - b > i128::MAX {
            Err::<i128, MathError>(MathError::Overflow)
        } else if a - b < i128::MIN {
            Err(MathError::Underflow)
        } else {
            Ok((a - b) as i128)
        },
{
    match a.checked_sub(b) {
        Some(v) => Ok(v),
        None => if b < 0 {
            Err(MathError::Overflow)
        } else {
            Err(MathError::Underflow)
        },
    }
}

/// Checked `i128` multiplication.
pub fn mul_i128(a: i128, b: i128) -> (r: Result<i128, MathError>)
    ensures
        r == if fits_i128(a * b) { Ok::<i128, MathError>((a * b) as i128) } else { Err(MathError::Overflow) },
{
    match a.checked_mul(b) {
        Some(v) => Ok(v),
        None => Err(MathError::Overflow),
    }
}

/// Checked `i128` division, truncating toward zero.
pub fn div_i128(a: i128, b: i128) -> (r: Result<i128, MathError>)
    ensures
        r == if b == 0 {
            Err(MathError::DivideByZero)
        } else if fits_i128(trunc_div(a as int, b as int)) {
            Ok::<i128, MathError>(trunc_div(a as int, b as int) as i128)
        } else {
            Err(MathError::Overflow)
        },
{
    if b == 0 {
        return Err(MathError::DivideByZero);
    }
    match a.checked_div(b) {
        Some(v) => Ok(v),
        None => Err(MathError::Overflow),
    }
}

/// Rejects a negative amount.
pub fn require_non_negative(amount: i128) -> (r: Result<i128, MathError>)
    ensures
        r == if amount < 0 { Err(MathError::NegativeAmount) } else { Ok::<i128, MathError>(amount) },
{
    if amount < 0 {
        return Err(MathError::NegativeAmount);
    }
    Ok(amount)
}

/// `a * b / d` rounded as asked: the exact quotient floored for `Down`,
/// ceiled for `Up`. Inputs must be non-negative and `d` positive; a product
/// that does not fit is an `Overflow`.
pub open spec fn spec_mul_div(a: int, b: int, d: int, rounding: Rounding) -> Result<int, MathError> {
    if a < 0 || b < 0 {
        Err(MathError::NegativeAmount)
    } else if d == 0 {
        Err(MathError::DivideByZero)
    } else if d < 0 {
        Err(MathError::NegativeAmount)
    } else if a * b > i128::MAX {
        Err(MathError::Overflow)
    } else {
        match rounding {
            Rounding::Down => Ok((a * b) / d),
            Rounding::Up => Ok((a * b + d - 1) / d),
        }
    }
}

/// The same result as an `i128`.
pub open spec fn mul_div_result(a: int, b: int, d: int, rounding: Rounding) -> Result<i128, MathError> {
    match spec_mul_div(a, b, d, rounding) {
        Ok(q) => Ok(q as i128),
        Err(e) => Err(e),
    }
}

proof fn lemma_ceil_div(p: int, d: int)
    requires
        p >= 0,
        d > 0,
    ensures
        (p % d == 0 ==> (p + d - 1) / d == p / d),
        (p % d != 0 ==> (p + d - 1) / d == p / d + 1),
        0 <= p / d <= p,
        p / d * d <= p,
        p == d * (p / d) + p % d,
        0 <= p % d < d,
{
    assert(0 <= p / d <= p) by (nonlinear_arith)
        requires
            p >= 0,
            d > 0,
    ;
    assert(p / d * d <= p) by (nonlinear_arith)
        requires
            p >= 0,
            d > 0,
    ;
    assert(p == d * (p / d) + p % d) by (nonlinear_arith)
        requires
            d > 0,
    ;
    assert(0 <= p % d < d) by (nonlinear_arith)
        requires
            d > 0,
    ;
    let q = p / d;
    let r = p % d;
    if r == 0 {
        assert((p + d - 1) / d == q) by (nonlinear_arith)
            requires
                p == d * q,
                d > 0,
        ;
    } else {
        assert((p + d - 1) / d == q + 1) by (nonlinear_arith)
            requires
                p == d * q + r,
                0 < r < d,
                d > 0,
        ;
    }
}

/// Multiply-then-divide with an explicit rounding direction.
pub fn mul_div(a: i128, b: i128, denominator: i128, rounding: Rounding) -> (r: Result<i128, MathError>)
    ensures
        r == mul_div_result(a as int, b as int, denominator as int, rounding),
{
    if a < 0 || b < 0 {
        return Err(MathError::NegativeAmount);
    }
    if denominator <= 0 {
        return Err(
            if denominator == 0 {
                MathError::DivideByZero
            } else {
                MathError::NegativeAmount
            },
        );
    }
    let product = match mul_i128(a, b) {
        Ok(p) => p,
        Err(e) => return Err(e),
    };
    assert(a * b >= 0) by (nonlinear_arith)
        requires
            a >= 0,
            b >= 0,
    ;
    proof {
        lemma_ceil_div(product as int, denominator as int);
    }
    let quotient = product / denominator;
    match rounding {
        Rounding::Down => Ok(quotient),
        Rounding::Up => {
            if product % denominator == 0 {
                Ok(quotient)
            } else {
                assert(quotient < i128::MAX) by (nonlinear_arith)
                    requires
                        product == denominator * quotient + product % denominator,
                        product % denominator > 0,
                        quotient >= 0,
                        denominator >= 1,
                        product <= i128::MAX,
                ;
                add_i128(quotient, 1)
            }
        },
    }
}

/// Basis points of `amount` (1 bp = 1/10,000).
pub fn basis_points(amount: i128, bps: i128, rounding: Rounding) -> (r: Result<i128, MathError>)
    ensures
        r == mul_div_result(amount as int, bps as int, 10_000, rounding),
{
    mul_div(amount, bps, 10_000, rounding)
}

/// Rounding up never exceeds rounding down by more than one, down never
/// over-states the exact value and up never under-states it.
pub proof fn lemma_mul_div_rounding_bounds(a: i128, b: i128, d: i128)
    requires
        spec_mul_div(a as int, b as int, d as int, Rounding::Down) is Ok,
    ensures
        spec_mul_div(a as int, b as int, d as int, Rounding::Up) is Ok,
        ({
            let down = spec_mul_div(a as int, b as int, d as int, Rounding::Down)->Ok_0;
            let up = spec_mul_div(a as int, b as int, d as int, Rounding::Up)->Ok_0;
            &&& up == down || up == down + 1
            &&& down * d <= a * b
            &&& up * d >= a * b
        }),
{
    let p = a * b;
    lemma_ceil_div(p, d as int);
    let q = p / (d as int);
    assert(p == (d as int) * q + p % (d as int)) by (nonlinear_arith)
        requires
            d > 0,
            q == p / (d as int),
    ;
    assert(0 <= p % (d as int) < d) by (nonlinear_arith)
        requires
            d > 0,
    ;
    if p % (d as int) != 0 {
        assert((q + 1) * d >= p) by (nonlinear_arith)
            requires
                p == (d as int) * q + p % (d as int),
                p % (d as int) < d,
        ;
    } else {
        assert(q * d >= p) by (nonlinear_arith)
            requires
                p == (d as int) * q + p % (d as int),
                p % (d as int) == 0,
        ;
    }
}

// ── Debt accounting ────────────────────────────────────────────────────────

/// A patron's financial position: `deposit` is refundable money held on
/// account, `outstanding` is what is owed. Every operation either applies
/// fully or returns an error leaving the account untouched.
#[derive(Copy, Clone, Debug, PartialEq, Eq, Structural)]
pub struct DebtAccount {
    /// Refundable balance. Never negative.
    pub deposit: i128,
    /// Fines and charges not yet settled. Never negative.
    pub outstanding: i128,
}

impl Default for DebtAccount {
    /// The empty account: nothing on deposit, nothing owed.
    fn default() -> (a: Self)
        ensures
            a.deposit == 0,
            a.outstanding == 0,
    {
        DebtAccount { deposit: 0, outstanding: 0 }
    }
}

/// One request against a [`DebtAccount`].
#[derive(Copy, Clone, Debug, PartialEq, Eq, Structural)]
pub enum DebtOp {
    Deposit(i128),
    Charge(i128),
    Pay(i128),
    Waive(i128),
    PayFromDeposit(i128),
    Withdraw(i128),
}

/// Both balances are non-negative.
pub open spec fn debt_wf(a: DebtAccount) -> bool {
    a.deposit >= 0 && a.outstanding >= 0
}

/// The account after `op`, or the error that refuses it.
pub open spec fn debt_step(a: DebtAccount, op: DebtOp) -> Result<DebtAccount, MathError> {
    match op {
        DebtOp::Deposit(x) => if x < 0 {
            Err(MathError::NegativeAmount)
        } else if !fits_i128(a.deposit + x) {
            Err(MathError::Overflow)
        } else {
            Ok(DebtAccount { deposit: (a.deposit + x) as i128, outstanding: a.outstanding })
        },
        DebtOp::Charge(x) => if x < 0 {
            Err(MathError::NegativeAmount)
        } else if !fits_i128(a.outstanding + x) {
            Err(MathError::Overflow)
        } else {
            Ok(DebtAccount { deposit: a.deposit, outstanding: (a.outstanding + x) as i128 })
        },
        DebtOp::Pay(x) | DebtOp::Waive(x) => if x < 0 {
            Err(MathError::NegativeAmount)
        } else if x > a.outstanding {
            Err(MathError::NegativeResult)
        } else {
            Ok(DebtAccount { deposit: a.deposit, outstanding: (a.outstanding - x) as i128 })
        },
        DebtOp::PayFromDeposit(x) => if x < 0 {
            Err(MathError::NegativeAmount)
        } else if x > a.outstanding || x > a.deposit {
            Err(MathError::NegativeResult)
        } else {
            Ok(DebtAccount { deposit: (a.deposit - x) as i128, outstanding: (a.outstanding - x) as i128 })
        },
        DebtOp::Withdraw(x) => if x < 0 {
            Err(MathError::NegativeAmount)
        } else if a.outstanding > 0 || x > a.deposit {
            Err(MathError::NegativeResult)
        } else {
            Ok(DebtAccount { deposit: (a.deposit - x) as i128, outstanding: a.outstanding })
        },
    }
}

/// What a mutating method leaves behind: the stepped account on success,
/// the untouched account and the error otherwise.
pub open spec fn debt_applied(
    before: DebtAccount,
    after: DebtAccount,
    op: DebtOp,
    r: Result<(), MathError>,
) -> bool {
    match debt_step(before, op) {
        Ok(next) => r == Ok::<(), MathError>(()) && after == next,
        Err(e) => r == Err::<(), MathError>(e) && after == before,
    }
}

impl DebtAccount {
    /// An account with nothing deposited and nothing owed.
    pub fn new() -> (a: Self)
        ensures
            a.deposit == 0,
            a.outstanding == 0,
            debt_wf(a),
    {
        Self::default()
    }

    /// The patron adds refundable funds.
    pub fn deposit(&mut self, amount: i128) -> (r: Result<(), MathError>)
        ensures
            debt_applied(*old(self), *final(self), DebtOp::Deposit(amount), r),
    {
        if amount < 0 {
            return Err(MathError::NegativeAmount);
        }
        match add_i128(self.deposit, amount) {
            Ok(v) => {
                self.deposit = v;
                Ok(())
            },
            Err(e) => Err(e),
        }
    }

    /// The library assesses a fine or fee.
    pub fn charge(&mut self, amount: i128) -> (r: Result<(), MathError>)
        ensures
            debt_applied(*old(self), *final(self), DebtOp::Charge(amount), r),
    {
        if amount < 0 {
            return Err(MathError::NegativeAmount);
        }
        match add_i128(self.outstanding, amount) {
            Ok(v) => {
                self.outstanding = v;
                Ok(())
            },
            Err(e) => Err(e),
        }
    }

    /// The patron settles part or all of what is owed. Paying more than is
    /// owed is refused rather than turned into a credit.
    pub fn pay(&mut self, amount: i128) -> (r: Result<(), MathError>)
        ensures
            debt_applied(*old(self), *final(self), DebtOp::Pay(amount), r),
    {
        if amount < 0 {
            return Err(MathError::NegativeAmount);
        }
        if amount > self.outstanding {
            return Err(MathError::NegativeResult);
        }
        self.outstanding = self.outstanding - amount;
        Ok(())
    }

    /// The library forgives part or all of what is owed.
    pub fn waive(&mut self, amount: i128) -> (r: Result<(), MathError>)
        ensures
            debt_applied(*old(self), *final(self), DebtOp::Waive(amount), r),
    {
        if amount < 0 {
            return Err(MathError::NegativeAmount);
        }
        if amount > self.outstanding {
            return Err(MathError::NegativeResult);
        }
        self.outstanding = self.outstanding - amount;
        Ok(())
    }

    /// Settles `amount` of the debt out of the deposit, all or nothing.
    /// Returns the amount moved.
    pub fn pay_from_deposit(&mut self, amount: i128) -> (r: Result<i128, MathError>)
        ensures
            match debt_step(*old(self), DebtOp::PayFromDeposit(amount)) {
                Ok(next) => r == Ok::<i128, MathError>(amount) && *final(self) == next,
                Err(e) => r == Err::<i128, MathError>(e) && *final(self) == *old(self),
            },
    {
        if amount < 0 {
            return Err(MathError::NegativeAmount);
        }
        if amount > self.outstanding || amount > self.deposit {
            return Err(MathError::NegativeResult);
        }
        self.deposit = self.deposit - amount;
        self.outstanding = self.outstanding - amount;
        Ok(amount)
    }

    /// The patron withdraws refundable funds; blocked while anything is
    /// outstanding.
    pub fn withdraw(&mut self, amount: i128) -> (r: Result<(), MathError>)
        ensures
            debt_applied(*old(self), *final(self), DebtOp::Withdraw(amount), r),
    {
        if amount < 0 {
            return Err(MathError::NegativeAmount);
        }
        if self.outstanding > 0 {
            return Err(MathError::NegativeResult);
        }
        if amount > self.deposit {
            return Err(MathError::NegativeResult);
        }
        self.deposit = self.deposit - amount;
        Ok(())
    }

    /// True when both balances are non-negative.
    pub fn is_well_formed(&self) -> (r: bool)
        ensures
            r == debt_wf(*self),
    {
        self.deposit >= 0 && self.outstanding >= 0
    }
}

/// Running totals of what a sequence of operations had accepted.
pub struct DebtTotals {
    pub deposited: int,
    pub withdrawn: int,
    pub charged: int,
    pub paid: int,
    pub waived: int,
    pub paid_from_deposit: int,
}

/// The account and accepted totals after replaying `ops` from `start`.
pub open spec fn debt_replay(start: DebtAccount, ops: Seq<DebtOp>) -> (DebtAccount, DebtTotals)
    decreases ops.len(),
{
    if ops.len() == 0 {
        (start, DebtTotals { deposited: 0, withdrawn: 0, charged: 0, paid: 0, waived: 0, paid_from_deposit: 0 })
    } else {
        let (a, t) = debt_replay(start, ops.drop_last());
        let op = ops.last();
        match debt_step(a, op) {
            Err(_) => (a, t),
            Ok(n) => (n, match op {
                DebtOp::Deposit(x) => DebtTotals { deposited: t.deposited + x, ..t },
                DebtOp::Charge(x) => DebtTotals { charged: t.charged + x, ..t },
                DebtOp::Pay(x) => DebtTotals { paid: t.paid + x, ..t },
                DebtOp::Waive(x) => DebtTotals { waived: t.waived + x, ..t },
                DebtOp::PayFromDeposit(x) => DebtTotals { paid_from_deposit: t.paid_from_deposit + x, ..t },
                DebtOp::Withdraw(x) => DebtTotals { withdrawn: t.withdrawn + x, ..t },
            }),
        }
    }
}

/// Every operation keeps a well-formed account well-formed.
pub proof fn lemma_debt_step_keeps_wf(a: DebtAccount, op: DebtOp)
    requires
        debt_wf(a),
    ensures
        debt_step(a, op) matches Ok(n) ==> debt_wf(n),
{
}

/// From an empty account, any sequence of requests leaves both balances
/// non-negative, and the balances reconcile with what was accepted:
/// `outstanding == charged - paid - waived - paid_from_deposit` and
/// `deposit == deposited - withdrawn - paid_from_deposit`.
pub proof fn lemma_debt_conservation(ops: Seq<DebtOp>)
    ensures
        ({
            let (a, t) = debt_replay(DebtAccount { deposit: 0, outstanding: 0 }, ops);
            &&& debt_wf(a)
            &&& a.outstanding == t.charged - t.paid - t.waived - t.paid_from_deposit
            &&& a.deposit == t.deposited - t.withdrawn - t.paid_from_deposit
        }),
    decreases ops.len(),
{
    if ops.len() > 0 {
        lemma_debt_conservation(ops.drop_last());
    }
}

} // verus!
