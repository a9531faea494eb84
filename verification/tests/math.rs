//! Checked arithmetic and debt-account scenarios.

use chainverse::math::{
    add_i128, add_u32, add_u64, basis_points, div_i128, mul_div, mul_i128, sub_i128, sub_u32,
    sub_u64, DebtAccount, MathError, Rounding,
};


// ── Checked primitives: extrema ────────────────────────────────────────

#[test]
fn add_u32_saturating_at_the_boundary_is_an_overflow_not_a_wrap() {
    assert_eq!(add_u32(u32::MAX - 1, 1), Ok(u32::MAX));
    assert_eq!(add_u32(u32::MAX, 1), Err(MathError::Overflow));
    assert_eq!(add_u32(u32::MAX, u32::MAX), Err(MathError::Overflow));
}

#[test]
fn sub_u32_below_zero_is_an_underflow_not_a_wrap() {
    assert_eq!(sub_u32(1, 1), Ok(0));
    assert_eq!(sub_u32(0, 1), Err(MathError::Underflow));
    assert_eq!(sub_u32(0, u32::MAX), Err(MathError::Underflow));
}

#[test]
fn u64_helpers_hold_at_their_extrema() {
    assert_eq!(add_u64(u64::MAX - 1, 1), Ok(u64::MAX));
    assert_eq!(add_u64(u64::MAX, 1), Err(MathError::Overflow));
    assert_eq!(sub_u64(0, 1), Err(MathError::Underflow));
}

#[test]
fn i128_helpers_hold_at_both_extrema() {
    assert_eq!(add_i128(i128::MAX, 1), Err(MathError::Overflow));
    assert_eq!(add_i128(i128::MIN, -1), Err(MathError::Overflow));
    assert_eq!(sub_i128(i128::MIN, 1), Err(MathError::Underflow));
    assert_eq!(sub_i128(i128::MAX, -1), Err(MathError::Overflow));
    assert_eq!(sub_i128(-1, i128::MAX), Ok(i128::MIN));
    assert_eq!(sub_i128(-5, i128::MAX), Err(MathError::Underflow));
    assert_eq!(mul_i128(i128::MAX, 2), Err(MathError::Overflow));
    assert_eq!(mul_i128(i128::MIN, -1), Err(MathError::Overflow));
}

#[test]
fn division_by_zero_is_typed_not_a_panic() {
    assert_eq!(div_i128(1, 0), Err(MathError::DivideByZero));
    assert_eq!(div_i128(0, 0), Err(MathError::DivideByZero));
    // The one division that overflows in two's complement.
    assert_eq!(div_i128(i128::MIN, -1), Err(MathError::Overflow));
}

// ── mul_div and rounding ───────────────────────────────────────────────

#[test]
fn mul_div_keeps_precision_that_divide_first_would_lose() {
    // (1 / 3) * 3 == 0 when divided first; mul_div gets it right.
    assert_eq!(mul_div(1, 3, 3, Rounding::Down), Ok(1));
    assert_eq!(mul_div(7, 3, 10, Rounding::Down), Ok(2)); // 21/10
    assert_eq!(mul_div(7, 3, 10, Rounding::Up), Ok(3));
}

#[test]
fn mul_div_rounding_is_exact_when_there_is_no_remainder() {
    assert_eq!(mul_div(10, 5, 5, Rounding::Down), Ok(10));
    assert_eq!(mul_div(10, 5, 5, Rounding::Up), Ok(10));
}

#[test]
fn mul_div_rejects_a_zero_or_negative_denominator() {
    assert_eq!(mul_div(1, 1, 0, Rounding::Down), Err(MathError::DivideByZero));
    assert_eq!(
        mul_div(1, 1, -1, Rounding::Down),
        Err(MathError::NegativeAmount)
    );
}

#[test]
fn mul_div_rejects_negative_operands() {
    assert_eq!(
        mul_div(-1, 1, 10, Rounding::Down),
        Err(MathError::NegativeAmount)
    );
    assert_eq!(
        mul_div(1, -1, 10, Rounding::Down),
        Err(MathError::NegativeAmount)
    );
}

#[test]
fn mul_div_overflow_in_the_intermediate_product_is_reported() {
    assert_eq!(
        mul_div(i128::MAX, 2, 1, Rounding::Down),
        Err(MathError::Overflow)
    );
}

#[test]
fn basis_points_rounds_in_the_stated_direction() {
    // 250 bp of 1,001 is 25.025.
    assert_eq!(basis_points(1_001, 250, Rounding::Down), Ok(25));
    assert_eq!(basis_points(1_001, 250, Rounding::Up), Ok(26));
    // A zero rate costs nothing in either direction.
    assert_eq!(basis_points(1_001, 0, Rounding::Down), Ok(0));
    assert_eq!(basis_points(1_001, 0, Rounding::Up), Ok(0));
}

// ── DebtAccount: named properties ──────────────────────────────────────

#[test]
fn paying_more_than_is_owed_is_refused_rather_than_creating_a_credit() {
    let mut account = DebtAccount::new();
    account.charge(100).unwrap();

    assert_eq!(account.pay(101), Err(MathError::NegativeResult));
    assert_eq!(account.outstanding, 100, "the refused payment mutated state");

    account.pay(100).unwrap();
    assert_eq!(account.outstanding, 0);
    assert_eq!(account.pay(1), Err(MathError::NegativeResult));
}

#[test]
fn waiving_more_than_is_owed_is_refused() {
    let mut account = DebtAccount::new();
    account.charge(50).unwrap();

    assert_eq!(account.waive(51), Err(MathError::NegativeResult));
    assert_eq!(account.outstanding, 50);

    account.waive(50).unwrap();
    assert_eq!(account.outstanding, 0);
}

#[test]
fn a_patron_cannot_withdraw_while_anything_is_outstanding() {
    let mut account = DebtAccount::new();
    account.deposit(100).unwrap();
    account.charge(10).unwrap();

    assert_eq!(account.withdraw(1), Err(MathError::NegativeResult));
    assert_eq!(account.deposit, 100);

    account.pay(10).unwrap();
    account.withdraw(100).unwrap();
    assert_eq!(account.deposit, 0);
}

#[test]
fn withdrawing_more_than_is_on_deposit_is_refused() {
    let mut account = DebtAccount::new();
    account.deposit(10).unwrap();

    assert_eq!(account.withdraw(11), Err(MathError::NegativeResult));
    assert_eq!(account.deposit, 10);
}

#[test]
fn settling_from_deposit_is_all_or_nothing() {
    let mut account = DebtAccount::new();
    account.deposit(30).unwrap();
    account.charge(50).unwrap();

    // More than the deposit covers: refused outright, nothing half-applied.
    assert_eq!(account.pay_from_deposit(40), Err(MathError::NegativeResult));
    assert_eq!(account.deposit, 30);
    assert_eq!(account.outstanding, 50);

    assert_eq!(account.pay_from_deposit(30), Ok(30));
    assert_eq!(account.deposit, 0);
    assert_eq!(account.outstanding, 20);
}

#[test]
fn negative_amounts_are_refused_on_every_operation() {
    let mut account = DebtAccount::new();
    assert_eq!(account.deposit(-1), Err(MathError::NegativeAmount));
    assert_eq!(account.charge(-1), Err(MathError::NegativeAmount));
    assert_eq!(account.pay(-1), Err(MathError::NegativeAmount));
    assert_eq!(account.waive(-1), Err(MathError::NegativeAmount));
    assert_eq!(account.withdraw(-1), Err(MathError::NegativeAmount));
    assert_eq!(account.pay_from_deposit(-1), Err(MathError::NegativeAmount));
    assert_eq!(account, DebtAccount::new());
}

#[test]
fn charging_past_i128_max_overflows_rather_than_wrapping_negative() {
    let mut account = DebtAccount::new();
    account.charge(i128::MAX).unwrap();
    assert_eq!(account.charge(1), Err(MathError::Overflow));
    assert_eq!(account.outstanding, i128::MAX);
    assert!(account.is_well_formed());
}

// ── Property tests ─────────────────────────────────────────────────────

/// xorshift64*, so every generated sequence replays from its seed.
struct Rng(u64);

impl Rng {
    fn next(&mut self) -> u64 {
        let mut x = self.0;
        x ^= x >> 12;
        x ^= x << 25;
        x ^= x >> 27;
        self.0 = x;
        x.wrapping_mul(0x2545_F491_4F6C_DD1D)
    }

    fn below(&mut self, n: u64) -> u64 {
        self.next() % n
    }

    /// Biased toward zero, small values, and very large ones, which is
    /// where the interesting failures live.
    ///
    /// Capped at `i128::MAX / 512` so that the independent ledger the
    /// property test keeps cannot itself overflow across a 400-step
    /// sequence. The true extrema (`i128::MAX`) are covered by the named
    /// tests above, where the accumulation problem does not arise.
    fn amount(&mut self) -> i128 {
        const HUGE: i128 = i128::MAX / 512;
        match self.below(10) {
            0 => 0,
            1 => HUGE,
            2 => HUGE - 1,
            3..=6 => i128::from(self.below(1_000)),
            _ => i128::from(self.below(u64::MAX / 2)),
        }
    }
}

#[test]
fn debt_account_never_goes_negative_under_random_operation_sequences() {
    for seed in [1u64, 5, 17, 101, 7_919, 1_000_003] {
        let mut rng = Rng(seed);
        let mut account = DebtAccount::new();

        // Independent ledger of what was accepted, used to prove the
        // conservation identity rather than re-deriving it from the fields
        // the operations themselves wrote.
        let mut deposited: i128 = 0;
        let mut withdrawn: i128 = 0;
        let mut charged: i128 = 0;
        let mut paid: i128 = 0;
        let mut waived: i128 = 0;
        let mut paid_from_deposit: i128 = 0;

        for step in 0..400u32 {
            let amount = rng.amount();
            let before = account;

            let accepted = match rng.below(6) {
                0 => account.deposit(amount).map(|()| {
                    deposited += amount;
                }),
                1 => account.charge(amount).map(|()| {
                    charged += amount;
                }),
                2 => account.pay(amount).map(|()| {
                    paid += amount;
                }),
                3 => account.waive(amount).map(|()| {
                    waived += amount;
                }),
                4 => account.withdraw(amount).map(|()| {
                    withdrawn += amount;
                }),
                _ => account.pay_from_deposit(amount).map(|moved| {
                    paid_from_deposit += moved;
                }),
            };

            if accepted.is_err() {
                assert_eq!(
                    account, before,
                    "seed {seed} step {step}: a rejected operation mutated the account"
                );
            }

            assert!(
                account.is_well_formed(),
                "seed {seed} step {step}: {account:?} has a negative balance"
            );
            assert_eq!(
                account.outstanding,
                charged - paid - waived - paid_from_deposit,
                "seed {seed} step {step}: outstanding does not reconcile"
            );
            assert_eq!(
                account.deposit,
                deposited - withdrawn - paid_from_deposit,
                "seed {seed} step {step}: deposit does not reconcile"
            );
        }
    }
}

#[test]
fn mul_div_up_is_never_more_than_one_above_mul_div_down() {
    for seed in [3u64, 29, 4_099] {
        let mut rng = Rng(seed);
        for _ in 0..500u32 {
            let a = i128::from(rng.below(1_000_000));
            let b = i128::from(rng.below(1_000_000));
            let d = i128::from(rng.below(1_000) + 1);

            let down = mul_div(a, b, d, Rounding::Down).unwrap();
            let up = mul_div(a, b, d, Rounding::Up).unwrap();

            assert!(up == down || up == down + 1, "{up} is not within 1 of {down}");
            // Down never over-states and Up never under-states the exact value.
            assert!(down * d <= a * b);
            assert!(up * d >= a * b);
        }
    }
}

#[test]
fn checked_helpers_agree_with_the_primitive_ops_whenever_they_do_not_trap() {
    for seed in [11u64, 13, 17] {
        let mut rng = Rng(seed);
        for _ in 0..1_000u32 {
            let a = rng.below(u64::MAX) as u32;
            let b = rng.below(u64::MAX) as u32;

            match add_u32(a, b) {
                Ok(sum) => assert_eq!(sum, a.wrapping_add(b)),
                Err(e) => {
                    assert_eq!(e, MathError::Overflow);
                    assert!(a.checked_add(b).is_none());
                }
            }
            match sub_u32(a, b) {
                Ok(diff) => assert_eq!(diff, a - b),
                Err(e) => {
                    assert_eq!(e, MathError::Underflow);
                    assert!(a < b);
                }
            }
        }
    }
}

#[test]
fn a_new_debt_account_is_the_default_one() {
    assert_eq!(DebtAccount::new(), DebtAccount::default());
    assert!(DebtAccount::default().is_well_formed());
}
