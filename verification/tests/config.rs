//! Configuration validator scenarios.

use chainverse::config::{
    validate_basis_points, validate_bytes, validate_dependency, validate_interface_version,
    validate_limit, validate_text, validate_time_range, ConfigError, TimeRange,
};


const DAY: u64 = 86_400;
const MAX_WINDOW: u64 = 365 * DAY;

// ── Time ranges: boundaries ────────────────────────────────────────────

#[test]
fn a_window_is_accepted_when_it_opens_before_it_closes() {
    let range = validate_time_range(1_000, 2_000, 500, MAX_WINDOW).unwrap();
    assert_eq!(range.get().not_before, 1_000);
    assert_eq!(range.get().expires_at, 2_000);
}

#[test]
fn an_empty_or_inverted_window_is_rejected() {
    assert_eq!(
        validate_time_range(2_000, 2_000, 0, MAX_WINDOW),
        Err(ConfigError::InvalidTimeRange)
    );
    assert_eq!(
        validate_time_range(2_001, 2_000, 0, MAX_WINDOW),
        Err(ConfigError::InvalidTimeRange)
    );
}

#[test]
fn a_window_that_has_already_closed_is_rejected() {
    // Closing exactly now is closed: the end is exclusive.
    assert_eq!(
        validate_time_range(1_000, 2_000, 2_000, MAX_WINDOW),
        Err(ConfigError::WindowAlreadyClosed)
    );
    assert_eq!(
        validate_time_range(1_000, 2_000, 2_001, MAX_WINDOW),
        Err(ConfigError::WindowAlreadyClosed)
    );
    // One second before it closes it is still valid.
    assert!(validate_time_range(1_000, 2_000, 1_999, MAX_WINDOW).is_ok());
}

#[test]
fn a_window_that_has_not_opened_yet_is_accepted() {
    assert!(validate_time_range(10_000, 20_000, 500, MAX_WINDOW).is_ok());
}

#[test]
fn a_window_longer_than_the_maximum_is_rejected_at_the_boundary() {
    assert!(validate_time_range(0, MAX_WINDOW, 0, MAX_WINDOW).is_ok());
    assert_eq!(
        validate_time_range(0, MAX_WINDOW + 1, 0, MAX_WINDOW),
        Err(ConfigError::WindowTooLong)
    );
}

#[test]
fn an_extreme_window_does_not_overflow_the_duration_check() {
    assert_eq!(
        validate_time_range(0, u64::MAX, 0, MAX_WINDOW),
        Err(ConfigError::WindowTooLong)
    );
    assert_eq!(
        validate_time_range(u64::MAX - 1, u64::MAX, 0, MAX_WINDOW).map(|v| v.into_inner()),
        Ok(TimeRange {
            not_before: u64::MAX - 1,
            expires_at: u64::MAX,
        })
    );
}

// ── Basis points ───────────────────────────────────────────────────────

#[test]
fn basis_points_accepts_zero_through_one_hundred_percent() {
    assert_eq!(validate_basis_points(0).unwrap().into_inner(), 0);
    assert_eq!(validate_basis_points(250).unwrap().into_inner(), 250);
    assert_eq!(validate_basis_points(10_000).unwrap().into_inner(), 10_000);
}

#[test]
fn basis_points_above_one_hundred_percent_are_rejected() {
    assert_eq!(
        validate_basis_points(10_001),
        Err(ConfigError::BasisPointsOutOfRange)
    );
    assert_eq!(
        validate_basis_points(u32::MAX),
        Err(ConfigError::BasisPointsOutOfRange)
    );
}

// ── Limits ─────────────────────────────────────────────────────────────

#[test]
fn a_limit_is_accepted_on_both_inclusive_bounds() {
    assert!(validate_limit(1, 1, 100).is_ok());
    assert!(validate_limit(100, 1, 100).is_ok());
    assert!(validate_limit(50, 1, 100).is_ok());
}

#[test]
fn a_limit_outside_its_band_is_rejected_on_either_side() {
    // Zero is as much a brick as u32::MAX: no batch could ever be accepted.
    assert_eq!(validate_limit(0, 1, 100), Err(ConfigError::LimitOutOfRange));
    assert_eq!(
        validate_limit(101, 1, 100),
        Err(ConfigError::LimitOutOfRange)
    );
    assert_eq!(
        validate_limit(u32::MAX, 1, 100),
        Err(ConfigError::LimitOutOfRange)
    );
}

#[test]
fn a_degenerate_band_accepts_only_its_single_value() {
    assert!(validate_limit(7, 7, 7).is_ok());
    assert_eq!(validate_limit(6, 7, 7), Err(ConfigError::LimitOutOfRange));
    assert_eq!(validate_limit(8, 7, 7), Err(ConfigError::LimitOutOfRange));
}

// ── Text ───────────────────────────────────────────────────────────────

#[test]
fn text_validation_rejects_empty_and_oversized_values() {
    assert_eq!(validate_text(b"", 8), Err(ConfigError::EmptyValue));
    assert!(validate_text(b"12345678", 8).is_ok());
    assert_eq!(validate_text(b"123456789", 8), Err(ConfigError::ValueTooLong));
}

#[test]
fn byte_validation_checks_both_bounds() {
    let four = [1u8, 2, 3, 4];
    assert!(validate_bytes(&four, 4, 4).is_ok());
    assert_eq!(validate_bytes(&four, 5, 8), Err(ConfigError::EmptyValue));
    assert_eq!(validate_bytes(&four, 1, 3), Err(ConfigError::ValueTooLong));
}

// ── Dependencies ───────────────────────────────────────────────────────

#[test]
fn a_dependency_pointed_at_a_different_contract_is_accepted() {
    let probe_id = [1u8; 32];
    let other = [2u8; 32];
    assert_eq!(validate_dependency(&probe_id, &other), Ok(()));
}

#[test]
fn a_self_referential_dependency_is_rejected() {
    let probe_id = [1u8; 32];
    assert_eq!(
        validate_dependency(&probe_id, &probe_id),
        Err(ConfigError::SelfReferentialDependency)
    );
}

// ── Interface versions ─────────────────────────────────────────────────

#[test]
fn an_exact_interface_version_match_is_accepted() {
    assert!(validate_interface_version(1, 2, 1, 2).is_ok());
}

#[test]
fn a_dependency_ahead_on_minor_is_accepted() {
    assert!(validate_interface_version(1, 2, 1, 3).is_ok());
    assert!(validate_interface_version(1, 0, 1, u32::MAX).is_ok());
}

#[test]
fn a_dependency_behind_on_minor_is_rejected() {
    assert_eq!(
        validate_interface_version(1, 2, 1, 1),
        Err(ConfigError::IncompatibleInterfaceVersion)
    );
}

#[test]
fn any_other_major_version_is_rejected_in_both_directions() {
    assert_eq!(
        validate_interface_version(1, 0, 2, 0),
        Err(ConfigError::IncompatibleInterfaceVersion)
    );
    assert_eq!(
        validate_interface_version(2, 0, 1, 0),
        Err(ConfigError::IncompatibleInterfaceVersion)
    );
    // A higher minor does not rescue a wrong major.
    assert_eq!(
        validate_interface_version(1, 0, 2, u32::MAX),
        Err(ConfigError::IncompatibleInterfaceVersion)
    );
}

// ── Prior state survives a failed update ───────────────────────────────

/// A configuration record standing in for a real contract's stored config.
#[derive(Clone, Debug, Eq, PartialEq)]
struct Config {
    late_fee_bps: u32,
    max_batch: u32,
    window: TimeRange,
}

/// Validate-then-store: every field is checked before any is written.
fn apply_update(
    current: &Config,
    late_fee_bps: u32,
    max_batch: u32,
    not_before: u64,
    expires_at: u64,
    now: u64,
) -> Result<Config, ConfigError> {
    let bps = validate_basis_points(late_fee_bps)?;
    let batch = validate_limit(max_batch, 1, 100)?;
    let window = validate_time_range(not_before, expires_at, now, MAX_WINDOW)?;
    let _ = current;
    Ok(Config {
        late_fee_bps: bps.into_inner(),
        max_batch: batch.into_inner(),
        window: window.into_inner(),
    })
}

fn baseline() -> Config {
    Config {
        late_fee_bps: 100,
        max_batch: 10,
        window: TimeRange {
            not_before: 0,
            expires_at: 10_000,
        },
    }
}

#[test]
fn a_valid_update_replaces_every_field() {
    let before = baseline();
    let after = apply_update(&before, 250, 20, 1_000, 5_000, 0).unwrap();

    assert_eq!(after.late_fee_bps, 250);
    assert_eq!(after.max_batch, 20);
    assert_eq!(after.window.not_before, 1_000);
}

#[test]
fn a_failure_on_the_last_field_leaves_the_prior_config_untouched() {
    let before = baseline();

    // First two fields are fine; the window is inverted.
    let result = apply_update(&before, 250, 20, 5_000, 1_000, 0);

    assert_eq!(result, Err(ConfigError::InvalidTimeRange));
    assert_eq!(before, baseline(), "the prior config was mutated");
}

#[test]
fn each_field_reports_its_own_error() {
    let before = baseline();
    assert_eq!(
        apply_update(&before, 10_001, 20, 1_000, 5_000, 0),
        Err(ConfigError::BasisPointsOutOfRange)
    );
    assert_eq!(
        apply_update(&before, 250, 0, 1_000, 5_000, 0),
        Err(ConfigError::LimitOutOfRange)
    );
    assert_eq!(
        apply_update(&before, 250, 20, 1_000, 5_000, 9_000),
        Err(ConfigError::WindowAlreadyClosed)
    );
}

// ── Property tests ─────────────────────────────────────────────────────

/// xorshift64*, so every generated case replays from its seed.
struct Rng(u64);

impl Rng {
    fn next(&mut self) -> u64 {
        let mut x = self.0;
        x ^= x >> 12;
        x ^= x << 25;
        x ^= x >> 27;
        self.0 = x;
        x.wrapping_mul(0x2545_F491_4F6C_DD1D)
    }
}

#[test]
fn a_validated_window_always_satisfies_every_rule_it_was_checked_against() {
    for seed in [2u64, 23, 233, 2_333] {
        let mut rng = Rng(seed);
        for _ in 0..2_000u32 {
            let not_before = rng.next() % 100_000;
            let expires_at = rng.next() % 100_000;
            let now = rng.next() % 100_000;

            match validate_time_range(not_before, expires_at, now, MAX_WINDOW) {
                Ok(range) => {
                    let r = range.get();
                    assert!(r.not_before < r.expires_at);
                    assert!(r.expires_at > now);
                    assert!(r.expires_at - r.not_before <= MAX_WINDOW);
                }
                Err(e) => {
                    // Every rejection is explained by exactly one rule.
                    let inverted = not_before >= expires_at;
                    let closed = !inverted && expires_at <= now;
                    let too_long =
                        !inverted && !closed && expires_at - not_before > MAX_WINDOW;
                    assert!(
                        inverted || closed || too_long,
                        "seed {seed}: rejected a window that breaks no rule ({e:?})"
                    );
                }
            }
        }
    }
}

#[test]
fn validators_are_total_and_never_panic_on_extremes() {
    for seed in [5u64, 55, 555] {
        let mut rng = Rng(seed);
        for _ in 0..2_000u32 {
            let a = rng.next() as u32;
            let b = rng.next() as u32;
            let c = rng.next() as u32;

            // A result either way is fine; a panic is not.
            let _ = validate_basis_points(a);
            let _ = validate_limit(a, b.min(c), b.max(c));
            let _ = validate_interface_version(a, b, c, a);
            let _ = validate_time_range(u64::from(a), u64::from(b), u64::from(c), MAX_WINDOW);
        }
    }
}

#[test]
fn a_limit_band_is_respected_for_every_generated_triple() {
    for seed in [9u64, 99] {
        let mut rng = Rng(seed);
        for _ in 0..2_000u32 {
            let value = rng.next() as u32;
            let x = rng.next() as u32;
            let y = rng.next() as u32;
            let (min, max) = (x.min(y), x.max(y));

            match validate_limit(value, min, max) {
                Ok(v) => {
                    let v = v.into_inner();
                    assert!(v >= min && v <= max);
                }
                Err(e) => {
                    assert_eq!(e, ConfigError::LimitOutOfRange);
                    assert!(value < min || value > max);
                }
            }
        }
    }
}
