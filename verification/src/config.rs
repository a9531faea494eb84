//! Configuration and dependency validation.
//!
//! Every setter routes its inputs through these validators before touching
//! storage, so a rejected update leaves the previous configuration exactly as
//! it was. A value that passed its check is wrapped in [`Validated`].
use vstd::prelude::*;
use crate::table::Bytes32;
use crate::table::bytes32_eq;

verus! {

/// One basis point is 1/10,000; a rate of 10,000 bp is 100%.
pub const BASIS_POINTS_DENOMINATOR: u32 = 10_000;

/// Typed configuration failures. Their on-ledger codes start at 240 (see
/// [`ConfigError::code`]).
#[derive(Copy, Clone, Debug, PartialEq, Eq, Structural)]
pub enum ConfigError {
    /// A time range whose start is not strictly before its end.
    InvalidTimeRange,
    /// A window that has already closed relative to the current time.
    WindowAlreadyClosed,
    /// A window longer than the configured maximum.
    WindowTooLong,
    /// A basis-point rate above 10,000.
    BasisPointsOutOfRange,
    /// A size or count limit outside its permitted band.
    LimitOutOfRange,
    /// A required value was empty or too short.
    EmptyValue,
    /// A value longer than its permitted maximum.
    ValueTooLong,
    /// A dependency address equal to the configuring contract itself.
    SelfReferentialDependency,
    /// A dependency reporting an interface version this build cannot use.
    IncompatibleInterfaceVersion,
}

impl ConfigError {
    /// The stable numeric code a client sees.
    pub fn code(self) -> (c: u32)
        ensures
            c == match self {
                ConfigError::InvalidTimeRange => 240u32,
                ConfigError::WindowAlreadyClosed => 241u32,
                ConfigError::WindowTooLong => 242u32,
                ConfigError::BasisPointsOutOfRange => 243u32,
                ConfigError::LimitOutOfRange => 244u32,
                ConfigError::EmptyValue => 245u32,
                ConfigError::ValueTooLong => 246u32,
                ConfigError::SelfReferentialDependency => 247u32,
                ConfigError::IncompatibleInterfaceVersion => 248u32,
            },
    {
        match self {
            ConfigError::InvalidTimeRange => 240,
            ConfigError::WindowAlreadyClosed => 241,
            ConfigError::WindowTooLong => 242,
            ConfigError::BasisPointsOutOfRange => 243,
            ConfigError::LimitOutOfRange => 244,
            ConfigError::EmptyValue => 245,
            ConfigError::ValueTooLong => 246,
            ConfigError::SelfReferentialDependency => 247,
            ConfigError::IncompatibleInterfaceVersion => 248,
        }
    }
}

/// A value that has passed its validator. Only the `validate_*` functions
/// construct one.
#[derive(Copy, Clone, Debug, PartialEq, Eq)]
pub struct Validated<T>(T);

impl<T> Validated<T> {
    /// The checked value.
    pub closed spec fn value(self) -> T {
        self.0
    }

    /// Unwraps the checked value at the point of storage.
    pub fn into_inner(self) -> (v: T)
        ensures
            v == self.value(),
    {
        self.0
    }

    /// Borrows the checked value.
    pub fn get(&self) -> (v: &T)
        ensures
            *v == self.value(),
    {
        &self.0
    }
}

/// A validity window `[not_before, expires_at)`.
#[derive(Copy, Clone, Debug, PartialEq, Eq, Structural)]
pub struct TimeRange {
    /// Inclusive start.
    pub not_before: u64,
    /// Exclusive end.
    pub expires_at: u64,
}

/// The verdict on a proposed window: non-empty, not already closed, and no
/// longer than `max_duration_secs`, checked in that order.
pub open spec fn time_range_verdict(not_before: u64, expires_at: u64, now: u64, max_duration_secs: u64) -> Result<
    TimeRange,
    ConfigError,
> {
    if not_before >= expires_at {
        Err(ConfigError::InvalidTimeRange)
    } else if expires_at <= now {
        Err(ConfigError::WindowAlreadyClosed)
    } else if expires_at - not_before > max_duration_secs {
        Err(ConfigError::WindowTooLong)
    } else {
        Ok(TimeRange { not_before, expires_at })
    }
}

/// Validates `[not_before, expires_at)` against the current time. A window
/// that has not opened yet is accepted.
pub fn validate_time_range(not_before: u64, expires_at: u64, now: u64, max_duration_secs: u64) -> (r: Result<
    Validated<TimeRange>,
    ConfigError,
>)
    ensures
        match time_range_verdict(not_before, expires_at, now, max_duration_secs) {
            Ok(range) => r matches Ok(v) && v.value() == range,
            Err(e) => r == Err::<Validated<TimeRange>, ConfigError>(e),
        },
{
    if not_before >= expires_at {
        return Err(ConfigError::InvalidTimeRange);
    }
    if expires_at <= now {
        return Err(ConfigError::WindowAlreadyClosed);
    }
    if expires_at - not_before > max_duration_secs {
        return Err(ConfigError::WindowTooLong);
    }
    Ok(Validated(TimeRange { not_before, expires_at }))
}

/// A validated window satisfies every rule it was checked against, and a
/// refusal is explained by one of them.
pub proof fn lemma_time_range_sound(not_before: u64, expires_at: u64, now: u64, max_duration_secs: u64)
    ensures
        time_range_verdict(not_before, expires_at, now, max_duration_secs) matches Ok(r) ==> {
            &&& r.not_before < r.expires_at
            &&& r.expires_at > now
            &&& r.expires_at - r.not_before <= max_duration_secs
        },
        time_range_verdict(not_before, expires_at, now, max_duration_secs) is Err <==> {
            ||| not_before >= expires_at
            ||| expires_at <= now
            ||| expires_at - not_before > max_duration_secs
        },
{
}

/// Validates a basis-point rate, rejecting anything above 100%. Zero is
/// accepted.
pub fn validate_basis_points(bps: u32) -> (r: Result<Validated<u32>, ConfigError>)
    ensures
        bps > BASIS_POINTS_DENOMINATOR ==> r == Err::<Validated<u32>, ConfigError>(
            ConfigError::BasisPointsOutOfRange,
        ),
        bps <= BASIS_POINTS_DENOMINATOR ==> (r matches Ok(v) && v.value() == bps),
{
    if bps > BASIS_POINTS_DENOMINATOR {
        return Err(ConfigError::BasisPointsOutOfRange);
    }
    Ok(Validated(bps))
}

/// Validates a size, count, or page limit against the inclusive band
/// `[min, max]`.
pub fn validate_limit(value: u32, min: u32, max: u32) -> (r: Result<Validated<u32>, ConfigError>)
    ensures
        (value < min || value > max) ==> r == Err::<Validated<u32>, ConfigError>(
            ConfigError::LimitOutOfRange,
        ),
        (min <= value <= max) ==> (r matches Ok(v) && v.value() == value),
{
    if value < min || value > max {
        return Err(ConfigError::LimitOutOfRange);
    }
    Ok(Validated(value))
}

/// Validates a required text value's length, in bytes of its UTF-8 form.
pub fn validate_text(value: &[u8], max_len: u32) -> (r: Result<(), ConfigError>)
    ensures
        r == if value@.len() == 0 {
            Err(ConfigError::EmptyValue)
        } else if value@.len() > max_len {
            Err(ConfigError::ValueTooLong)
        } else {
            Ok::<(), ConfigError>(())
        },
{
    if value.len() == 0 {
        return Err(ConfigError::EmptyValue);
    }
    if value.len() > max_len as usize {
        return Err(ConfigError::ValueTooLong);
    }
    Ok(())
}

/// Validates a required byte string's length against `[min_len, max_len]`.
pub fn validate_bytes(value: &[u8], min_len: u32, max_len: u32) -> (r: Result<(), ConfigError>)
    ensures
        r == if value@.len() < min_len {
            Err(ConfigError::EmptyValue)
        } else if value@.len() > max_len {
            Err(ConfigError::ValueTooLong)
        } else {
            Ok::<(), ConfigError>(())
        },
{
    if value.len() < min_len as usize {
        return Err(ConfigError::EmptyValue);
    }
    if value.len() > max_len as usize {
        return Err(ConfigError::ValueTooLong);
    }
    Ok(())
}

/// Validates a dependency contract address: it must not be the configuring
/// contract itself.
pub fn validate_dependency(current_contract: &Bytes32, dependency: &Bytes32) -> (r: Result<(), ConfigError>)
    ensures
        r == if *dependency == *current_contract {
            Err(ConfigError::SelfReferentialDependency)
        } else {
            Ok::<(), ConfigError>(())
        },
{
    if bytes32_eq(dependency, current_contract) {
        return Err(ConfigError::SelfReferentialDependency);
    }
    Ok(())
}

/// Semantic-version compatibility: the major version must match and the
/// minor version must be at least the required one.
pub fn validate_interface_version(
    required_major: u32,
    required_minor: u32,
    reported_major: u32,
    reported_minor: u32,
) -> (r: Result<(), ConfigError>)
    ensures
        r == if reported_major != required_major || reported_minor < required_minor {
            Err(ConfigError::IncompatibleInterfaceVersion)
        } else {
            Ok::<(), ConfigError>(())
        },
{
    if reported_major != required_major || reported_minor < required_minor {
        return Err(ConfigError::IncompatibleInterfaceVersion);
    }
    Ok(())
}

} // verus!
