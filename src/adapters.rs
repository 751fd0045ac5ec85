use crate::error::Error;
use crate::parse::{parse_outcome, parse_secs};
use vstd::prelude::*;

verus! {

#[verifier::external_type_specification]
#[verifier::external_body]
pub struct ExSignedDuration(time::SignedDuration);

/// The `std::time::Duration` of `secs` whole seconds.
pub uninterp spec fn std_duration_of(secs: u64) -> std::time::Duration;

/// The `time::Duration` of `secs` whole seconds.
pub uninterp spec fn signed_duration_of(secs: i64) -> time::Duration;

/// Relies on `std::time::Duration::from_secs`: a duration of whole seconds,
/// determined by `secs` alone.
#[verifier::external_body]
fn std_duration_from_secs(secs: u64) -> (r: std::time::Duration)
    ensures
        r == std_duration_of(secs),
{
    std::time::Duration::from_secs(secs)
}

/// Relies on `time::Duration::seconds`: a duration of whole seconds,
/// determined by `secs` alone; it never panics.
#[verifier::external_body]
fn signed_duration_from_secs(secs: i64) -> (r: time::Duration)
    ensures
        r == signed_duration_of(secs),
{
    time::Duration::seconds(secs)
}

/// `secs` as an `i64`, saturated at `i64::MAX`.
pub open spec fn clamp_to_i64(secs: u64) -> i64 {
    if secs > i64::MAX as u64 {
        i64::MAX
    } else {
        secs as i64
    }
}

/// Parse a duration expression into a duration type.
pub trait DurationParser: Sized {
    /// The value of this type that stands for `secs` seconds.
    spec fn from_secs_spec(secs: u64) -> Self;

    /// The duration that `input` denotes, or why it is rejected, as `parse_secs` decides.
    fn parse_human_duration(input: &str) -> (r: Result<Self, Error>)
        ensures
            match parse_outcome(input@) {
                Ok(secs) => r == Ok::<Self, Error>(Self::from_secs_spec(secs)),
                Err(e) => r == Err::<Self, Error>(e),
            },
    ;
}

impl DurationParser for std::time::Duration {
    open spec fn from_secs_spec(secs: u64) -> Self {
        std_duration_of(secs)
    }

    fn parse_human_duration(input: &str) -> (r: Result<Self, Error>) {
        let secs = parse_secs(input)?;
        Ok(std_duration_from_secs(secs))
    }
}

impl DurationParser for time::Duration {
    open spec fn from_secs_spec(secs: u64) -> Self {
        signed_duration_of(clamp_to_i64(secs))
    }

    fn parse_human_duration(input: &str) -> (r: Result<Self, Error>) {
        let secs = parse_secs(input)?;
        let whole: i64 = if secs > i64::MAX as u64 {
            i64::MAX
        } else {
            secs as i64
        };
        Ok(signed_duration_from_secs(whole))
    }
}

} // verus!
