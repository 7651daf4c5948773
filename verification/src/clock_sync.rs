//! The checks a clock-synchronization configuration must pass. The
//! synchronizer itself computes in floating point and lives outside the
//! library; its configuration's two floating-point checks reach this
//! module as booleans, and the order of the checks and the message of the
//! first one failed are decided here.

use vstd::prelude::*;

use crate::text::{chars_of, string_from_chars};
use crate::time_span::TimeSpan;

verus! {

/// What the configuration checks look at.
pub struct SyncConfigChecks {
    /// Interval between synchronization passes.
    pub sync_interval: TimeSpan,
    /// Largest offset accepted as valid.
    pub max_allowed_offset: TimeSpan,
    /// Whether the drift bound (ppm) is greater than zero.
    pub max_drift_ppm_positive: bool,
    /// Precision of the local clock.
    pub clock_precision: TimeSpan,
    /// Whether the correction rate lies within `(0.0, 1.0]`.
    pub correction_rate_in_range: bool,
    /// Largest correction applied in one step.
    pub max_correction_step: TimeSpan,
    /// Offset error within which the clock counts as synchronized.
    pub resync_threshold: TimeSpan,
    /// Samples kept for the drift regression.
    pub drift_window_samples: usize,
}

/// The message of the first check `c` fails, in the order the checks are
/// made; `None` when it passes them all.
pub open spec fn sync_config_problem(c: SyncConfigChecks) -> Option<Seq<char>> {
    if c.sync_interval@ == 0 {
        Some("sync_interval must be greater than zero"@)
    } else if c.max_allowed_offset@ == 0 {
        Some("max_allowed_offset must be greater than zero"@)
    } else if !c.max_drift_ppm_positive {
        Some("max_drift_ppm must be greater than zero"@)
    } else if c.clock_precision@ == 0 {
        Some("clock_precision must be greater than zero"@)
    } else if !c.correction_rate_in_range {
        Some("correction_rate must fall within (0.0, 1.0]"@)
    } else if c.max_correction_step@ == 0 {
        Some("max_correction_step must be greater than zero"@)
    } else if c.resync_threshold@ == 0 {
        Some("resync_threshold must be greater than zero"@)
    } else if c.resync_threshold@ > c.max_allowed_offset@ {
        Some("resync_threshold cannot exceed max_allowed_offset"@)
    } else if c.drift_window_samples < 2 {
        Some("drift_window_samples must be at least 2"@)
    } else {
        None
    }
}

fn message(text: &str) -> (r: Option<String>)
    ensures
        r matches Some(m) && m@ == text@,
{
    Some(string_from_chars(&chars_of(text)))
}

/// The message of the first check the configuration fails, if any.
pub fn check_sync_config(c: &SyncConfigChecks) -> (r: Option<String>)
    ensures
        r matches Some(m) ==> sync_config_problem(*c) == Some(m@),
        r is None ==> sync_config_problem(*c) is None,
{
    if c.sync_interval.is_zero() {
        message("sync_interval must be greater than zero")
    } else if c.max_allowed_offset.is_zero() {
        message("max_allowed_offset must be greater than zero")
    } else if !c.max_drift_ppm_positive {
        message("max_drift_ppm must be greater than zero")
    } else if c.clock_precision.is_zero() {
        message("clock_precision must be greater than zero")
    } else if !c.correction_rate_in_range {
        message("correction_rate must fall within (0.0, 1.0]")
    } else if c.max_correction_step.is_zero() {
        message("max_correction_step must be greater than zero")
    } else if c.resync_threshold.is_zero() {
        message("resync_threshold must be greater than zero")
    } else if c.resync_threshold.as_nanos() > c.max_allowed_offset.as_nanos() {
        message("resync_threshold cannot exceed max_allowed_offset")
    } else if c.drift_window_samples < 2 {
        message("drift_window_samples must be at least 2")
    } else {
        None
    }
}

/// A configuration passes exactly when every check holds: positive
/// interval, maximum offset, drift bound, precision, correction step and
/// resync threshold, a correction rate within `(0.0, 1.0]`, a resync
/// threshold no larger than the maximum offset, and at least two drift
/// samples. Whichever check fails, the configuration is refused.
pub proof fn lemma_sync_config_passes_iff_all_checks(c: SyncConfigChecks)
    ensures
        sync_config_problem(c) is None <==> {
            &&& c.sync_interval@ > 0
            &&& c.max_allowed_offset@ > 0
            &&& c.max_drift_ppm_positive
            &&& c.clock_precision@ > 0
            &&& c.correction_rate_in_range
            &&& c.max_correction_step@ > 0
            &&& c.resync_threshold@ > 0
            &&& c.resync_threshold@ <= c.max_allowed_offset@
            &&& c.drift_window_samples >= 2
        },
{
}

} // verus!
