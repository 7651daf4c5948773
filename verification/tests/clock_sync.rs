use echosync::clock_sync::{check_sync_config, SyncConfigChecks};
use echosync::time_span::TimeSpan;

fn ms(v: u64) -> TimeSpan {
    TimeSpan::from_millis(v)
}

/// The checks of the test configuration: 50 ms interval, 2 s maximum
/// offset, a positive drift bound, 1 ms precision, a 0.5 correction rate,
/// 1 s correction step, 5 ms resync threshold, a five-sample window.
fn test_checks() -> SyncConfigChecks {
    SyncConfigChecks {
        sync_interval: ms(50),
        max_allowed_offset: ms(2_000),
        max_drift_ppm_positive: true,
        clock_precision: ms(1),
        correction_rate_in_range: true,
        max_correction_step: ms(1_000),
        resync_threshold: ms(5),
        drift_window_samples: 5,
    }
}

#[test]
fn sync_test_configuration_passes_every_check() {
    assert_eq!(check_sync_config(&test_checks()), None);
}

#[test]
fn zero_sync_interval_is_rejected() {
    let mut c = test_checks();
    c.sync_interval = TimeSpan::zero();
    assert_eq!(
        check_sync_config(&c),
        Some("sync_interval must be greater than zero".to_string())
    );
}

#[test]
fn zero_max_allowed_offset_is_rejected() {
    let mut c = test_checks();
    c.max_allowed_offset = TimeSpan::zero();
    assert_eq!(
        check_sync_config(&c),
        Some("max_allowed_offset must be greater than zero".to_string())
    );
}

#[test]
fn non_positive_max_drift_ppm_is_rejected() {
    let mut c = test_checks();
    c.max_drift_ppm_positive = false;
    assert_eq!(
        check_sync_config(&c),
        Some("max_drift_ppm must be greater than zero".to_string())
    );
}

#[test]
fn correction_rate_out_of_bounds_is_rejected() {
    let mut c = test_checks();
    c.correction_rate_in_range = false;
    assert_eq!(
        check_sync_config(&c),
        Some("correction_rate must fall within (0.0, 1.0]".to_string())
    );
}

#[test]
fn resync_threshold_larger_than_max_offset_is_rejected() {
    let mut c = test_checks();
    c.resync_threshold = ms(3_000);
    assert_eq!(
        check_sync_config(&c),
        Some("resync_threshold cannot exceed max_allowed_offset".to_string())
    );
}

#[test]
fn drift_window_below_two_is_rejected() {
    let mut c = test_checks();
    c.drift_window_samples = 1;
    assert_eq!(
        check_sync_config(&c),
        Some("drift_window_samples must be at least 2".to_string())
    );
}

#[test]
fn the_first_failed_check_is_the_one_reported() {
    let mut c = test_checks();
    c.clock_precision = TimeSpan::zero();
    c.drift_window_samples = 0;
    c.max_correction_step = TimeSpan::zero();
    assert_eq!(
        check_sync_config(&c),
        Some("clock_precision must be greater than zero".to_string())
    );
    c.clock_precision = ms(1);
    assert_eq!(
        check_sync_config(&c),
        Some("max_correction_step must be greater than zero".to_string())
    );
}
