use dir_cleanup::error::{CleanupError, IoStage};
use dir_cleanup::report::{decimal_string, nothing_to_remove_notice, summary_lines};
use dir_cleanup::stats::DeletionStats;

#[test]
fn decimal_of_single_digits() {
    for n in 0..10u64 {
        assert_eq!(decimal_string(n), n.to_string());
    }
    assert_eq!(decimal_string(0), "0");
    assert_eq!(decimal_string(7), "7");
}

#[test]
fn decimal_of_larger_numbers() {
    assert_eq!(decimal_string(10), "10");
    assert_eq!(decimal_string(200), "200");
    assert_eq!(decimal_string(1234567890), "1234567890");
    assert_eq!(decimal_string(u64::MAX), "18446744073709551615");
}

#[test]
fn decimal_agrees_with_std_formatting() {
    let mut n: u64 = 1;
    for _ in 0..64 {
        assert_eq!(decimal_string(n), format!("{}", n));
        assert_eq!(decimal_string(n - 1), format!("{}", n - 1));
        n = n.wrapping_mul(2);
    }
    for n in [99u64, 100, 101, 909, 1000, 1001, 65535, 4294967296, 10000000000000000000] {
        assert_eq!(decimal_string(n), format!("{}", n));
    }
}

#[test]
fn summary_after_deleting_speaks_of_the_past() {
    let stats = DeletionStats { bytes_freed: 200, directories_removed: 1 };
    assert_eq!(
        summary_lines(false, stats),
        vec!["Space freed: 200 Bytes".to_string(), "Directories removed 1".to_string()]
    );
}

#[test]
fn summary_of_dry_run_speaks_of_the_future() {
    let stats = DeletionStats { bytes_freed: 200, directories_removed: 1 };
    assert_eq!(
        summary_lines(true, stats),
        vec!["Space will be freed: 200 Bytes".to_string(), "Directories will be removed 1".to_string()]
    );
}

#[test]
fn summary_of_nothing_accounted_for() {
    let stats = DeletionStats::new();
    assert_eq!(stats, DeletionStats { bytes_freed: 0, directories_removed: 0 });
    assert_eq!(
        summary_lines(false, stats),
        vec!["Space freed: 0 Bytes".to_string(), "Directories removed 0".to_string()]
    );
}

#[test]
fn summary_of_large_counters() {
    let stats = DeletionStats { bytes_freed: u64::MAX, directories_removed: 1234 };
    assert_eq!(
        summary_lines(true, stats),
        vec![
            "Space will be freed: 18446744073709551615 Bytes".to_string(),
            "Directories will be removed 1234".to_string()
        ]
    );
}

#[test]
fn notice_for_empty_manifest() {
    assert_eq!(nothing_to_remove_notice(), "No directories found to remove");
}

#[test]
fn message_of_each_failure() {
    assert_eq!(
        CleanupError::InvalidArgument("--bogus".to_string()).message(),
        "Invalid flags provided: --bogus"
    );
    assert_eq!(CleanupError::ManifestNotFound.message(), "Invalid file source provided");
    assert_eq!(
        CleanupError::IoError(IoStage::ReadingManifest).message(),
        "Could not determine directories to remove"
    );
    assert_eq!(CleanupError::IoError(IoStage::MeasuringSize).message(), "Indeterminable size");
    assert_eq!(CleanupError::DeletionError.message(), "Error removing");
    assert_eq!(CleanupError::EnvironmentError.message(), "Could not determine root directory");
}

#[test]
fn message_carries_the_offending_token() {
    assert_eq!(CleanupError::InvalidArgument(String::new()).message(), "Invalid flags provided: ");
    assert_eq!(
        CleanupError::InvalidArgument("two words".to_string()).message(),
        "Invalid flags provided: two words"
    );
}
