use safefile::crypto::progress_due;
use safefile::shamir::share_file_name;
use safefile::utils::{bytes_to_human_readable, decimal_string, us_to_human_readable, Timer};

#[test]
fn bytes_formatting_exact_values() {
    assert_eq!(bytes_to_human_readable(0), "0.00 B");
    assert_eq!(bytes_to_human_readable(1), "1.00 B");
    assert_eq!(bytes_to_human_readable(1023), "1023.00 B");
    assert_eq!(bytes_to_human_readable(1024), "1.00 KB");
    assert_eq!(bytes_to_human_readable(1536), "1.50 KB");
    assert_eq!(bytes_to_human_readable(1048576), "1.00 MB");
    assert_eq!(bytes_to_human_readable(10 * 1024 * 1024), "10.00 MB");
    assert_eq!(bytes_to_human_readable(1073741824), "1.00 GB");
    assert_eq!(bytes_to_human_readable(1099511627776), "1.00 TB");
    assert_eq!(bytes_to_human_readable(u64::MAX), "16777216.00 TB");
}

#[test]
fn bytes_formatting_rounds_ties_to_even() {
    // 1152 / 1024 = 1.125: the tie rounds down to the even hundredth.
    assert_eq!(bytes_to_human_readable(1152), "1.12 KB");
    // 1408 / 1024 = 1.375: the tie rounds up to the even hundredth.
    assert_eq!(bytes_to_human_readable(1408), "1.38 KB");
}

#[test]
fn microseconds_formatting_exact_values() {
    assert_eq!(us_to_human_readable(0), "0 us");
    assert_eq!(us_to_human_readable(999), "999 us");
    assert_eq!(us_to_human_readable(1000), "1.00 ms");
    assert_eq!(us_to_human_readable(1500), "1.50 ms");
    assert_eq!(us_to_human_readable(999_994), "999.99 ms");
    assert_eq!(us_to_human_readable(1_000_000), "1.00 s");
    assert_eq!(us_to_human_readable(2_345_000), "2.34 s");
    assert_eq!(us_to_human_readable(59_999_999), "60.00 s");
    assert_eq!(us_to_human_readable(60_000_000), "1.00 min");
    assert_eq!(us_to_human_readable(90_000_000), "1.50 min");
}

#[test]
fn decimal_strings() {
    assert_eq!(decimal_string(0), "0");
    assert_eq!(decimal_string(7), "7");
    assert_eq!(decimal_string(10), "10");
    assert_eq!(decimal_string(987654321), "987654321");
    assert_eq!(decimal_string(u128::MAX), u128::MAX.to_string());
}

#[test]
fn share_file_names_are_zero_padded() {
    assert_eq!(share_file_name(1), "share_001.bin");
    assert_eq!(share_file_name(12), "share_012.bin");
    assert_eq!(share_file_name(123), "share_123.bin");
    assert_eq!(share_file_name(255), "share_255.bin");
    assert_eq!(share_file_name(1234), "share_1234.bin");
}

#[test]
fn progress_reports_are_rate_limited() {
    assert!(!progress_due(0, 10, 100));
    assert!(!progress_due(199_999, 10, 100));
    assert!(progress_due(200_000, 10, 100));
    assert!(progress_due(0, 100, 100), "completion is always reported");
}

#[test]
fn timer_accumulates_spans() {
    let mut t = Timer::new();
    assert_eq!(t.duration_us, 0);
    t.stop();
    assert_eq!(t.duration_us, 0, "stopping a stopped timer changes nothing");
    t.start();
    let mut spin = 0u64;
    for i in 0..200_000u64 {
        spin = spin.wrapping_add(i);
    }
    assert!(spin != 1);
    t.stop();
    let first = t.duration_us;
    t.start();
    t.stop();
    assert!(t.duration_us >= first, "spans only accumulate");
}
