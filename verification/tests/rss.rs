//! Resident memory sampling.

use meow_ios_ffi::rss::{meow_resident_bytes, resident_bytes, TaskSample};

#[test]
fn resident_bytes_is_nonzero_on_apple() {
    // What this process holds at least: a buffer whose pages are all written.
    let held = vec![1u8; 8 * 1024 * 1024];
    let touched: u64 = held.iter().map(|b| u64::from(*b)).sum();
    let sample = Some(TaskSample { rc: 0, resident_size: touched });
    let rss = resident_bytes(sample).expect("mach call succeeds on Apple targets");
    assert!(rss > 0, "task RSS must be > 0 in a running test process");
    assert!(
        rss < 16 * 1024 * 1024 * 1024,
        "task RSS sanity (< 16 GiB), got {} bytes",
        rss
    );
    assert_eq!(rss, held.len() as u64);
}

#[test]
fn failed_or_missing_samples_have_no_size() {
    assert_eq!(resident_bytes(None), None);
    assert_eq!(resident_bytes(Some(TaskSample { rc: 4, resident_size: 9 })), None);
    assert_eq!(meow_resident_bytes(None), 0);
    assert_eq!(meow_resident_bytes(Some(TaskSample { rc: 4, resident_size: 9 })), 0);
    assert_eq!(meow_resident_bytes(Some(TaskSample { rc: 0, resident_size: 9 })), 9);
}
