//! The rules around the ingestion: sizes, versions and releases.

use showcase_studio::sqlite_manager::format_bytes;
use showcase_studio::version_manager::{
    find_latest_release, get_current_version, get_version_info, parse_version_info,
    published_at, release_link, should_update, update_due, update_info, GitHubRelease,
    CURRENT_VERSION,
};

fn float_shown(bytes: u64) -> String {
    const KB: u64 = 1024;
    const MB: u64 = KB * 1024;
    const GB: u64 = MB * 1024;
    if bytes >= GB {
        format!("{:.2} GB", bytes as f64 / GB as f64)
    } else if bytes >= MB {
        format!("{:.2} MB", bytes as f64 / MB as f64)
    } else if bytes >= KB {
        format!("{:.2} KB", bytes as f64 / KB as f64)
    } else {
        format!("{} bytes", bytes)
    }
}

#[test]
fn sizes_are_shown_with_two_decimals() {
    assert_eq!(format_bytes(0), "0 bytes");
    assert_eq!(format_bytes(1), "1 bytes");
    assert_eq!(format_bytes(1023), "1023 bytes");
    assert_eq!(format_bytes(1024), "1.00 KB");
    assert_eq!(format_bytes(1536), "1.50 KB");
    assert_eq!(format_bytes(1048575), "1024.00 KB");
    assert_eq!(format_bytes(1048576), "1.00 MB");
    assert_eq!(format_bytes(5 * 1048576 + 1048576 / 4), "5.25 MB");
    assert_eq!(format_bytes(1073741823), "1024.00 MB");
    assert_eq!(format_bytes(1073741824), "1.00 GB");
    assert_eq!(format_bytes(3 * 1073741824 / 2), "1.50 GB");
    assert_eq!(format_bytes(u64::MAX), "17179869184.00 GB");
}

#[test]
fn a_tie_goes_to_the_even_hundredth() {
    // 1152 / 1024 = 1.125 exactly.
    assert_eq!(format_bytes(1152), "1.12 KB");
    // 1408 / 1024 = 1.375 exactly.
    assert_eq!(format_bytes(1408), "1.38 KB");
    assert_eq!(format_bytes(1152), float_shown(1152));
    assert_eq!(format_bytes(1408), float_shown(1408));
}

#[test]
fn sizes_agree_with_floating_point() {
    let mut seed: u64 = 99;
    let mut samples: Vec<u64> = Vec::new();
    for shift in 0..64 {
        let base = 1u64 << shift;
        for delta in [0u64, 1, 2, 3, 5, 10, 127, 128, 129, 511, 512, 513, 1023] {
            samples.push(base.wrapping_add(delta));
            samples.push(base.wrapping_sub(delta));
            samples.push(base.wrapping_mul(3).wrapping_add(delta));
        }
    }
    for _ in 0..20000 {
        seed = seed.wrapping_mul(6364136223846793005).wrapping_add(1442695040888963407);
        samples.push(seed);
        samples.push(seed >> (seed % 64));
        // Multiples of 128 hold the ties of the KB range.
        samples.push((seed >> 40) * 128);
        // Ties of the MB and GB ranges.
        samples.push((seed >> 44) * 131072);
        samples.push((seed >> 30) * 134217728);
    }
    // Numbers between two doubles, around the places where hundredths change.
    for k in 0..2000u64 {
        let near = (1u64 << 63) + k * (1u64 << 27) / 25 * 25;
        for d in [0u64, 1, 1023, 1024, 1025, 2047, 2048] {
            samples.push(near.wrapping_add(d));
            samples.push(near.wrapping_sub(d));
        }
    }
    for bytes in samples {
        assert_eq!(format_bytes(bytes), float_shown(bytes), "{}", bytes);
    }
}

#[test]
fn a_release_tag_is_read() {
    assert_eq!(parse_version_info("v0.1.3-beta"), ("0.1.3".to_string(), "Beta".to_string()));
    assert_eq!(parse_version_info("0.1.3-BETA"), ("0.1.3".to_string(), "Beta".to_string()));
    assert_eq!(parse_version_info("v1.0.0"), ("1.0.0".to_string(), "Stable".to_string()));
    assert_eq!(parse_version_info("v2.0.0-release"), ("2.0.0".to_string(), "Release".to_string()));
    assert_eq!(parse_version_info("v2.0.1-HotFix"), ("2.0.1".to_string(), "Hot Fix".to_string()));
    assert_eq!(parse_version_info("v2.0.1-rc1"), ("2.0.1".to_string(), "Unknown".to_string()));
    assert_eq!(
        parse_version_info("v2.0.1-beta-2"),
        ("2.0.1".to_string(), "Beta".to_string())
    );
    assert_eq!(parse_version_info("v2.0.1-"), ("2.0.1".to_string(), "Unknown".to_string()));
    assert_eq!(parse_version_info(""), ("".to_string(), "Stable".to_string()));
    assert_eq!(parse_version_info("v"), ("".to_string(), "Stable".to_string()));
    assert_eq!(parse_version_info("vv1"), ("v1".to_string(), "Stable".to_string()));
    assert_eq!(parse_version_info("-beta"), ("".to_string(), "Beta".to_string()));
    assert_eq!(parse_version_info("V1.0"), ("V1.0".to_string(), "Stable".to_string()));
}

#[test]
fn the_version_of_the_application() {
    let info = get_version_info("0.1.3-beta".to_string());
    assert_eq!(info.version, "0.1.3");
    assert_eq!(info.branch, "Beta");
    // No `v` is taken off here.
    let info = get_version_info("v0.1.3".to_string());
    assert_eq!(info.version, "v0.1.3");
    assert_eq!(info.branch, "Stable");
    let current = get_current_version();
    assert_eq!(CURRENT_VERSION, "0.1.3-beta");
    assert_eq!(current.version, "0.1.3");
    assert_eq!(current.branch, "Beta");
}

#[test]
fn an_update_is_due_for_a_later_version_only() {
    assert!(should_update("0.1.3", "0.1.4"));
    assert!(should_update("0.1.3", "0.2.0"));
    assert!(should_update("0.9.9", "1.0.0"));
    assert!(should_update("1.5.0", "1.19.0"));
    assert!(should_update("0.1.3-beta", "0.1.3"));
    assert!(should_update("1.0.0-alpha", "1.0.0-alpha.1"));
    assert!(!should_update("0.1.3", "0.1.3"));
    assert!(!should_update("0.1.4", "0.1.3"));
    assert!(!should_update("0.1.3", "0.1.3-beta"));
    assert!(!should_update("0.1", "0.2.0"));
    assert!(!should_update("0.1.3", "latest"));
    assert!(!should_update("", ""));
    assert!(!should_update("0.1.3", "v0.1.4"));
    // The two arguments are not mixed up.
    assert!(should_update("1.0.0", "2.0.0") && !should_update("2.0.0", "1.0.0"));
    assert!(update_due(Some(true)));
    assert!(!update_due(Some(false)));
    assert!(!update_due(None));
}

#[test]
fn what_is_told_about_a_release() {
    let info = update_info("0.1.3", "v0.2.0-release");
    assert_eq!(info.version, "0.2.0");
    assert_eq!(info.branch, "Release");
    assert!(info.should_update);
    let info = update_info("0.2.0", "v0.2.0");
    assert!(!info.should_update);
    assert_eq!(info.branch, "Stable");
    assert_eq!(
        release_link("v0.2.0"),
        "https://github.com/MegalithOfficial/Showcase-Studio/releases/tag/v0.2.0"
    );
}

fn release(tag: &str, date: &str) -> GitHubRelease {
    GitHubRelease { tag_name: tag.to_string(), published_at: date.to_string() }
}

#[test]
fn the_latest_release_is_the_one_published_last() {
    assert_eq!(find_latest_release(&Vec::new()), None);
    let releases = vec![
        release("v1", "2024-01-01T00:00:00Z"),
        release("v3", "2024-03-01T12:00:00+02:00"),
        release("v2", "2024-02-01T00:00:00Z"),
    ];
    assert_eq!(find_latest_release(&releases), Some(1));
    // Of two published at the same instant the one listed last is taken.
    let releases = vec![
        release("a", "2024-03-01T10:00:00Z"),
        release("b", "2024-03-01T12:00:00+02:00"),
        release("c", "2024-02-01T00:00:00Z"),
    ];
    assert_eq!(find_latest_release(&releases), Some(1));
    // A date that cannot be read counts as the epoch.
    let releases = vec![release("a", "yesterday"), release("b", "1969-12-31T23:59:59Z")];
    assert_eq!(find_latest_release(&releases), Some(0));
    let releases = vec![release("a", "yesterday"), release("b", "")];
    assert_eq!(find_latest_release(&releases), Some(1));
    let releases = vec![
        release("a", "2024-01-01T00:00:00.5Z"),
        release("b", "2024-01-01T00:00:00.25Z"),
    ];
    assert_eq!(find_latest_release(&releases), Some(0));
}

#[test]
fn the_latest_release_agrees_with_the_library_order() {
    let dates = [
        "2024-01-01T00:00:00Z",
        "2023-12-31T23:59:60Z",
        "2024-01-01T00:00:00+00:01",
        "nonsense",
        "1970-01-01T00:00:00Z",
        "2024-01-01T01:00:00+01:00",
        "1960-06-01T00:00:00.123456789Z",
    ];
    for skip in 0..dates.len() {
        let releases: Vec<GitHubRelease> =
            dates.iter().skip(skip).map(|d| release("t", d)).collect();
        let expected = releases
            .iter()
            .enumerate()
            .max_by(|a, b| {
                let x = chrono::DateTime::parse_from_rfc3339(&a.1.published_at).unwrap_or_default();
                let y = chrono::DateTime::parse_from_rfc3339(&b.1.published_at).unwrap_or_default();
                x.cmp(&y)
            })
            .map(|p| p.0);
        assert_eq!(find_latest_release(&releases), expected);
    }
    assert_eq!(published_at("1970-01-01T00:00:01Z"), (1, 0));
    assert_eq!(published_at("2024-03-01T12:00:00.5+02:00"), (1709287200, 500_000_000));
    assert_eq!(published_at("soon"), (0, 0));
}

#[test]
fn the_latest_of_some_instants() {
    use_latest();
}

fn use_latest() {
    let latest = showcase_studio::version_manager::latest_instant;
    assert_eq!(latest(&Vec::new()), None);
    assert_eq!(latest(&vec![(5, 0)]), Some(0));
    assert_eq!(latest(&vec![(5, 0), (5, 1), (4, 9)]), Some(1));
    assert_eq!(latest(&vec![(5, 1), (5, 1), (5, 0)]), Some(1));
    assert_eq!(latest(&vec![(-1, 0), (i64::MIN, u32::MAX), (-1, 0)]), Some(2));
    assert_eq!(latest(&vec![(i64::MAX, 0), (0, u32::MAX)]), Some(0));
}

#[test]
fn when_a_release_counts_as_published() {
    let from = showcase_studio::version_manager::published_from;
    assert_eq!(from(Some((17, 3))), (17, 3));
    assert_eq!(from(Some((-1, 0))), (-1, 0));
    assert_eq!(from(None), (0, 0));
}
