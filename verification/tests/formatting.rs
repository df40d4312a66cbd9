use file_inspector::format_file_size;
use file_inspector::inspector::FileInspectorApp;
use file_inspector::search::{size_label, tag_chip, truncate_text};

fn float_rendering(bytes: u64) -> String {
    const KB: u64 = 1024;
    const MB: u64 = KB * 1024;
    const GB: u64 = MB * 1024;
    if bytes >= GB {
        format!("{:.2} GB", bytes as f64 / GB as f64)
    } else if bytes >= MB {
        format!("{:.2} MB", bytes as f64 / MB as f64)
    } else if bytes >= KB {
        format!("{:.2} KB", bytes as f64 / KB as f64)
    } else {
        format!("{} bytes", bytes)
    }
}

#[test]
fn file_size_plain_bytes() {
    assert_eq!(format_file_size(0), "0 bytes");
    assert_eq!(format_file_size(1), "1 bytes");
    assert_eq!(format_file_size(1023), "1023 bytes");
}

#[test]
fn file_size_units() {
    assert_eq!(format_file_size(1024), "1.00 KB");
    assert_eq!(format_file_size(1536), "1.50 KB");
    assert_eq!(format_file_size(1024 * 1024), "1.00 MB");
    assert_eq!(format_file_size(5 * 1024 * 1024 + 1024 * 1024 / 4), "5.25 MB");
    assert_eq!(format_file_size(1024 * 1024 * 1024), "1.00 GB");
    assert_eq!(format_file_size(1_000_000_000_000), "931.32 GB");
}

#[test]
fn file_size_ties_round_to_even() {
    // 1152 bytes is exactly 1.125 KB, 1.125 MB and so on: a tie between two hundredths.
    assert_eq!(format_file_size(1152), float_rendering(1152));
    assert_eq!(format_file_size(1152), "1.12 KB");
    assert_eq!(format_file_size(1152 * 1024), float_rendering(1152 * 1024));
    assert_eq!(format_file_size(3200), float_rendering(3200));
}

#[test]
fn file_size_agrees_with_float_rendering() {
    let mut samples: Vec<u64> = vec![
        1023,
        1024,
        1025,
        2047,
        10_240,
        1_048_575,
        1_048_576,
        1_073_741_823,
        1_073_741_824,
        (1u64 << 53) - 1,
        1u64 << 53,
        (1u64 << 53) + 1,
        (1u64 << 53) + 3,
        (1u64 << 54) + 2,
        (1u64 << 54) + 6,
        u64::MAX,
        u64::MAX - 1024,
        u64::MAX / 3,
    ];
    let mut x: u64 = 0x9e37_79b9_7f4a_7c15;
    for _ in 0..20000 {
        x ^= x << 13;
        x ^= x >> 7;
        x ^= x << 17;
        samples.push(x >> (x % 64));
    }
    for n in 1000u64..5000 {
        samples.push(n);
    }
    for b in samples {
        assert_eq!(format_file_size(b), float_rendering(b), "bytes = {}", b);
    }
}

#[test]
fn size_label_shows_exact_count() {
    assert_eq!(size_label(1536), "1.50 KB (1536 bytes)");
    assert_eq!(size_label(12), "12 bytes (12 bytes)");
}

#[test]
fn truncate_long_and_short_names() {
    assert_eq!(
        FileInspectorApp::truncate_name("abcdefghijklmnopqrstuvwxyz.txt", 15),
        "abcdefghijklmno..."
    );
    assert_eq!(FileInspectorApp::truncate_name("short.txt", 15), "short.txt");
    assert_eq!(FileInspectorApp::truncate_name("exactly15chars!", 15), "exactly15chars!");
    assert_eq!(FileInspectorApp::truncate_name("ééééé", 3), "ééé...");
    assert_eq!(truncate_text("", 0), "");
    assert_eq!(truncate_text("a", 0), "...");
}

#[test]
fn tag_chip_brackets() {
    assert_eq!(tag_chip("rust"), "[rust]");
}
