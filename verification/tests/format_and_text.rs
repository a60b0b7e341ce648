use rvn::display::format_bytes;
use rvn::text::{chars_of, is_whitespace};

fn float_format(bytes: u64) -> String {
    const KB: u64 = 1024;
    const MB: u64 = KB * 1024;
    const GB: u64 = MB * 1024;
    if bytes >= GB {
        format!("{:.2} GB", bytes as f64 / GB as f64)
    } else if bytes >= MB {
        format!("{:.2} MB", bytes as f64 / MB as f64)
    } else if bytes >= KB {
        format!("{:.2} KB", bytes as f64 / KB as f64)
    } else {
        format!("{} B", bytes)
    }
}

#[test]
fn format_bytes_units() {
    assert_eq!(format_bytes(0), "0 B");
    assert_eq!(format_bytes(512), "512 B");
    assert_eq!(format_bytes(1023), "1023 B");
    assert_eq!(format_bytes(1024), "1.00 KB");
    assert_eq!(format_bytes(1536), "1.50 KB");
    assert_eq!(format_bytes(1024 * 1024), "1.00 MB");
    assert_eq!(format_bytes(1024 * 1024 * 1024), "1.00 GB");
    assert_eq!(format_bytes(3 * 1024 * 1024 * 1024 + 256 * 1024 * 1024), "3.25 GB");
}

#[test]
fn format_bytes_ties_round_to_even() {
    // 1.125 MB and 1.375 MB lie exactly half-way between two hundredths.
    assert_eq!(format_bytes(1_179_648), float_format(1_179_648));
    assert_eq!(format_bytes(1_441_792), float_format(1_441_792));
    assert_eq!(format_bytes(1_179_648), "1.12 MB");
    assert_eq!(format_bytes(1_441_792), "1.38 MB");
}

#[test]
fn format_bytes_matches_float_rendering() {
    let mut edges: Vec<u64> = vec![
        1023, 1024, 1025, 10239, 10240, 1048575, 1048576, 1048577, 1073741823, 1073741824,
        1073741825, u64::MAX, u64::MAX - 1, 1 << 53, (1 << 53) + 1, (1 << 54) + 2, (1 << 54) + 6,
        (1u64 << 63) + 1024, 9_007_199_254_740_993, 123_456_789_012_345_678,
    ];
    let mut x: u64 = 0x9e37_79b9_7f4a_7c15;
    for _ in 0..20000 {
        x = x.wrapping_mul(6364136223846793005).wrapping_add(1442695040888963407);
        edges.push(x >> (x % 64));
        edges.push(x);
    }
    for k in 0..2000u64 {
        edges.push(k * 10_485); // hits many hundredths in KB and MB
        edges.push((k * 655_360) / 100 * 100 + 1_048_576);
    }
    for b in edges {
        assert_eq!(format_bytes(b), float_format(b), "bytes = {}", b);
    }
}

#[test]
fn whitespace_matches_std() {
    for u in 0u32..=0x10FFFF {
        if let Some(c) = char::from_u32(u) {
            assert_eq!(is_whitespace(c), c.is_whitespace(), "code point {:#x}", u);
        }
    }
}

#[test]
fn chars_of_keeps_characters() {
    let s = "päckage-ü ✓";
    assert_eq!(chars_of(s), s.chars().collect::<Vec<char>>());
    assert!(chars_of("").is_empty());
}

fn shown_value(s: &str) -> f64 {
    let (n, unit) = s.split_once(' ').unwrap();
    let scale = match unit {
        "B" => 1.0,
        "KB" => 1024.0,
        "MB" => 1048576.0,
        _ => 1073741824.0,
    };
    n.parse::<f64>().unwrap() * scale
}

#[test]
fn law_larger_count_never_shows_less() {
    let mut samples: Vec<u64> = vec![0, 1, 1023, 1024, 1048575, 1048576, 1073741823, 1073741824, u64::MAX];
    let mut x: u64 = 12345;
    for _ in 0..5000 {
        x = x.wrapping_mul(6364136223846793005).wrapping_add(1);
        samples.push(x >> (x % 64));
    }
    samples.sort();
    for w in samples.windows(2) {
        assert!(shown_value(&format_bytes(w[0])) <= shown_value(&format_bytes(w[1])), "{} {}", w[0], w[1]);
    }
}
