use vicuna::vram::format_size;

#[test]
fn format_size_units() {
    assert_eq!(format_size(0), "0 B");
    assert_eq!(format_size(1023), "1023 B");
    assert_eq!(format_size(1024 * 1024), "1.00 MB");
    assert_eq!(format_size(1536 * 1024), "1.50 MB");
    assert_eq!(format_size(1024 * 1024 * 1024), "1.00 GB");
    assert_eq!(format_size(4_661_224_676), "4.34 GB");
}

#[test]
fn format_size_matches_float_formatting() {
    const MB: u64 = 1024 * 1024;
    const GB: u64 = MB * 1024;
    let reference = |bytes: u64| {
        if bytes >= GB {
            format!("{:.2} GB", bytes as f64 / GB as f64)
        } else if bytes >= MB {
            format!("{:.2} MB", bytes as f64 / MB as f64)
        } else {
            format!("{} B", bytes)
        }
    };
    let mut samples: Vec<u64> = vec![
        GB + GB / 8,
        GB + 3 * GB / 8,
        MB + MB / 8,
        MB * 5 / 8,
        u64::MAX,
        u64::MAX - 1,
        (1u64 << 53) + 1,
        (1u64 << 60) + 12345,
        7_000_000_000,
        123_456_789,
    ];
    let mut x: u64 = 0x9E37_79B9_7F4A_7C15;
    for _ in 0..20000 {
        x ^= x << 13;
        x ^= x >> 7;
        x ^= x << 17;
        samples.push(x >> (x % 64));
        samples.push((x % 4096) * (MB / 8));
    }
    for b in samples {
        assert_eq!(format_size(b), reference(b), "{b}");
    }
}
