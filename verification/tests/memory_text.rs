use rtop::memory::format_memory;

fn float_formatted(bytes: u64) -> String {
    const GB: u64 = 1024 * 1024 * 1024;
    const MB: u64 = 1024 * 1024;
    const KB: u64 = 1024;
    if bytes >= GB {
        format!("{:.1} GB", bytes as f64 / GB as f64)
    } else if bytes >= MB {
        format!("{:.1} MB", bytes as f64 / MB as f64)
    } else if bytes >= KB {
        format!("{:.1} KB", bytes as f64 / KB as f64)
    } else {
        format!("{bytes} B")
    }
}

#[test]
fn bytes_below_one_kb() {
    assert_eq!(format_memory(0), "0 B");
    assert_eq!(format_memory(7), "7 B");
    assert_eq!(format_memory(512), "512 B");
    assert_eq!(format_memory(1023), "1023 B");
}

#[test]
fn kilobytes_with_one_decimal() {
    assert_eq!(format_memory(1024), "1.0 KB");
    assert_eq!(format_memory(1536), "1.5 KB");
    assert_eq!(format_memory(1024 * 1024 - 1), "1024.0 KB");
}

#[test]
fn ties_round_to_even() {
    // 1280 bytes is exactly 1.25 KB and 1792 bytes exactly 1.75 KB.
    assert_eq!(format_memory(1280), "1.2 KB");
    assert_eq!(format_memory(1792), "1.8 KB");
    assert_eq!(format_memory(1280), float_formatted(1280));
    assert_eq!(format_memory(1792), float_formatted(1792));
}

#[test]
fn megabytes_and_gigabytes() {
    assert_eq!(format_memory(1024 * 1024), "1.0 MB");
    assert_eq!(format_memory(5 * 1024 * 1024 + 512 * 1024), "5.5 MB");
    assert_eq!(format_memory(1024 * 1024 * 1024), "1.0 GB");
    assert_eq!(format_memory(3 * 1024 * 1024 * 1024 / 2), "1.5 GB");
}

#[test]
fn very_large_sizes_round_like_floats() {
    let limit: u64 = 1 << 53;
    for bytes in [limit - 1, limit, limit + 1, limit + 2, limit + 3, limit * 3 + 5, u64::MAX, u64::MAX - 1024, u64::MAX / 3] {
        assert_eq!(format_memory(bytes), float_formatted(bytes), "bytes = {bytes}");
    }
    assert_eq!(format_memory(u64::MAX), "17179869184.0 GB");
}

#[test]
fn agrees_with_float_printing_on_a_sweep() {
    let mut x: u64 = 0x2545_f491_4f6c_dd1d;
    for _ in 0..20000 {
        x ^= x << 13;
        x ^= x >> 7;
        x ^= x << 17;
        let shift = (x % 64) as u32;
        let bytes = x >> shift;
        assert_eq!(format_memory(bytes), float_formatted(bytes), "bytes = {bytes}");
    }
    for bytes in 0..5000u64 {
        assert_eq!(format_memory(bytes), float_formatted(bytes), "bytes = {bytes}");
    }
    for k in 0..4096u64 {
        let bytes = 1024 * 1024 * 1024 + k * 13_107;
        assert_eq!(format_memory(bytes), float_formatted(bytes), "bytes = {bytes}");
    }
}
