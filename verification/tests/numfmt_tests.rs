use harbor_cache::numfmt::{format_bytes, format_i64, format_size, format_u64, push_decimal};

#[test]
fn test_format_bytes() {
    assert_eq!(format_bytes(0), "0 B");
    assert_eq!(format_bytes(500), "500 B");
    assert_eq!(format_bytes(1024), "1.00 KB");
    assert_eq!(format_bytes(1536), "1.50 KB");
    assert_eq!(format_bytes(1048576), "1.00 MB");
    assert_eq!(format_bytes(1073741824), "1.00 GB");
    assert_eq!(format_bytes(1099511627776), "1.00 TB");
    assert_eq!(format_bytes(-100), "-100 B");
}

#[test]
fn decimal_rendering() {
    assert_eq!(format_u64(0), "0");
    assert_eq!(format_u64(7), "7");
    assert_eq!(format_u64(1234567890), "1234567890");
    assert_eq!(format_u64(u64::MAX), "18446744073709551615");
    assert_eq!(format_i64(-1), "-1");
    assert_eq!(format_i64(i64::MIN), "-9223372036854775808");
    assert_eq!(format_i64(i64::MAX), "9223372036854775807");
    let mut s = String::from("n=");
    push_decimal(&mut s, 42);
    assert_eq!(s, "n=42");
}

fn float_reference(bytes: u64) -> String {
    const KB: f64 = 1024.0;
    const MB: f64 = KB * 1024.0;
    const GB: f64 = MB * 1024.0;
    const TB: f64 = GB * 1024.0;
    let b = bytes as f64;
    if b >= TB {
        format!("{:.2} TB", b / TB)
    } else if b >= GB {
        format!("{:.2} GB", b / GB)
    } else if b >= MB {
        format!("{:.2} MB", b / MB)
    } else if bytes >= 1024 {
        format!("{:.2} KB", b / KB)
    } else {
        format!("{} B", bytes)
    }
}

#[test]
fn sizes_round_as_floating_point_does() {
    assert_eq!(format_size(1152), "1.12 KB");
    assert_eq!(format_size(1023), "1023 B");
    assert_eq!(format_size(1047552), "1023.00 KB");
    let samples: [u64; 14] = [
        1024,
        1025,
        1152,
        1153,
        1535,
        10240,
        1048575,
        1048577,
        5 * 1073741824 + 123456789,
        1099511627775,
        1099511627776 * 3 + 17,
        9007199254740993,
        u64::MAX / 3,
        u64::MAX,
    ];
    for b in samples {
        assert_eq!(format_size(b), float_reference(b), "bytes = {}", b);
    }
    let mut b: u64 = 1;
    while b < u64::MAX / 7 {
        assert_eq!(format_size(b), float_reference(b), "bytes = {}", b);
        b = b * 7 + 3;
    }
}
