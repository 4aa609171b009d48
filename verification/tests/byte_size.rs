use gitup::byte_size::{format_bytesize, GIGABYTE, KILOBYTE, MEGABYTE};

fn with_doubles(size: u64) -> String {
    if size < KILOBYTE {
        format!("{} B", size)
    } else if size < MEGABYTE {
        format!("{:.2} KB", size as f64 / KILOBYTE as f64)
    } else if size < GIGABYTE {
        format!("{:.2} MB", size as f64 / MEGABYTE as f64)
    } else {
        format!("{:.2} GB", size as f64 / GIGABYTE as f64)
    }
}

#[test]
fn format_bytesize_exact_values() {
    assert_eq!(format_bytesize(0), "0 B");
    assert_eq!(format_bytesize(1023), "1023 B");
    assert_eq!(format_bytesize(1024), "1.00 KB");
    assert_eq!(format_bytesize(1536), "1.50 KB");
    assert_eq!(format_bytesize(MEGABYTE), "1.00 MB");
    assert_eq!(format_bytesize(GIGABYTE), "1.00 GB");
    assert_eq!(format_bytesize(5 * GIGABYTE / 2), "2.50 GB");
}

#[test]
fn format_bytesize_rounds_like_two_decimal_formatting() {
    let mut samples: Vec<u64> = Vec::new();
    for base in [KILOBYTE, MEGABYTE, GIGABYTE] {
        for k in 0..3000u64 {
            samples.push(base + k * 7919 % (base * 3));
            samples.push(base * (k + 1) - 1);
            samples.push(base * k + base / 2);
        }
    }
    // ties at half a hundredth: 1.005 KB, 1.015 KB, ...
    for k in 0..200u64 {
        samples.push(1024 + 1024 * (2 * k + 1) / 200);
        samples.push((1024 * (200 + 2 * k + 1)) / 200);
    }
    for s in samples {
        assert_eq!(format_bytesize(s), with_doubles(s), "size {}", s);
    }
}

#[test]
fn format_bytesize_large_values_round_through_doubles() {
    let big = [
        u64::MAX,
        u64::MAX - 1,
        (1u64 << 53) + 1,
        (1u64 << 53) * 1024 + 511,
        (1u64 << 60) + 12345,
        9_999_999_999_999_999_999,
        1u64 << 63,
    ];
    for s in big {
        assert_eq!(format_bytesize(s), with_doubles(s), "size {}", s);
    }
}
