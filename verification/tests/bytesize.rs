use smart_horizoker::bytesize::format_bytes;

/// The same text by way of floating point numbers.
fn by_floats(bytes: u64) -> String {
    let units = ["B", "KB", "MB", "GB", "TB", "PB"];
    let mut value = bytes as f64;
    let mut unit = 0;
    while value >= 1024.0 && unit < units.len() - 1 {
        value /= 1024.0;
        unit += 1;
    }
    if unit == 0 {
        format!("{:.0} {}", value, units[unit])
    } else {
        format!("{:.2} {}", value, units[unit])
    }
}

#[test]
fn bytes_below_a_kilobyte_are_whole() {
    assert_eq!(format_bytes(0), "0 B");
    assert_eq!(format_bytes(7), "7 B");
    assert_eq!(format_bytes(1023), "1023 B");
}

#[test]
fn each_unit_has_its_symbol() {
    assert_eq!(format_bytes(1024), "1.00 KB");
    assert_eq!(format_bytes(1536), "1.50 KB");
    assert_eq!(format_bytes(1 << 20), "1.00 MB");
    assert_eq!(format_bytes(1 << 30), "1.00 GB");
    assert_eq!(format_bytes(1 << 40), "1.00 TB");
    assert_eq!(format_bytes(1 << 50), "1.00 PB");
    assert_eq!(format_bytes(1 << 60), "1024.00 PB");
    assert_eq!(format_bytes(u64::MAX), "16384.00 PB");
}

#[test]
fn halves_go_to_the_even_neighbour() {
    assert_eq!(format_bytes(1152), "1.12 KB");
    assert_eq!(format_bytes(1408), "1.38 KB");
    assert_eq!(format_bytes(1048575), "1024.00 KB");
}

#[test]
fn integers_agree_with_floating_point() {
    for n in 0..200_000u64 {
        assert_eq!(format_bytes(n), by_floats(n));
    }
    let mut n: u64 = 1;
    for i in 0..200_000u64 {
        n = n.wrapping_mul(6364136223846793005).wrapping_add(1442695040888963407);
        let m = n >> (i % 64);
        assert_eq!(format_bytes(m), by_floats(m));
    }
    for shift in 0..64 {
        for d in 0..300u64 {
            let base = 1u64 << shift;
            assert_eq!(format_bytes(base.wrapping_add(d)), by_floats(base.wrapping_add(d)));
            assert_eq!(format_bytes(base.wrapping_sub(d)), by_floats(base.wrapping_sub(d)));
        }
    }
}
