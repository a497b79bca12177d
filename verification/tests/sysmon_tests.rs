use archvnde::sysmon::{cpu_times_fit, cpu_usage, get_cpu_raw, hex_rgb_channels, meminfo_fields, CpuTime};

#[test]
fn cpu_times_from_stat() {
    let stat = "cpu  10 20 30 400 5 6 7 8 9 10\ncpu0 1 2 3 4 5 6 7 8\n";
    assert!(cpu_times_fit(stat));
    let c = get_cpu_raw(stat).unwrap();
    assert_eq!(c.idle, 405);
    assert_eq!(c.total, 10 + 20 + 30 + 405 + 6 + 7 + 8);
    let short = get_cpu_raw("cpu 1 2 3 4\n").unwrap();
    assert_eq!(short, CpuTime { total: 10, idle: 4 });
    let junk = get_cpu_raw("cpu x 2 y 4 z\n").unwrap();
    assert_eq!(junk, CpuTime { total: 6, idle: 4 });
    assert_eq!(get_cpu_raw("cpu 1 2 3\n"), None);
    assert_eq!(get_cpu_raw("intr 1 2 3 4 5\n"), None);
    assert_eq!(get_cpu_raw(""), None);
}

#[test]
fn cpu_overflow_detected() {
    let big = "cpu 18446744073709551615 1 0 0 0\n";
    assert!(!cpu_times_fit(big));
    assert!(cpu_times_fit("cpu 18446744073709551615 0 0 0 0\n"));
}

#[test]
fn cpu_load_between_readings() {
    let a = CpuTime { total: 1000, idle: 800 };
    let b = CpuTime { total: 1100, idle: 850 };
    assert_eq!(cpu_usage(None, b), None);
    assert_eq!(cpu_usage(Some(a), b), Some((50, 100)));
    assert_eq!(cpu_usage(Some(b), a), None);
    assert_eq!(cpu_usage(Some(a), CpuTime { total: 1010, idle: 900 }), Some((0, 10)));
}

#[test]
fn memory_fields() {
    let m = "MemTotal:       16000000 kB\nMemFree:         1000 kB\nMemAvailable:    8000000 kB\n";
    assert_eq!(
        meminfo_fields(m),
        (Some("16000000".to_string()), Some("8000000".to_string()))
    );
    assert_eq!(meminfo_fields("MemTotal: 1\nMemTotal: 2\n").0, Some("2".to_string()));
    assert_eq!(meminfo_fields("MemTotal:\n"), (None, None));
}

#[test]
fn chart_colours() {
    assert_eq!(hex_rgb_channels("#3b82f6"), Some((0x3b, 0x82, 0xf6)));
    assert_eq!(hex_rgb_channels("##a855f7"), Some((0xa8, 0x55, 0xf7)));
    assert_eq!(hex_rgb_channels("#ff"), Some((0, 0, 0xff)));
    assert_eq!(hex_rgb_channels("#zz"), None);
    assert_eq!(hex_rgb_channels("#"), None);
}
