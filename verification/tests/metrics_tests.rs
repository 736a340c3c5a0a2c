use lego_radio::metrics::{
    cpu_advance, metrics_step, parse_meminfo_value, read_cpu_stats_raw, read_cpu_temperature,
    read_memory_usage, CpuTimes, MemoryUse, MetricsAction, METRICS_INTERVAL_SECS,
};

const STAT: &str = "cpu  100 20 30 400 50 6 7 80 9 10\ncpu0 1 2 3 4 5\n";

const MEMINFO: &str = "MemTotal:        3884376 kB\nMemFree:          200000 kB\nMemAvailable:    2097152 kB\nBuffers:           10 kB\n";

#[test]
#[allow(clippy::assertions_on_constants)]
fn test_metrics_interval_reasonable() {
    // Interval should be at least 10 seconds to avoid spamming
    assert!(METRICS_INTERVAL_SECS >= 10);
}

#[test]
fn test_cpu_temperature_reading() {
    let temp = read_cpu_temperature("48312\n");
    assert!(temp.is_some());
    let temp = temp.unwrap() as f32 / 1000.0;
    // Temperature should be reasonable (0-100°C)
    assert!(temp >= 0.0 && temp <= 100.0);
}

#[test]
fn test_cpu_usage_reading() {
    let first = read_cpu_stats_raw(STAT).unwrap();
    let second = read_cpu_stats_raw("cpu 150 20 30 450 50 6 7").unwrap();
    let advance = cpu_advance(first, second);
    assert_eq!(advance, CpuTimes { idle: 50, total: 100 });
    let usage = 100.0 * (1.0 - (advance.idle as f32 / advance.total as f32));
    assert!(usage >= 0.0 && usage <= 100.0);
}

#[test]
fn test_memory_usage_reading() {
    let mem = read_memory_usage(MEMINFO);
    assert!(mem.is_some());
    let mem = mem.unwrap();
    let percent = 100.0 * (mem.used_kb as f32 / mem.total_kb as f32);
    let (available, total) = (mem.available_mb(), mem.total_mb());
    assert!(percent >= 0.0 && percent <= 100.0);
    assert!(total > 0);
    assert!(available <= total);
    assert_eq!((available, total), (2048, 3793));
}

#[test]
fn idle_time_counts_waiting_and_total_ends_at_the_seventh() {
    assert_eq!(
        read_cpu_stats_raw(STAT),
        Some(CpuTimes {
            idle: 450,
            total: 613
        })
    );
    assert_eq!(
        read_cpu_stats_raw("cpu 1 2 3 4"),
        Some(CpuTimes { idle: 4, total: 10 })
    );
    assert_eq!(
        read_cpu_stats_raw("cpu 1 2 x 3 4"),
        Some(CpuTimes { idle: 4, total: 10 })
    );
}

#[test]
fn other_texts_hold_no_processor_times() {
    assert_eq!(read_cpu_stats_raw(""), None);
    assert_eq!(read_cpu_stats_raw("cpu0 1 2 3 4"), None);
    assert_eq!(read_cpu_stats_raw("cpu 1 2 3"), None);
    assert_eq!(read_cpu_stats_raw("\ncpu 1 2 3 4"), None);
}

#[test]
fn processor_times_may_be_as_large_as_they_come() {
    let max = u64::MAX;
    let text = format!("cpu {max} {max} {max} {max} {max} {max} {max}");
    assert_eq!(
        read_cpu_stats_raw(&text),
        Some(CpuTimes {
            idle: 2 * max as u128,
            total: 7 * max as u128
        })
    );
}

#[test]
fn processor_times_that_went_back_did_not_advance() {
    let early = CpuTimes { idle: 5, total: 9 };
    let late = CpuTimes { idle: 4, total: 12 };
    assert_eq!(cpu_advance(early, late), CpuTimes { idle: 0, total: 3 });
}

#[test]
fn temperatures_are_signed() {
    assert_eq!(read_cpu_temperature(" -5000 "), Some(-5000));
    assert_eq!(read_cpu_temperature("+1"), Some(1));
    assert_eq!(read_cpu_temperature("-2147483648"), Some(i32::MIN));
    assert_eq!(read_cpu_temperature("2147483648"), None);
    assert_eq!(read_cpu_temperature("hot"), None);
    assert_eq!(read_cpu_temperature(""), None);
}

#[test]
fn memory_lines_hold_their_number_in_the_second_word() {
    assert_eq!(parse_meminfo_value("MemTotal:  1234567 kB"), Some(1234567));
    assert_eq!(parse_meminfo_value("MemTotal:"), None);
    assert_eq!(parse_meminfo_value("MemTotal: many"), None);
    assert_eq!(parse_meminfo_value("x 18446744073709551616"), None);
}

#[test]
fn memory_use_needs_a_total() {
    assert_eq!(read_memory_usage(""), None);
    assert_eq!(read_memory_usage("MemAvailable: 5 kB"), None);
    assert_eq!(read_memory_usage("MemTotal: 0 kB"), None);
    assert_eq!(read_memory_usage("MemTotal: 10 kB\nMemAvailable: ?"), None);
    assert_eq!(
        read_memory_usage("MemTotal: 10 kB\r\nMemAvailable: 12 kB"),
        Some(MemoryUse {
            total_kb: 10,
            available_kb: 12,
            used_kb: 0
        })
    );
    assert_eq!(
        read_memory_usage("MemTotal: 10 kB\nMemTotal: 20 kB"),
        Some(MemoryUse {
            total_kb: 20,
            available_kb: 0,
            used_kb: 20
        })
    );
}

#[test]
fn metrics_are_collected_once_per_interval() {
    let mut ticks = 0;
    let mut slept = 0;
    loop {
        let (next, action) = metrics_step(ticks, false);
        ticks = next;
        match action {
            MetricsAction::Sleep(ms) => slept += ms,
            MetricsAction::Collect => break,
            MetricsAction::Stop => unreachable!(),
        }
    }
    assert_eq!(slept, METRICS_INTERVAL_SECS * 1000);
    assert_eq!(ticks, 0);
    assert_eq!(metrics_step(17, true), (17, MetricsAction::Stop));
}
