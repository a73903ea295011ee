use ai_gateway::system_metrics::{
    cpu_usage_ratio, database_pool_load, memory_used_bytes, parse_cpu_times, parse_kib, parse_memory,
    parse_process_cpu_ticks, parse_process_status, percentage_ratio, process_cpu_usage_ratio, usize_to_u64,
    utilization_ratio, CpuTimes, DatabasePoolCounts,
};

#[test]
fn parses_process_stat_after_parenthesized_command() {
    let stat = "1 (gateway worker) S 0 0 0 0 0 0 0 0 0 0 30 12 0 0 0 0 1 0 100 0 0";
    assert_eq!(parse_process_cpu_ticks(stat), Some(42));
}

#[test]
fn process_stat_without_a_command_or_enough_fields_is_rejected() {
    assert_eq!(parse_process_cpu_ticks("1 gateway S 0"), None);
    assert_eq!(parse_process_cpu_ticks("1 (a) S 0 0 0"), None);
    assert_eq!(
        parse_process_cpu_ticks("1 (a) b) S 0 0 0 0 0 0 0 0 0 0 5 6 0"),
        Some(11)
    );
}

#[test]
fn parses_the_aggregate_cpu_line() {
    assert_eq!(
        parse_cpu_times("cpu  10 2 3 20 5 1 1 0 0 0\ncpu0 0 0 0 0"),
        Some(CpuTimes { total: 42, idle: 25 })
    );
    assert_eq!(parse_cpu_times("cpu0 1 2 3 4\n"), None);
    assert_eq!(parse_cpu_times("cpu  1 2 3\n"), None);
    assert_eq!(parse_cpu_times("cpu  1 2 x 4\n"), None);
    assert_eq!(
        parse_cpu_times("cpu  18446744073709551615 1 0 0\n"),
        None
    );
}

#[test]
fn parses_meminfo_and_status() {
    assert_eq!(
        parse_memory("MemTotal: 1000 kB\nMemFree: 200 kB\nMemAvailable: 750 kB\n"),
        Some((1_024_000, 768_000))
    );
    assert_eq!(
        parse_memory("MemTotal: 1000 kB\nMemFree: 200 kB\n"),
        Some((1_024_000, 204_800))
    );
    assert_eq!(parse_memory("MemTotal: 1000 kB\n\nMemFree: 200 kB\n"), None);
    assert_eq!(parse_memory("MemTotal:\n"), None);
    assert_eq!(
        parse_process_status("Name:\ttest\nVmRSS:\t123 kB\nThreads:\t7\n"),
        (Some(125_952), Some(7))
    );
    assert_eq!(parse_process_status("Name:\ttest\n"), (None, None));
}

#[test]
fn kib_values_overflowing_u64_are_unknown() {
    assert_eq!(parse_kib(&['2']), Some(2048));
    assert_eq!(parse_kib(&"18014398509481984".chars().collect::<Vec<_>>()), None);
}

#[test]
fn derives_cpu_and_queue_utilization_ratios() {
    let previous = CpuTimes { total: 100, idle: 40 };
    let current = CpuTimes { total: 200, idle: 70 };
    assert_eq!(cpu_usage_ratio(previous, current), Some((70, 100)));
    assert_eq!(process_cpu_usage_ratio(previous, current, 10, 25), Some((15, 100)));
    assert_eq!(cpu_usage_ratio(current, previous), None);
    assert_eq!(process_cpu_usage_ratio(previous, current, 25, 10), None);
    assert_eq!(utilization_ratio(3, 4), Some((3, 4)));
    assert_eq!(utilization_ratio(9, 4), Some((4, 4)));
    assert_eq!(utilization_ratio(1, 0), None);
    assert_eq!(percentage_ratio(Some(5), None), None);
}

#[test]
fn pool_load_never_reports_negative_use() {
    assert_eq!(
        database_pool_load(5, 2, 10),
        DatabasePoolCounts { size: 5, idle: 2, in_use: 3, capacity: 10 }
    );
    assert_eq!(database_pool_load(1, 4, 10).in_use, 0);
    assert_eq!(database_pool_load(5, 2, 10).utilization(), Some((3, 10)));
    assert_eq!(memory_used_bytes(Some(10), Some(4)), Some(6));
    assert_eq!(memory_used_bytes(Some(10), Some(40)), Some(0));
    assert_eq!(usize_to_u64(7), 7);
}

fn percent(ratio: Option<(u64, u64)>) -> Option<f64> {
    ratio.map(|(used, total)| used as f64 * 100.0 / total as f64)
}

#[test]
fn derives_cpu_and_queue_utilization() {
    let previous = CpuTimes { total: 100, idle: 40 };
    let current = CpuTimes { total: 200, idle: 70 };
    assert_eq!(percent(cpu_usage_ratio(previous, current)), Some(70.0));
    assert_eq!(percent(process_cpu_usage_ratio(previous, current, 10, 25)), Some(15.0));
    assert_eq!(percent(utilization_ratio(3, 4)), Some(75.0));
}
