use resmon::text::{parse_counter, word_is, word_spans};
use resmon::{
    calculate_cpu_usage, cpu_utilization, mem_usage_percentage, parse_cpu_lines, parse_cputimes,
    parse_mem_lines, same_cpus, CpuTimes, MemInfo, ReadError, Utilization,
};

fn times(cpu: &str, user: u64, idle: u64) -> CpuTimes {
    CpuTimes {
        cpu: cpu.to_string(),
        user,
        nice: 0,
        system: 0,
        idle,
        iowait: 0,
        irq: 0,
        softirq: 0,
        steal: 0,
        guest: 0,
        guest_nice: 0,
    }
}

fn lines(text: &[&str]) -> Vec<String> {
    text.iter().map(|l| l.to_string()).collect()
}

#[test]
fn splits_words_on_runs_of_spaces() {
    let s = "  cpu0\t12  7 ";
    let spans = word_spans(s);
    assert_eq!(spans, vec![(2, 6), (7, 9), (11, 12)]);
    assert!(word_spans("   ").is_empty());
}

#[test]
fn reads_counters() {
    assert_eq!(parse_counter("x 1234 y", 2, 6), Some(1234));
    assert_eq!(parse_counter("18446744073709551615", 0, 20), Some(u64::MAX));
    assert_eq!(parse_counter("18446744073709551616", 0, 20), None);
    assert_eq!(parse_counter("12a4", 0, 4), None);
    assert_eq!(parse_counter("", 0, 0), None);
    assert_eq!(parse_counter("-5", 0, 2), None);
}

#[test]
fn compares_words_with_keys() {
    assert!(word_is("MemTotal: 5 kB", 0, 9, "MemTotal:"));
    assert!(!word_is("MemTotal: 5 kB", 0, 9, "MemFree:"));
    assert!(!word_is("MemTotalX", 0, 9, "MemTotal:"));
}

#[test]
fn parses_a_cpu_line() {
    let t = parse_cputimes("cpu  10 2 3 400 5 6 7 8 9 1 99".to_string()).unwrap();
    assert_eq!(t.cpu, "cpu");
    assert_eq!(
        (t.user, t.nice, t.system, t.idle, t.iowait, t.irq, t.softirq, t.steal, t.guest, t.guest_nice),
        (10, 2, 3, 400, 5, 6, 7, 8, 9, 1)
    );
}

#[test]
fn short_cpu_line_is_malformed() {
    let r = parse_cputimes("cpu0 1 2 3 4 5".to_string());
    assert_eq!(r.unwrap_err(), ReadError::MalformedData);
}

#[test]
fn non_numeric_cpu_field_is_malformed() {
    let r = parse_cputimes("cpu1 1 2 3 four 5 6 7 8 9 10".to_string());
    assert_eq!(r.unwrap_err(), ReadError::MalformedData);
}

#[test]
fn picks_cpu_lines_out_of_a_listing() {
    let text = lines(&[
        "cpu  100 0 50 900 10 0 0 0 0 0",
        "cpu0 60 0 20 450 5 0 0 0 0 0",
        "intr 1 2 3",
        "ctxt 42",
        "cpu1 40 0 30 450 5 0 0 0 0 0",
    ]);
    let v = parse_cpu_lines(&text).unwrap();
    let ids: Vec<&str> = v.iter().map(|t| t.cpu.as_str()).collect();
    assert_eq!(ids, vec!["cpu", "cpu0", "cpu1"]);
    assert_eq!(v[1].user, 60);
    assert_eq!(v[2].system, 30);
}

#[test]
fn one_bad_cpu_line_fails_the_listing() {
    let text = lines(&["cpu  1 2 3 4 5 6 7 8 9 10", "cpu0 1 2 3 4 5"]);
    assert_eq!(parse_cpu_lines(&text).unwrap_err(), ReadError::MalformedData);
}

#[test]
fn cpu_delta_example() {
    let u = cpu_utilization(&times("cpu", 100, 900), &times("cpu", 150, 950));
    assert_eq!(u, Utilization { part: 50, whole: 100 });
    assert_eq!(u.hundredths(), 5000);
    assert!(!u.is_no_change());
}

#[test]
fn no_elapsed_ticks_give_the_flagged_zero() {
    let a = times("cpu", 100, 900);
    let u = cpu_utilization(&a, &a);
    assert!(u.is_no_change());
    assert_eq!(u, Utilization::no_change());
    assert_eq!(u.hundredths(), 0);
    let back = cpu_utilization(&times("cpu", 150, 950), &a);
    assert!(back.is_no_change());
}

#[test]
fn cpu_percentage_is_clamped() {
    // idle stepped back while busy ticks advanced: all of the delta is busy
    let u = cpu_utilization(&times("cpu", 100, 900), &times("cpu", 200, 899));
    assert_eq!(u, Utilization { part: 99, whole: 99 });
    assert_eq!(u.hundredths(), 10000);
    // only idle advanced
    let u = cpu_utilization(&times("cpu", 100, 900), &times("cpu", 100, 1000));
    assert_eq!(u, Utilization { part: 0, whole: 100 });
}

#[test]
fn busy_ticks_sum_all_non_idle_states() {
    let prev = times("cpu", 0, 0);
    let curr = CpuTimes {
        cpu: "cpu".to_string(),
        user: 1,
        nice: 2,
        system: 3,
        idle: 10,
        iowait: 4,
        irq: 5,
        softirq: 6,
        steal: 7,
        guest: 100,
        guest_nice: 100,
    };
    let u = cpu_utilization(&prev, &curr);
    assert_eq!(u, Utilization { part: 24, whole: 38 });
    assert_eq!(u.hundredths(), 6315);
}

#[test]
fn usage_per_cpu() {
    let prev = vec![times("cpu", 100, 900), times("cpu0", 10, 90)];
    let curr = vec![times("cpu", 150, 950), times("cpu0", 40, 100)];
    assert!(same_cpus(&prev, &curr));
    let r = calculate_cpu_usage(&prev, &curr);
    assert_eq!(r.len(), 2);
    assert_eq!(r[0], ("cpu".to_string(), Utilization { part: 50, whole: 100 }));
    assert_eq!(r[1], ("cpu0".to_string(), Utilization { part: 30, whole: 40 }));
    assert_eq!(r[1].1.hundredths(), 7500);
}

#[test]
fn different_cpus_are_not_comparable() {
    let a = vec![times("cpu", 1, 1), times("cpu0", 1, 1)];
    let b = vec![times("cpu", 1, 1), times("cpu1", 1, 1)];
    assert!(!same_cpus(&a, &b));
    assert!(!same_cpus(&a, &vec![times("cpu", 1, 1)]));
}

#[test]
fn memory_percentage_example() {
    let u = mem_usage_percentage(1_000_000, 400_000);
    assert_eq!(u, Utilization { part: 600_000, whole: 1_000_000 });
    assert_eq!(u.hundredths(), 6000);
    let pct = u.part as f64 / u.whole as f64 * 100.0;
    assert!((pct - 60.0).abs() <= 1e-9);
}

#[test]
fn memory_edge_cases() {
    assert!(mem_usage_percentage(0, 0).is_no_change());
    assert_eq!(mem_usage_percentage(100, 150), Utilization { part: 0, whole: 100 });
    assert_eq!(mem_usage_percentage(100, 0).hundredths(), 10000);
}

#[test]
fn parses_a_memory_listing() {
    let text = lines(&[
        "MemTotal:       16000000 kB",
        "MemFree:         1000000 kB",
        "MemAvailable:    4000000 kB",
        "Buffers:          100000 kB",
        "Cached:          2000000 kB",
        "SwapCached:            0 kB",
    ]);
    let m = parse_mem_lines(&text).unwrap();
    assert_eq!((m.total, m.available, m.cache), (16_000_000, 4_000_000, 2_000_000));
    assert_eq!(m.percentage, Utilization { part: 12_000_000, whole: 16_000_000 });
    assert_eq!(m.percentage.hundredths(), 7500);
}

#[test]
fn missing_memory_keys_stay_zero() {
    let text = lines(&["MemFree: 5 kB", "SwapTotal: 7 kB"]);
    let m = parse_mem_lines(&text).unwrap();
    assert_eq!((m.total, m.available, m.cache), (0, 0, 0));
    assert!(m.percentage.is_no_change());
}

#[test]
fn bare_memory_key_is_malformed() {
    assert_eq!(parse_mem_lines(&lines(&["MemTotal:"])).unwrap_err(), ReadError::MalformedData);
    let text = lines(&["MemTotal: 100 kB", "Cached:"]);
    assert_eq!(parse_mem_lines(&text).unwrap_err(), ReadError::MalformedData);
}

#[test]
fn memory_snapshot_carries_its_percentage() {
    let m = MemInfo::new(1_000_000, 400_000, 5);
    assert_eq!(m.cache, 5);
    assert_eq!(m.percentage, Utilization { part: 600_000, whole: 1_000_000 });
}

#[test]
fn bad_memory_value_is_malformed() {
    let text = lines(&["MemTotal: 100 kB", "MemAvailable: lots kB"]);
    assert_eq!(parse_mem_lines(&text).unwrap_err(), ReadError::MalformedData);
}
