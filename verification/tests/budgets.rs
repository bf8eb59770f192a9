use cargo_cage::budget::{
    cpu_quota_micros, decode_mountinfo_path, find_cgroup2_point, find_unified_entry, format_bytes,
    format_duration, has_word, host_budget, lower_limit, parse_counter, parse_optional_limit,
    parse_total_memory, select_limits, select_memory_budget, EffectiveResourceLimits,
    EventCounters, ResourceReport, MIN_MEMORY_BYTES, SIGXFSZ,
};
use cargo_cage::capture::{CappedOutput, MAX_CAPTURED_OUTPUT};
use cargo_cage::error::CageError;
use cargo_cage::flow::Exit;
use cargo_cage::os::OsText;
use cargo_cage::policy::{ResourceLimitKind, ResourceLimits, TimeSpan};

fn text(value: &str) -> OsText {
    OsText::new(value)
}

fn example_limits() -> EffectiveResourceLimits {
    EffectiveResourceLimits {
        max_processes: 16,
        max_memory_bytes: 1024 * 1024 * 1024,
        max_cpu_cores: 1,
        max_wall_time: TimeSpan::from_secs(5),
        max_file_size_bytes: 1024 * 1024,
        max_open_files: 256,
    }
}

fn report(after: EventCounters) -> ResourceReport {
    ResourceReport { limits: example_limits(), before: EventCounters::default(), after }
}

fn kind(error: Option<CageError>) -> Option<ResourceLimitKind> {
    match error {
        Some(CageError::ResourceLimitExceeded { kind, .. }) => Some(kind),
        _ => None,
    }
}

#[test]
fn decodes_mountinfo_paths() {
    assert_eq!(decode_mountinfo_path("/sys/fs/cgroup\\040root"), "/sys/fs/cgroup root");
}

#[test]
fn recognizes_controller_words() {
    assert!(has_word("cpu memory pids", "memory"));
    assert!(has_word("+cpu +memory", "cpu"));
    assert!(!has_word("cpu io", "memory"));
}

#[test]
fn parses_resource_event_counters() {
    let memory = "low 0\nhigh 0\nmax 3\n oom 0\noom_kill 2\n";
    let pids = "max 7\n";
    assert_eq!(parse_counter(memory, "max", &text("memory.events")).unwrap(), 3);
    assert_eq!(parse_counter(memory, "oom_kill", &text("memory.events")).unwrap(), 2);
    assert_eq!(parse_counter(pids, "max", &text("pids.events")).unwrap(), 7);
    assert!(parse_counter(pids, "oom_kill", &text("pids.events")).is_err());
}

#[test]
fn parses_parent_memory_limits() {
    assert_eq!(parse_optional_limit("max\n", &text("memory.max")).unwrap(), None);
    assert_eq!(
        parse_optional_limit("4294967296\n", &text("memory.max")).unwrap(),
        Some(4_294_967_296)
    );
    assert!(parse_optional_limit("invalid\n", &text("memory.max")).is_err());
}

#[test]
fn calculates_cpu_quota_from_cores() {
    assert_eq!(cpu_quota_micros(4), Some(400_000));
    assert_eq!(cpu_quota_micros(0), Some(0));
}

#[test]
fn reports_memory_and_process_events_as_resource_errors() {
    let limits = example_limits();
    let status = Exit { code: Some(1), signal: None };
    let memory = ResourceReport {
        limits,
        before: EventCounters::default(),
        after: EventCounters { memory_max: 1, ..EventCounters::default() },
    };
    assert!(matches!(
        memory.resource_error(&status, false),
        Some(CageError::ResourceLimitExceeded { kind: ResourceLimitKind::Memory, .. })
    ));

    let processes = ResourceReport {
        limits,
        before: EventCounters::default(),
        after: EventCounters { pids_max: 1, ..EventCounters::default() },
    };
    assert!(matches!(
        processes.resource_error(&status, false),
        Some(CageError::ResourceLimitExceeded { kind: ResourceLimitKind::Processes, .. })
    ));
}

#[test]
fn formats_default_limits_for_diagnostics() {
    let limits = ResourceLimits::default();
    assert_eq!(format_bytes(limits.max_memory_bytes), "8 GiB");
    assert_eq!(format_duration(limits.max_wall_time), "30 minutes");
    assert_eq!(format_duration(TimeSpan::from_millis(250)), "250 ms");
}

#[test]
fn lengths_of_time_are_exact() {
    let short = TimeSpan { nanoseconds: 1_999_999 };
    assert_eq!(short.as_millis(), 1);
    assert_eq!(short.as_secs(), 0);
    assert_eq!(format_duration(short), "1 ms");
    assert_eq!(format_duration(TimeSpan { nanoseconds: 999_999 }), "0 ms");
    assert_eq!(format_duration(TimeSpan { nanoseconds: 61_999_999_999 }), "61 seconds");
    assert_eq!(format_duration(TimeSpan::from_secs(120)), "2 minutes");
    assert_eq!(
        format_duration(TimeSpan::from_secs(u64::MAX)),
        "18446744073709551615 seconds"
    );
    assert_eq!(TimeSpan::from_secs(2), TimeSpan::from_millis(2000));
}

#[test]
fn the_clock_counts_before_everything_else() {
    let all = report(EventCounters { memory_max: 1, memory_oom_kill: 1, pids_max: 1 });
    let killed = Exit { code: None, signal: Some(SIGXFSZ) };
    assert_eq!(kind(all.resource_error(&killed, true)), Some(ResourceLimitKind::WallTime));
    assert_eq!(kind(all.resource_error(&killed, false)), Some(ResourceLimitKind::Memory));
    let quiet = report(EventCounters::default());
    assert_eq!(kind(quiet.resource_error(&killed, false)), Some(ResourceLimitKind::FileSize));
    let shell = Exit { code: Some(128 + SIGXFSZ), signal: None };
    assert_eq!(kind(quiet.resource_error(&shell, false)), Some(ResourceLimitKind::FileSize));
    let done = Exit { code: Some(0), signal: None };
    assert!(quiet.resource_error(&done, false).is_none());
}

#[test]
fn resource_errors_explain_themselves() {
    let quiet = report(EventCounters::default());
    let error = quiet
        .resource_error(&Exit { code: None, signal: Some(9) }, true)
        .expect("the wall-clock budget expired");
    let shown = error.to_string();
    assert!(shown.contains("wall-clock time"), "{shown}");
    assert!(shown.contains("5 seconds"), "{shown}");
    assert!(shown.contains("remedy:"), "{shown}");
}

#[test]
fn amounts_use_whole_units_only() {
    assert_eq!(format_bytes(1024), "1024 bytes");
    assert_eq!(format_bytes(MIN_MEMORY_BYTES + 1), "1073741825 bytes");
    assert_eq!(format_duration(TimeSpan::from_millis(61_000)), "61 seconds");
    assert_eq!(format_duration(TimeSpan::from_millis(60_000)), "1 minutes");
    assert_eq!(format_duration(TimeSpan::from_millis(5_000)), "5 seconds");
}

#[test]
fn memory_is_shared_with_the_host() {
    assert_eq!(parse_total_memory("MemTotal:       1024 kB\nMemFree: 1 kB\n"), Some(1024 * 1024));
    assert_eq!(parse_total_memory("MemFree: 1 kB\n"), None);
    assert_eq!(host_budget(8 * MIN_MEMORY_BYTES), Some(6 * MIN_MEMORY_BYTES));
    assert_eq!(select_memory_budget(8, 6, None), 6);
    assert_eq!(select_memory_budget(8, 6, Some(4)), 4);
    assert_eq!(select_memory_budget(2, 6, Some(4)), 2);
}

#[test]
fn effective_limits_keep_the_request_apart_from_memory() {
    let requested = ResourceLimits::default();
    let limits = select_limits(&requested, MIN_MEMORY_BYTES);
    assert_eq!(limits.max_memory_bytes, MIN_MEMORY_BYTES);
    assert_eq!(limits.max_processes, requested.max_processes);
    assert_eq!(limits.max_open_files, requested.max_open_files);
}

#[test]
fn limits_of_the_process_are_never_raised() {
    assert_eq!(lower_limit(512, None, "open files").unwrap(), 512);
    assert_eq!(lower_limit(512, Some(256), "open files").unwrap(), 256);
    assert_eq!(lower_limit(512, Some(1024), "open files").unwrap(), 512);
    assert!(lower_limit(512, Some(0), "open files").is_err());
}

#[test]
fn the_unified_hierarchy_is_found() {
    assert_eq!(
        find_unified_entry("1:cpu:/old\n0::/user.slice\n").as_deref(),
        Some("/user.slice")
    );
    assert_eq!(find_unified_entry("1:cpu:/old\n"), None);
    let line = "30 23 0:26 / /sys/fs/cgroup rw,nosuid - cgroup2 cgroup2 rw";
    assert_eq!(find_cgroup2_point(line).as_deref(), Some("/sys/fs/cgroup"));
    let other = "30 23 0:26 / /sys/fs/cgroup rw,nosuid - tmpfs tmpfs rw";
    assert_eq!(find_cgroup2_point(other), None);
}

#[test]
fn plain_mount_points_stay_as_they_are() {
    assert_eq!(decode_mountinfo_path("/sys/fs/cgroup"), "/sys/fs/cgroup");
    assert_eq!(decode_mountinfo_path("a\\011b\\012c\\134d"), "a\tb\nc\\d");
}

#[test]
fn capture_stops_at_its_bound() {
    let mut capped = CappedOutput::new();
    capped.read_capped(b"hello ");
    capped.read_capped(b"world");
    assert_eq!(capped.output, b"hello world");
    assert!(!capped.over_limit);
    capped.read_capped(&vec![b'x'; MAX_CAPTURED_OUTPUT]);
    assert!(capped.over_limit);
    assert_eq!(capped.output.len(), MAX_CAPTURED_OUTPUT);
    assert_eq!(&capped.output[..11], b"hello world");
    let mut broken = CappedOutput::new();
    broken.fail();
    assert!(broken.over_limit);
}
