use limits_rs::linux::property::Property;
use limits_rs::linux::row::{split_row, LABEL_WIDTH};
use limits_rs::linux::{
    get_limits_from_reader, get_pid_limits, limits_path, parse_limit_value, Limit, Limits,
};
use limits_rs::Error;

const SAMPLE: &str = r#"Limit                     Soft Limit           Hard Limit           Units
Max cpu time              unlimited            unlimited            seconds
Max file size             unlimited            unlimited            bytes
Max data size             unlimited            unlimited            bytes
Max stack size            8388608              unlimited            bytes
Max core file size        unlimited            unlimited            bytes
Max resident set          unlimited            unlimited            bytes
Max processes             62935                62935                processes
Max open files            1024                 524288               files
Max locked memory         65536                65536                bytes
Max address space         unlimited            unlimited            bytes
Max file locks            unlimited            unlimited            locks
Max pending signals       62935                62935                signals
Max msgqueue size         819200               819200               bytes
Max nice priority         0                    0
Max realtime priority     99                   99
Max realtime timeout      unlimited            unlimited            us"#;

fn lines_of(text: &str) -> Vec<Result<String, std::io::Error>> {
    std::io::BufRead::lines(std::io::Cursor::new(text.to_string())).collect()
}

fn both(value: u32) -> Limit {
    Limit { soft: Some(value), hard: Some(value) }
}

fn sample_limits() -> Limits {
    Limits {
        max_cpu_time: Default::default(),
        max_file_size: Default::default(),
        max_data_size: Default::default(),
        max_stack_size: Limit { soft: Some(8388608), hard: None },
        max_core_file_size: Default::default(),
        max_resident_set: Default::default(),
        max_processes: Limit { soft: Some(62935), hard: Some(62935) },
        max_open_files: Limit { soft: Some(1024), hard: Some(524288) },
        max_locked_memory: Limit { soft: Some(65536), hard: Some(65536) },
        max_address_space: Default::default(),
        max_file_locks: Default::default(),
        max_pending_signals: Limit { soft: Some(62935), hard: Some(62935) },
        max_msgqueue_size: Limit { soft: Some(819200), hard: Some(819200) },
        max_nice_priority: Limit { soft: Some(0), hard: Some(0) },
        max_realtime_priority: Limit { soft: Some(99), hard: Some(99) },
        max_realtime_timeout: Default::default(),
    }
}

#[test]
fn test_pid_limits_does_not_panic() {
    get_pid_limits(1, Ok(lines_of(SAMPLE))).unwrap();
}

#[test]
fn test_proc_file_not_found() {
    let not_found = std::io::Error::from_raw_os_error(2);
    let error = format!("{:?}", get_pid_limits(std::u32::MAX, Err(not_found)).unwrap_err());
    let expected_error = String::from(
        r#"ProcFileNotFound("/proc/4294967295/limits", Os { code: 2, kind: NotFound, message: "No such file or directory" })"#,
    );

    assert_eq!(error, expected_error);
}

#[test]
fn test_from_empty_string() {
    let reader = std::io::Cursor::new("");
    let reads: Vec<Result<String, std::io::Error>> = std::io::BufRead::lines(reader).collect();
    let limits = get_limits_from_reader(reads).unwrap();

    let expected_limits = Limits::default();

    assert_eq!(limits, expected_limits);
}

#[test]
fn test_from_correct_string() {
    let reader = std::io::Cursor::new(SAMPLE);
    let reads: Vec<Result<String, std::io::Error>> = std::io::BufRead::lines(reader).collect();
    let limits = get_limits_from_reader(reads).unwrap();

    let expected_limits = Limits {
        max_cpu_time: Default::default(),
        max_file_size: Default::default(),
        max_data_size: Default::default(),
        max_stack_size: Limit {
            soft: Some(8388608),
            hard: None,
        },
        max_core_file_size: Default::default(),
        max_resident_set: Default::default(),
        max_processes: Limit {
            soft: Some(62935),
            hard: Some(62935),
        },
        max_open_files: Limit {
            soft: Some(1024),
            hard: Some(524288),
        },
        max_locked_memory: Limit {
            soft: Some(65536),
            hard: Some(65536),
        },
        max_address_space: Default::default(),
        max_file_locks: Default::default(),
        max_pending_signals: Limit {
            soft: Some(62935),
            hard: Some(62935),
        },
        max_msgqueue_size: Limit {
            soft: Some(819200),
            hard: Some(819200),
        },
        max_nice_priority: Limit {
            soft: Some(0),
            hard: Some(0),
        },
        max_realtime_priority: Limit {
            soft: Some(99),
            hard: Some(99),
        },
        max_realtime_timeout: Default::default(),
    };

    assert_eq!(limits, expected_limits);
}

#[test]
fn unknown_label_changes_nothing() {
    let mut limits = Limits::default();
    limits.set_property_from_strings("Does_not_exist", "123", "456");
    assert_eq!(limits, Limits::default());
}

#[test]
fn known_label_sets_its_field_only() {
    let mut limits = Limits::default();
    limits.set_property_from_strings("Max file locks", "123", "456");
    assert_eq!(limits.max_file_locks, Limit { soft: Some(123), hard: Some(456) });
    let expected = Limits {
        max_file_locks: Limit { soft: Some(123), hard: Some(456) },
        ..Limits::default()
    };
    assert_eq!(limits, expected);
}

#[test]
fn unknown_label_keeps_earlier_rows() {
    let mut limits = sample_limits();
    limits.set_property_from_strings("Max threads", "1", "2");
    assert_eq!(limits, sample_limits());
}

#[test]
fn unlimited_on_both_sides_is_no_limit() {
    assert_eq!(Limit::from_strings("unlimited", "unlimited"), Limit { soft: None, hard: None });
    let mut limits = sample_limits();
    limits.set_property_from_strings("Max open files", "unlimited", "unlimited");
    assert_eq!(limits.max_open_files, Limit { soft: None, hard: None });
    assert_eq!(limits.max_processes, both(62935));
}

#[test]
fn unlimited_is_matched_letter_for_letter() {
    assert_eq!(parse_limit_value("unlimited"), None);
    assert_eq!(parse_limit_value("Unlimited"), None);
    assert_eq!(parse_limit_value("UNLIMITED"), None);
    assert_eq!(Limit::from_strings("unlimited", "7"), Limit { soft: None, hard: Some(7) });
    assert_eq!(Limit::from_strings("7", "unlimited"), Limit { soft: Some(7), hard: None });
}

#[test]
fn numbers_in_range_are_limits() {
    assert_eq!(parse_limit_value("0"), Some(0));
    assert_eq!(parse_limit_value("8388608"), Some(8388608));
    assert_eq!(parse_limit_value("4294967295"), Some(u32::MAX));
    assert_eq!(parse_limit_value("0099"), Some(99));
    assert_eq!(parse_limit_value("+17"), Some(17));
    for n in [0u32, 1, 9, 10, 99, 1024, 62935, 524288, 819200, u32::MAX - 1, u32::MAX] {
        let text = n.to_string();
        assert_eq!(Limit::from_strings(&text, "x"), Limit { soft: Some(n), hard: None });
        assert_eq!(Limit::from_strings("x", &text), Limit { soft: None, hard: Some(n) });
    }
}

#[test]
fn other_texts_are_no_limit() {
    for text in [
        "4294967296",
        "99999999999999999999999",
        "",
        "+",
        "-1",
        "-0",
        "12a",
        "a12",
        "1 2",
        " 12",
        "12 ",
        "1_000",
        "0x10",
        "1.5",
        "++1",
        "\u{661}\u{662}",
        "\u{ff11}",
    ] {
        assert_eq!(parse_limit_value(text), None, "{:?}", text);
        assert_eq!(Limit::from_strings(text, text), Limit::default(), "{:?}", text);
    }
}

#[test]
fn labels_are_known_in_any_case() {
    let mut limits = Limits::default();
    limits.set_property_from_strings("MAX CPU TIME", "1", "2");
    limits.set_property_from_strings("max data size", "3", "4");
    limits.set_property_from_strings("mAx StAcK sIzE", "5", "6");
    let expected = Limits {
        max_cpu_time: Limit { soft: Some(1), hard: Some(2) },
        max_data_size: Limit { soft: Some(3), hard: Some(4) },
        max_stack_size: Limit { soft: Some(5), hard: Some(6) },
        ..Limits::default()
    };
    assert_eq!(limits, expected);
}

#[test]
fn lower_case_is_that_of_unicode() {
    // The Kelvin sign has the letter k as its lower case.
    let mut limits = Limits::default();
    limits.set_property_from_strings("Max file loc\u{212a}s", "1", "2");
    assert_eq!(limits.max_file_locks, Limit { soft: Some(1), hard: Some(2) });
}

#[test]
fn file_size_is_known_with_an_underscore_only() {
    let mut limits = Limits::default();
    limits.set_property_from_strings("Max file size", "1", "2");
    assert_eq!(limits, Limits::default());
    limits.set_property_from_strings("Max file_size", "1", "2");
    let expected = Limits {
        max_file_size: Limit { soft: Some(1), hard: Some(2) },
        ..Limits::default()
    };
    assert_eq!(limits, expected);
}

#[test]
fn labels_are_not_trimmed_by_the_record() {
    let mut limits = Limits::default();
    limits.set_property_from_strings(" Max cpu time", "1", "2");
    limits.set_property_from_strings("Max cpu time ", "1", "2");
    limits.set_property_from_strings("Max  cpu time", "1", "2");
    assert_eq!(limits, Limits::default());
}

#[test]
fn every_label_names_its_own_property() {
    let all = [
        (Property::MaxCpuTime, "max cpu time"),
        (Property::MaxFileSize, "max file_size"),
        (Property::MaxDataSize, "max data size"),
        (Property::MaxStackSize, "max stack size"),
        (Property::MaxCoreFileSize, "max core file size"),
        (Property::MaxResidentSet, "max resident set"),
        (Property::MaxProcesses, "max processes"),
        (Property::MaxOpenFiles, "max open files"),
        (Property::MaxLockedMemory, "max locked memory"),
        (Property::MaxAddressSpace, "max address space"),
        (Property::MaxFileLocks, "max file locks"),
        (Property::MaxPendingSignals, "max pending signals"),
        (Property::MaxMsgqueueSize, "max msgqueue size"),
        (Property::MaxNicePriority, "max nice priority"),
        (Property::MaxRealtimePriority, "max realtime priority"),
        (Property::MaxRealtimeTimeout, "max realtime timeout"),
    ];
    for (property, label) in all {
        assert_eq!(property.label(), label);
        assert_eq!(Property::from_label(label), Some(property));
        assert_eq!(Property::from_label(&label.to_uppercase()), None);
    }
    assert_eq!(Property::from_label(""), None);
    assert_eq!(Property::from_label("max file size"), None);
    assert_eq!(Property::from_label("max cpu"), None);
    assert_eq!(Property::from_label("max cpu time "), None);
}

#[test]
fn every_property_has_its_own_field() {
    let mut limits = Limits::default();
    limits.set(Property::MaxCpuTime, both(1));
    limits.set(Property::MaxFileSize, both(2));
    limits.set(Property::MaxDataSize, both(3));
    limits.set(Property::MaxStackSize, both(4));
    limits.set(Property::MaxCoreFileSize, both(5));
    limits.set(Property::MaxResidentSet, both(6));
    limits.set(Property::MaxProcesses, both(7));
    limits.set(Property::MaxOpenFiles, both(8));
    limits.set(Property::MaxLockedMemory, both(9));
    limits.set(Property::MaxAddressSpace, both(10));
    limits.set(Property::MaxFileLocks, both(11));
    limits.set(Property::MaxPendingSignals, both(12));
    limits.set(Property::MaxMsgqueueSize, both(13));
    limits.set(Property::MaxNicePriority, both(14));
    limits.set(Property::MaxRealtimePriority, both(15));
    limits.set(Property::MaxRealtimeTimeout, both(16));
    let expected = Limits {
        max_cpu_time: both(1),
        max_file_size: both(2),
        max_data_size: both(3),
        max_stack_size: both(4),
        max_core_file_size: both(5),
        max_resident_set: both(6),
        max_processes: both(7),
        max_open_files: both(8),
        max_locked_memory: both(9),
        max_address_space: both(10),
        max_file_locks: both(11),
        max_pending_signals: both(12),
        max_msgqueue_size: both(13),
        max_nice_priority: both(14),
        max_realtime_priority: both(15),
        max_realtime_timeout: both(16),
    };
    assert_eq!(limits, expected);
    assert_eq!(limits.limit(Property::MaxCpuTime), both(1));
    assert_eq!(limits.limit(Property::MaxFileLocks), both(11));
    assert_eq!(limits.limit(Property::MaxRealtimeTimeout), both(16));
}

#[test]
fn default_limit_is_unlimited() {
    assert_eq!(Limit::default(), Limit { soft: None, hard: None });
    let limits = Limits::default();
    assert_eq!(limits.max_cpu_time, Limit { soft: None, hard: None });
    assert_eq!(limits.max_realtime_timeout, Limit { soft: None, hard: None });
    assert_eq!(limits.limit(Property::MaxOpenFiles), Limit { soft: None, hard: None });
}

#[test]
fn row_splits_behind_the_label() {
    assert_eq!(LABEL_WIDTH, 26);
    assert_eq!(
        split_row("Max open files            1024                 524288               files"),
        Some(("Max open files", "1024", "524288"))
    );
    assert_eq!(
        split_row("Max nice priority         0                    0"),
        Some(("Max nice priority", "0", "0"))
    );
    assert_eq!(
        split_row("   Max cpu time           unlimited\tunlimited  seconds  extra"),
        Some(("Max cpu time", "unlimited", "unlimited"))
    );
    // What reaches into the 26 characters belongs to the label.
    assert_eq!(
        split_row("Max realtime priority 99999 1 2"),
        Some(("Max realtime priority 9999", "9", "1"))
    );
    assert_eq!(split_row("                          a b"), Some(("", "a", "b")));
}

#[test]
fn row_counts_characters() {
    let label = "\u{e9}".repeat(26);
    let line = format!("{}1 2", label);
    assert_eq!(split_row(&line), Some((label.as_str(), "1", "2")));
    let short = "\u{e9}".repeat(25);
    assert_eq!(split_row(&short), None);
}

#[test]
fn short_and_thin_lines_are_no_rows() {
    assert_eq!(split_row(""), None);
    assert_eq!(split_row("Max cpu time"), None);
    assert_eq!(split_row("Max cpu time             "), None);
    assert_eq!(split_row("Max cpu time              "), None);
    assert_eq!(split_row("Max cpu time              unlimited"), None);
    assert_eq!(split_row("Max cpu time              unlimited     "), None);
    assert_eq!(split_row("Max cpu time 1 2"), None);
}

#[test]
fn lines_that_are_no_rows_are_passed_over() {
    let text = "Limit                     Soft Limit           Hard Limit           Units\n\
                Max cpu time              1                    2                    seconds\n\
                Max processes\n\
                \n\
                Max open files            7\n\
                Max file locks            3                    4                    locks\n";
    let limits = get_limits_from_reader(lines_of(text)).unwrap();
    let expected = Limits {
        max_cpu_time: Limit { soft: Some(1), hard: Some(2) },
        max_file_locks: Limit { soft: Some(3), hard: Some(4) },
        ..Limits::default()
    };
    assert_eq!(limits, expected);
}

#[test]
fn first_line_is_dropped_whatever_it_holds() {
    let text = "Max cpu time              1                    2                    seconds\n\
                Max processes             3                    4                    processes";
    let limits = get_limits_from_reader(lines_of(text)).unwrap();
    let expected = Limits {
        max_processes: Limit { soft: Some(3), hard: Some(4) },
        ..Limits::default()
    };
    assert_eq!(limits, expected);
    let header_only = "Max cpu time              1                    2                    seconds";
    assert_eq!(get_limits_from_reader(lines_of(header_only)).unwrap(), Limits::default());
}

#[test]
fn lines_that_could_not_be_read_are_left_out() {
    let broken = || Err(std::io::Error::from(std::io::ErrorKind::InvalidData));
    let row = |text: &str| Ok(text.to_string());
    let reads = vec![
        row("Limit                     Soft Limit           Hard Limit           Units"),
        broken(),
        row("Max cpu time              1                    2                    seconds"),
        broken(),
        broken(),
        row("Max processes             3                    4                    processes"),
        broken(),
    ];
    let limits = get_limits_from_reader(reads).unwrap();
    let expected = Limits {
        max_cpu_time: Limit { soft: Some(1), hard: Some(2) },
        max_processes: Limit { soft: Some(3), hard: Some(4) },
        ..Limits::default()
    };
    assert_eq!(limits, expected);
    assert_eq!(get_limits_from_reader(vec![broken(), broken()]).unwrap(), Limits::default());
    assert_eq!(get_limits_from_reader(vec![broken()]).unwrap(), Limits::default());
}

#[test]
fn header_is_the_first_line_even_if_unreadable() {
    let broken = || Err(std::io::Error::from(std::io::ErrorKind::InvalidData));
    let row = |text: &str| Ok(text.to_string());
    let reads = vec![
        broken(),
        row("Max cpu time              1                    2                    seconds"),
        row("Max processes             3                    4                    processes"),
    ];
    let limits = get_limits_from_reader(reads).unwrap();
    let expected = Limits {
        max_cpu_time: Limit { soft: Some(1), hard: Some(2) },
        max_processes: Limit { soft: Some(3), hard: Some(4) },
        ..Limits::default()
    };
    assert_eq!(limits, expected);
}

#[test]
fn undecodable_bytes_stop_nothing() {
    let mut bytes = Vec::new();
    bytes.extend_from_slice(b"Limit                     Soft Limit           Hard Limit\n");
    bytes.extend_from_slice(b"Max cpu time              \xff\xfe                   2\n");
    bytes.extend_from_slice(b"Max processes             3                    4\r\n");
    let reads: Vec<Result<String, std::io::Error>> =
        std::io::BufRead::lines(std::io::Cursor::new(bytes)).collect();
    assert_eq!(reads.len(), 3);
    assert!(reads[1].is_err());
    let limits = get_limits_from_reader(reads).unwrap();
    let expected = Limits {
        max_processes: Limit { soft: Some(3), hard: Some(4) },
        ..Limits::default()
    };
    assert_eq!(limits, expected);
}

#[test]
fn later_row_replaces_earlier_row() {
    let text = "header\n\
                Max cpu time              1                    2\n\
                Max cpu time              unlimited            9\n";
    let limits = get_limits_from_reader(lines_of(text)).unwrap();
    assert_eq!(limits.max_cpu_time, Limit { soft: None, hard: Some(9) });
}

#[test]
fn bad_numbers_in_a_row_are_no_limit() {
    let text = "header\n\
                Max cpu time              12x                  4294967296\n\
                Max processes             -5                   5\n";
    let limits = get_limits_from_reader(lines_of(text)).unwrap();
    let expected = Limits {
        max_processes: Limit { soft: None, hard: Some(5) },
        ..Limits::default()
    };
    assert_eq!(limits, expected);
}

#[test]
fn line_by_line_is_the_same_as_the_table() {
    let mut limits = Limits::default();
    for line in SAMPLE.lines().skip(1) {
        limits.set_properties_from_line(line);
    }
    assert_eq!(limits, sample_limits());
    limits.set_properties_from_line("too short");
    assert_eq!(limits, sample_limits());
}

#[test]
fn reading_twice_gives_equal_records() {
    let first = get_limits_from_reader(lines_of(SAMPLE)).unwrap();
    let second = get_limits_from_reader(lines_of(SAMPLE)).unwrap();
    assert_eq!(first, second);
    assert_eq!(first, sample_limits());
    let third = get_pid_limits(1, Ok(lines_of(SAMPLE))).unwrap();
    assert_eq!(first, third);
}

#[test]
fn path_holds_the_process_id_in_decimal() {
    assert_eq!(limits_path(0), "/proc/0/limits");
    assert_eq!(limits_path(1), "/proc/1/limits");
    assert_eq!(limits_path(10), "/proc/10/limits");
    assert_eq!(limits_path(4242), "/proc/4242/limits");
    assert_eq!(limits_path(u32::MAX), "/proc/4294967295/limits");
    for pid in [7u32, 99, 100, 101, 65535, 65536, 1000000000, 4294967294] {
        assert_eq!(limits_path(pid), format!("/proc/{}/limits", pid));
    }
}

#[test]
fn failure_to_open_carries_path_and_cause() {
    let denied = std::io::Error::from(std::io::ErrorKind::PermissionDenied);
    match get_pid_limits(4242, Err(denied)) {
        Err(Error::ProcFileNotFound(path, cause)) => {
            assert_eq!(path, "/proc/4242/limits");
            assert_eq!(cause.kind(), std::io::ErrorKind::PermissionDenied);
        }
        other => panic!("{:?}", other),
    }
    match get_pid_limits(1, Err(std::io::Error::from_raw_os_error(2))) {
        Err(Error::ProcFileNotFound(path, cause)) => {
            assert_eq!(path, "/proc/1/limits");
            assert_eq!(cause.kind(), std::io::ErrorKind::NotFound);
            assert_eq!(cause.raw_os_error(), Some(2));
        }
        other => panic!("{:?}", other),
    }
}

#[test]
fn empty_table_of_a_process_is_a_success() {
    assert_eq!(get_pid_limits(1, Ok(Vec::new())).unwrap(), Limits::default());
}

#[test]
fn row_is_label_and_first_two_words() {
    let lines = [
        "Limit                     Soft Limit           Hard Limit           Units     ",
        "Max cpu time              unlimited            unlimited            seconds   ",
        "Max core file size        0                    unlimited            bytes     ",
        "Max nice priority         0                    0                    ",
        "Max realtime timeout      unlimited            unlimited            us        ",
        "\tMax odd\u{a0}label   \u{3000}        7\u{2003}8\u{a0}nine ten",
        "abcdefghijklmnopqrstuvwxyz0123456789 x y",
        "abcdefghijklmnopqrstuvwxy z",
        "abcdefghijklmnopqrstuvwxyz",
        "                                         ",
        "x",
    ];
    for line in lines {
        let chars: Vec<char> = line.chars().collect();
        let expected = if chars.len() < 26 {
            None
        } else {
            let label: String = chars[..26].iter().collect();
            let values: String = chars[26..].iter().collect();
            let words: Vec<String> = values.split_whitespace().map(String::from).collect();
            if words.len() < 2 {
                None
            } else {
                Some((label.trim().to_string(), words[0].clone(), words[1].clone()))
            }
        };
        let found = split_row(line)
            .map(|(label, soft, hard)| (label.to_string(), soft.to_string(), hard.to_string()));
        assert_eq!(found, expected, "{:?}", line);
    }
}
