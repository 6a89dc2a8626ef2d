use ulog::log::{Line, Log, Severity, TimeUnit};
use ulog::parser::{parse_file_line, parse_id, parse_log_line, parse_log_severity, parse_time, Field};
use ulog::{construct_log_line, filter, parse_and_filter, parse_line, ConstructError};

#[test]
fn test_parse_log_severity() {
    assert_eq!(parse_log_severity("UVM_INFO asacs").unwrap(), (" asacs", "UVM_INFO"));
    assert_eq!(parse_log_severity("UVM_WARNING 312").unwrap(), (" 312", "UVM_WARNING"));
    assert_eq!(parse_log_severity("UVM_ERROR @ (").unwrap(), (" @ (", "UVM_ERROR"));
    assert_eq!(parse_log_severity("UVM_FATAL /1.1").unwrap(), (" /1.1", "UVM_FATAL"));
}

#[test]
fn test_parse_file_line() {
    assert_eq!(
        parse_file_line("sample/sample.sv(98) 4245").unwrap(),
        (" 4245", ("sample/sample.sv", "98"))
    );
}

#[test]
fn test_parse_id() {
    assert_eq!(parse_id("[abc] adce").unwrap(), (" adce", "abc"));
    assert_eq!(parse_id("[tag2] 1014").unwrap(), (" 1014", "tag2"));
}

#[test]
fn test_parse_time() {
    assert_eq!(parse_time("12345ns: adce").unwrap(), (" adce", "12345ns"));
}

#[test]
fn test_parse_line() {
    let raw = parse_log_line(
        "UVM_FATAL /home/runner/env.svh(46) @ 25: uvm_test_top.jb_env.jb_fc [id1] GREEN BUBBLE_GUM 7",
    )
    .unwrap();
    assert_eq!(raw.severity, "UVM_FATAL");
    assert_eq!(raw.file, "/home/runner/env.svh");
    assert_eq!(raw.line, "46");
    assert_eq!(raw.time, "25");
    assert_eq!(raw.unit, "");
    assert_eq!(raw.component, "uvm_test_top.jb_env.jb_fc");
    assert_eq!(raw.id, "id1");
    assert_eq!(raw.message, "GREEN BUBBLE_GUM 7");

    let raw = parse_log_line(
        "UVM_FATAL /home/runner/env.svh(46) @ 25ns: uvm_test_top.jb_env.jb_fc [id1] GREEN BUBBLE_GUM 7",
    )
    .unwrap();
    assert_eq!(raw.severity, "UVM_FATAL");
    assert_eq!(raw.file, "/home/runner/env.svh");
    assert_eq!(raw.line, "46");
    assert_eq!(raw.time, "25");
    assert_eq!(raw.unit, "ns");
    assert_eq!(raw.component, "uvm_test_top.jb_env.jb_fc");
    assert_eq!(raw.id, "id1");
    assert_eq!(raw.message, "GREEN BUBBLE_GUM 7");
}

#[test]
fn example_fatal_line_parses_fully() {
    let l = parse_line(
        "UVM_FATAL /home/runner/env.svh(46) @ 25: uvm_test_top.jb_env.jb_fc [id1] GREEN BUBBLE_GUM 7",
    )
    .unwrap();
    assert_eq!(l.severity, Severity::FATAL);
    assert_eq!(l.file, "/home/runner/env.svh");
    assert_eq!(l.line, 46);
    assert_eq!(l.time, 25);
    assert_eq!(l.time_unit, None);
    assert_eq!(l.component, "uvm_test_top.jb_env.jb_fc");
    assert_eq!(l.id, "id1");
    assert_eq!(l.message, "GREEN BUBBLE_GUM 7");
}

#[test]
fn example_info_line_with_unit() {
    let l = parse_line("UVM_INFO a.sv(1) @ 10ns: top [t] hello").unwrap();
    assert_eq!(l.severity, Severity::INFO);
    assert_eq!(l.file, "a.sv");
    assert_eq!(l.line, 1);
    assert_eq!(l.time, 10);
    assert_eq!(l.time_unit, Some(TimeUnit::Nanosecond));
    assert_eq!(l.component, "top");
    assert_eq!(l.id, "t");
    assert_eq!(l.message, "hello");
}

#[test]
fn round_trip_without_unit() {
    let input = "UVM_FATAL /home/runner/env.svh(46) @ 25: uvm_test_top.jb_env.jb_fc [id1] GREEN BUBBLE_GUM 7";
    let l = parse_line(input).unwrap();
    assert_eq!(l.render(), input);
}

#[test]
fn round_trip_with_unit() {
    let input = "UVM_WARNING tb/top.sv(930) @ 1200ps: uvm_test_top.env [CFG] value overridden";
    let l = parse_line(input).unwrap();
    assert_eq!(l.render(), input);
}

#[test]
fn round_trip_empty_message() {
    let input = "UVM_ERROR x.sv(2) @ 3: c.d [e] ";
    let l = parse_line(input).unwrap();
    assert_eq!(l.message, "");
    assert_eq!(l.render(), input);
}

#[test]
fn missing_close_bracket_fails() {
    let e = parse_line("UVM_INFO a.sv(1) @ 10: top [t hello").unwrap_err();
    assert_eq!(e.field, Field::Id);
    assert!(parse_line("UVM_FATAL b.sv(9) @ 0: c [x no close at all").is_err());
}

#[test]
fn unknown_unit_parses_with_unit_unset() {
    let l = parse_line("UVM_INFO a.sv(1) @ 10xq: top [t] hello").unwrap();
    assert_eq!(l.time, 10);
    assert_eq!(l.time_unit, None);
    assert_eq!(l.message, "hello");
}

#[test]
fn parse_failures_name_their_field() {
    let e = parse_line("NOT_A_LINE").unwrap_err();
    assert_eq!(e.field, Field::Severity);
    assert_eq!(e.residual, "NOT_A_LINE");
    let e = parse_line("UVM_INFO nofileparen @ 10: top [t] m").unwrap_err();
    assert_eq!(e.field, Field::FileLine);
    let e = parse_line("UVM_INFO a.sv(1) ! 10: top [t] m").unwrap_err();
    assert_eq!(e.field, Field::At);
    let e = parse_line("UVM_INFO a.sv(1) @ 10 top [t] m").unwrap_err();
    assert_eq!(e.field, Field::Time);
    let e = parse_line("UVM_INFO a.sv(1) @ ns: top [t] m").unwrap_err();
    assert_eq!(e.field, Field::Time);
    assert_eq!(e.residual, "ns");
    let e = parse_line("UVM_INFO a.sv(1) @ 10: ").unwrap_err();
    assert_eq!(e.field, Field::Component);
    // The whitespace after the id is mandatory: without it the line fails.
    let e = parse_line("UVM_INFO a.sv(1) @ 10: top [t]").unwrap_err();
    assert_eq!(e.field, Field::Id);
}

#[test]
fn strict_digit_runs_reject_junk() {
    // A non-digit inside the line number fails the FILE(LINE) field.
    assert!(parse_line("UVM_INFO a.sv(4x5) @ 10: top [t] m").is_err());
    // A line number beyond u32 is a failure of the same field.
    let e = parse_line("UVM_INFO a.sv(4294967296) @ 10: top [t] m").unwrap_err();
    assert_eq!(e.field, Field::FileLine);
    assert_eq!(e.residual, "4294967296");
    // The largest representable values pass.
    let l = parse_line("UVM_INFO a.sv(4294967295) @ 18446744073709551615: top [t] m").unwrap();
    assert_eq!(l.line, u32::MAX);
    assert_eq!(l.time, u64::MAX);
    // A timestamp beyond u64 is a failure of the time field.
    let e = parse_line("UVM_INFO a.sv(1) @ 18446744073709551616: top [t] m").unwrap_err();
    assert_eq!(e.field, Field::Time);
    assert_eq!(e.residual, "18446744073709551616");
}

#[test]
fn construct_log_line_builds_and_rejects() {
    let l = construct_log_line("UVM_INFO", "a.sv", "12", "99", "ms", "top.env", "tag", "msg text")
        .unwrap();
    assert_eq!(l.severity, Severity::INFO);
    assert_eq!(l.file, "a.sv");
    assert_eq!(l.line, 12);
    assert_eq!(l.time, 99);
    assert_eq!(l.time_unit, Some(TimeUnit::Millisecond));
    assert_eq!(l.component, "top.env");
    assert_eq!(l.id, "tag");
    assert_eq!(l.message, "msg text");

    assert_eq!(
        construct_log_line("SEVERE", "a.sv", "1", "2", "", "c", "i", "m").unwrap_err(),
        ConstructError::InvalidSeverity
    );
    assert_eq!(
        construct_log_line("UVM_INFO", "a.sv", "", "2", "", "c", "i", "m").unwrap_err(),
        ConstructError::InvalidLineNumber
    );
    assert_eq!(
        construct_log_line("UVM_INFO", "a.sv", "12a", "2", "", "c", "i", "m").unwrap_err(),
        ConstructError::InvalidLineNumber
    );
    assert_eq!(
        construct_log_line("UVM_INFO", "a.sv", "1", "1x", "", "c", "i", "m").unwrap_err(),
        ConstructError::InvalidTimestamp
    );
    // An unknown unit code never fails construction: the unit is left unset.
    let l = construct_log_line("UVM_INFO", "a.sv", "1", "2", "zz", "c", "i", "m").unwrap();
    assert_eq!(l.time_unit, None);
}

#[test]
fn severity_aliases_and_literals() {
    assert_eq!(Severity::from_str("UVM_INFO"), Some(Severity::INFO));
    assert_eq!(Severity::from_str("INFO"), Some(Severity::INFO));
    assert_eq!(Severity::from_str("info"), Some(Severity::INFO));
    assert_eq!(Severity::from_str("UVM_WARNING"), Some(Severity::WARNING));
    assert_eq!(Severity::from_str("WARNING"), Some(Severity::WARNING));
    assert_eq!(Severity::from_str("WARN"), Some(Severity::WARNING));
    assert_eq!(Severity::from_str("warn"), Some(Severity::WARNING));
    assert_eq!(Severity::from_str("warning"), Some(Severity::WARNING));
    assert_eq!(Severity::from_str("UVM_ERROR"), Some(Severity::ERROR));
    assert_eq!(Severity::from_str("ERROR"), Some(Severity::ERROR));
    assert_eq!(Severity::from_str("error"), Some(Severity::ERROR));
    assert_eq!(Severity::from_str("UVM_FATAL"), Some(Severity::FATAL));
    assert_eq!(Severity::from_str("FATAL"), Some(Severity::FATAL));
    assert_eq!(Severity::from_str("fatal"), Some(Severity::FATAL));
    assert_eq!(Severity::from_str("Fatal"), None);
    assert_eq!(Severity::from_str(""), None);
    assert_eq!(Severity::as_str(Severity::WARNING), "UVM_WARNING");
}

#[test]
fn time_unit_codes() {
    assert_eq!(TimeUnit::from_str("s"), Some(TimeUnit::Second));
    assert_eq!(TimeUnit::from_str("ms"), Some(TimeUnit::Millisecond));
    assert_eq!(TimeUnit::from_str("us"), Some(TimeUnit::Microsecond));
    assert_eq!(TimeUnit::from_str("ns"), Some(TimeUnit::Nanosecond));
    assert_eq!(TimeUnit::from_str("ps"), Some(TimeUnit::Picosecond));
    assert_eq!(TimeUnit::from_str("fs"), Some(TimeUnit::Femtosecond));
    assert_eq!(TimeUnit::from_str("sec"), None);
    assert_eq!(TimeUnit::from_str(""), None);
    assert_eq!(TimeUnit::as_str(TimeUnit::Femtosecond), "fs");
}

fn sample_line(id: &str, severity: Severity) -> Line {
    Line {
        severity,
        file: String::from("a.sv"),
        line: 1,
        time: 2,
        time_unit: None,
        component: String::from("top"),
        id: String::from(id),
        message: String::from("m"),
    }
}

#[test]
fn filter_conjunction_of_both_sets() {
    let ids = Some(vec![String::from("id1")]);
    let sevs = Some(vec![Severity::FATAL]);
    // Kept only when both the id and the severity are members.
    assert!(filter(&sample_line("id1", Severity::FATAL), &ids, &sevs));
    assert!(!filter(&sample_line("id1", Severity::INFO), &ids, &sevs));
    assert!(!filter(&sample_line("other", Severity::FATAL), &ids, &sevs));
    assert!(!filter(&sample_line("other", Severity::INFO), &ids, &sevs));
}

#[test]
fn filter_single_set() {
    let ids = Some(vec![String::from("id1"), String::from("id2")]);
    let sevs = Some(vec![Severity::ERROR, Severity::FATAL]);
    assert!(filter(&sample_line("id2", Severity::INFO), &ids, &None));
    assert!(!filter(&sample_line("id3", Severity::FATAL), &ids, &None));
    assert!(filter(&sample_line("id3", Severity::ERROR), &None, &sevs));
    assert!(!filter(&sample_line("id1", Severity::WARNING), &None, &sevs));
}

#[test]
fn filter_absent_sets_keep_nothing() {
    assert!(!filter(&sample_line("id1", Severity::FATAL), &None, &None));
    assert!(!filter(&sample_line("", Severity::INFO), &None, &None));
}

#[test]
fn parse_and_filter_keeps_matching_lines_only() {
    let ids = Some(vec![String::from("id1")]);
    let sevs = Some(vec![Severity::FATAL]);
    let kept = parse_and_filter(
        "UVM_FATAL /home/runner/env.svh(46) @ 25: uvm_test_top.jb_env.jb_fc [id1] GREEN BUBBLE_GUM 7",
        &ids,
        &sevs,
    );
    assert_eq!(kept.unwrap().id, "id1");
    // Matching only one of the two sets rejects the line.
    assert!(parse_and_filter("UVM_INFO a.sv(1) @ 2: top [id1] m", &ids, &sevs).is_none());
    assert!(parse_and_filter("UVM_FATAL a.sv(1) @ 2: top [id9] m", &ids, &sevs).is_none());
    // A malformed line is never kept.
    assert!(parse_and_filter("garbage", &ids, &sevs).is_none());
    // Absent sets keep nothing.
    assert!(parse_and_filter("UVM_FATAL a.sv(1) @ 2: top [id1] m", &None, &None).is_none());
}

#[test]
fn log_keeps_insertion_order_and_filters() {
    let mut log = Log::new();
    assert_eq!(log.len(), 0);
    log.push(sample_line("a", Severity::INFO));
    log.push(sample_line("b", Severity::FATAL));
    log.push(sample_line("a", Severity::FATAL));
    assert_eq!(log.len(), 3);
    assert_eq!(log.get(0).id, "a");
    assert_eq!(log.get(1).id, "b");
    assert_eq!(log.get(2).id, "a");

    let ids = Some(vec![String::from("a")]);
    let sevs = Some(vec![Severity::FATAL]);
    let kept = log.filtered(&ids, &sevs);
    assert_eq!(kept.len(), 1);
    assert_eq!(kept.get(0).id, "a");
    assert_eq!(kept.get(0).severity, Severity::FATAL);

    let kept = log.filtered(&ids, &None);
    assert_eq!(kept.len(), 2);

    let kept = log.filtered(&None, &None);
    assert_eq!(kept.len(), 0);
}

#[test]
fn render_exact_text() {
    let l = Line {
        severity: Severity::ERROR,
        file: String::from("/tmp/dut.sv"),
        line: 7,
        time: 12345,
        time_unit: Some(TimeUnit::Microsecond),
        component: String::from("tb.dut.mon"),
        id: String::from("CHK"),
        message: String::from("mismatch seen"),
    };
    assert_eq!(l.render(), "UVM_ERROR /tmp/dut.sv(7) @ 12345us: tb.dut.mon [CHK] mismatch seen");
    let l = Line { time_unit: None, ..l };
    assert_eq!(l.render(), "UVM_ERROR /tmp/dut.sv(7) @ 12345: tb.dut.mon [CHK] mismatch seen");
}

#[test]
fn whitespace_runs_between_fields_are_tolerated() {
    let l = parse_line("UVM_INFO  \t a.sv(1)  @  10:  top  [t] hello").unwrap();
    assert_eq!(l.line, 1);
    assert_eq!(l.time, 10);
    assert_eq!(l.component, "top");
    assert_eq!(l.id, "t");
    assert_eq!(l.message, "hello");
}
