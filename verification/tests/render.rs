//! End-to-end rendering scenarios: the numbered chain, section blocks, trace
//! and backtrace regions, and the spacing rules between them.

use color_anyhow::handler::get_deepest_spantrace;
use color_anyhow::help::HelpInfo;
use color_anyhow::Cause;
use color_anyhow::Report;

fn cause(msg: &str) -> Cause {
    Cause { message: msg.to_string(), span_trace: None }
}

fn traced_cause(msg: &str, trace: &str) -> Cause {
    Cause { message: msg.to_string(), span_trace: Some(trace.to_string()) }
}

fn config_chain() -> Vec<Cause> {
    vec![
        cause("Unable to read config"),
        cause("No such file or directory (os error 2)"),
    ]
}

#[test]
fn chain_of_two_causes_renders_numbered() {
    let report = Report::new(config_chain());
    let out = report.render();
    assert_eq!(
        out,
        "\n   0: Unable to read config\n   1: No such file or directory (os error 2)"
    );
}

#[test]
fn empty_report_renders_nothing() {
    let report = Report::new(Vec::new());
    assert_eq!(report.render(), "");
}

#[test]
fn custom_section_with_empty_body_is_suppressed() {
    let mut report = Report::new(config_chain());
    report
        .handler
        .sections
        .push(HelpInfo::Custom(String::new()));
    let out = report.render();
    assert_eq!(
        out,
        "\n   0: Unable to read config\n   1: No such file or directory (os error 2)"
    );
}

#[test]
fn stderr_block_appears_and_empty_stdout_header_does_not() {
    let mut report = Report::new(vec![
        cause("Unable to read config"),
        cause("cmd exited with non-zero status code"),
    ]);
    report.handler.sections.push(HelpInfo::Custom(
        "Stderr:\n   cat: fake_file: No such file or directory".to_string(),
    ));
    report
        .handler
        .sections
        .push(HelpInfo::Custom(String::new()));
    let out = report.render();
    assert_eq!(
        out,
        "\n   0: Unable to read config\n   1: cmd exited with non-zero status code\n\nStderr:\n   cat: fake_file: No such file or directory"
    );
    assert!(!out.contains("Stdout:"));
}

#[test]
fn suggestion_ends_report_after_single_newline() {
    let mut report = Report::new(config_chain());
    report.handler.sections.push(HelpInfo::Suggestion(
        "try using a file that exists next time".to_string(),
    ));
    let out = report.render();
    assert_eq!(
        out,
        "\n   0: Unable to read config\n   1: No such file or directory (os error 2)\n\nSuggestion: try using a file that exists next time"
    );
    assert!(out.ends_with("\nSuggestion: try using a file that exists next time"));
}

#[test]
fn eleven_causes_align_in_four_character_column() {
    let mut causes = Vec::new();
    for i in 0..11 {
        causes.push(cause(&format!("cause number {}", i)));
    }
    let report = Report::new(causes);
    let out = report.render();
    assert!(out.contains("\n   9: cause number 9"));
    assert!(out.contains("\n  10: cause number 10"));
}

#[test]
fn multi_line_cause_uses_continuation_indent() {
    let report = Report::new(vec![cause("first line\nsecond line")]);
    let out = report.render();
    assert_eq!(out, "\n   0: first line\n      second line");
}

#[test]
fn traced_causes_are_excluded_from_numbering() {
    let report = Report::new(vec![
        cause("outermost"),
        traced_cause("traced middle", "TRACE BLOCK"),
        cause("innermost"),
    ]);
    let out = report.render();
    assert_eq!(out, "\n   0: outermost\n   1: innermost\n\nTRACE BLOCK");
}

#[test]
fn deepest_trace_on_chain_wins() {
    let causes = vec![
        traced_cause("outer", "OUTER TRACE"),
        traced_cause("inner", "INNER TRACE"),
    ];
    match get_deepest_spantrace(&causes) {
        Some(t) => assert_eq!(t, "INNER TRACE"),
        None => panic!("expected a trace"),
    }
}

#[test]
fn no_trace_on_plain_chain() {
    assert!(get_deepest_spantrace(&config_chain()).is_none());
}

#[test]
fn handler_trace_preferred_over_chain_trace() {
    let report = Report::with_context(
        vec![traced_cause("inner", "CHAIN TRACE")],
        Some("HANDLER TRACE".to_string()),
        None,
    );
    let out = report.render();
    assert_eq!(out, "\n\nHANDLER TRACE");
}

#[test]
fn backtrace_block_is_indented_two_spaces() {
    let report = Report::with_context(
        config_chain(),
        None,
        Some("frame one\nframe two".to_string()),
    );
    let out = report.render();
    assert_eq!(
        out,
        "\n   0: Unable to read config\n   1: No such file or directory (os error 2)\n\n  frame one\n  frame two"
    );
}

#[test]
fn trailing_sections_after_backtrace_need_no_extra_blank_line() {
    let mut report = Report::with_context(
        vec![cause("boom")],
        None,
        Some("frame".to_string()),
    );
    report
        .handler
        .sections
        .push(HelpInfo::Note("a note".to_string()));
    let out = report.render();
    assert_eq!(out, "\n   0: boom\n\n  frame\nNote: a note");
}

#[test]
fn trailing_sections_without_backtrace_get_one_blank_line() {
    let mut report = Report::new(vec![cause("boom")]);
    report
        .handler
        .sections
        .push(HelpInfo::Note("a note".to_string()));
    let out = report.render();
    assert_eq!(out, "\n   0: boom\n\nNote: a note");
}

#[test]
fn trailing_sections_keep_insertion_order() {
    let mut report = Report::new(vec![cause("boom")]);
    report
        .handler
        .sections
        .push(HelpInfo::Suggestion("s".to_string()));
    report.handler.sections.push(HelpInfo::Note("n".to_string()));
    report
        .handler
        .sections
        .push(HelpInfo::Warning("w".to_string()));
    let out = report.render();
    assert_eq!(out, "\n   0: boom\n\nSuggestion: s\nNote: n\nWarning: w");
}

#[test]
fn error_sections_render_before_custom_sections() {
    let mut report = Report::new(vec![cause("boom")]);
    report
        .handler
        .sections
        .push(HelpInfo::Custom("CUSTOM BLOCK".to_string()));
    report
        .handler
        .sections
        .push(HelpInfo::Error("SECOND ERROR".to_string()));
    let out = report.render();
    assert_eq!(out, "\n   0: boom\n\nSECOND ERROR\n\nCUSTOM BLOCK");
}

#[test]
fn all_regions_compose_in_order() {
    let mut report = Report::with_context(
        vec![cause("boom")],
        Some("TRACE".to_string()),
        Some("frame".to_string()),
    );
    report
        .handler
        .sections
        .push(HelpInfo::Error("EXTRA ERROR".to_string()));
    report
        .handler
        .sections
        .push(HelpInfo::Custom("CUSTOM".to_string()));
    report
        .handler
        .sections
        .push(HelpInfo::Suggestion("s".to_string()));
    let out = report.render();
    assert_eq!(
        out,
        "\n   0: boom\n\nEXTRA ERROR\n\nCUSTOM\n\nTRACE\n\n  frame\nSuggestion: s"
    );
}

#[test]
fn empty_trace_text_leaves_no_separator() {
    let report = Report::with_context(vec![cause("boom")], Some(String::new()), None);
    let out = report.render();
    assert_eq!(out, "\n   0: boom");
}

#[test]
fn empty_note_is_suppressed_entirely() {
    let mut report = Report::new(vec![cause("boom")]);
    report.handler.sections.push(HelpInfo::Note(String::new()));
    let out = report.render();
    assert_eq!(out, "\n   0: boom\n");
}
