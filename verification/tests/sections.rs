//! The section builder surface: attaching sections to a fallible result,
//! lazy evaluation on the error path only, and the indented section block.

use color_anyhow::Cause;
use color_anyhow::IndentedSection;
use color_anyhow::Report;
use color_anyhow::Section;
use color_anyhow::SectionExt;
use color_anyhow::writers::HeaderWriter;

fn failing() -> Result<(), Report> {
    Err(Report::new(vec![Cause {
        message: "command failed".to_string(),
        span_trace: None,
    }]))
}

#[test]
fn header_builds_indented_section() {
    let sec = "body\nbody".to_string().header("header".to_string());
    assert_eq!(sec.render(), "header\n   body\n   body");
}

#[test]
fn indented_section_with_empty_body_renders_nothing() {
    let sec = String::new().header("Stdout:".to_string());
    assert_eq!(sec.render(), "");
}

#[test]
fn indented_section_keeps_empty_lines_bare() {
    let sec = IndentedSection {
        header: "H:".to_string(),
        body: "a\n\nb".to_string(),
    };
    assert_eq!(sec.render(), "H:\n   a\n\n   b");
}

#[test]
fn section_attaches_custom_block() {
    let out = failing()
        .section("Please report bugs".to_string())
        .unwrap_err()
        .render();
    assert_eq!(out, "\n   0: command failed\n\nPlease report bugs");
}

#[test]
fn sections_accumulate_in_call_order() {
    let out = failing()
        .section("first".to_string())
        .section("second".to_string())
        .suggestion("third".to_string())
        .unwrap_err()
        .render();
    assert_eq!(
        out,
        "\n   0: command failed\n\nfirst\n\nsecond\n\nSuggestion: third"
    );
}

#[test]
fn error_section_is_displayed_after_primary_chain() {
    let out = failing()
        .error("got one error".to_string())
        .error("got a second error".to_string())
        .unwrap_err()
        .render();
    assert_eq!(
        out,
        "\n   0: command failed\n\ngot one error\n\ngot a second error"
    );
}

#[test]
fn note_warning_suggestion_use_their_markers() {
    let out = failing()
        .note("N".to_string())
        .warning("W".to_string())
        .suggestion("S".to_string())
        .unwrap_err()
        .render();
    assert_eq!(out, "\n   0: command failed\n\nNote: N\nWarning: W\nSuggestion: S");
}

#[test]
fn builders_pass_success_through_unchanged() {
    let r: Result<u64, Report> = Ok(17);
    let r = r.section("ignored".to_string());
    match r {
        Ok(v) => assert_eq!(v, 17),
        Err(_) => panic!("success value must pass through"),
    }
}

#[test]
fn with_section_never_runs_closure_on_success() {
    let r: Result<u64, Report> = Ok(3);
    let r = r.with_section(|| panic!("closure must not run on the success path"));
    match r {
        Ok(v) => assert_eq!(v, 3),
        Err(_) => panic!("success value must pass through"),
    }
}

#[test]
fn with_section_runs_closure_on_error() {
    let out = failing()
        .with_section(|| "lazy block".to_string())
        .unwrap_err()
        .render();
    assert_eq!(out, "\n   0: command failed\n\nlazy block");
}

#[test]
fn with_note_and_friends_are_lazy_too() {
    let ok: Result<(), Report> = Ok(());
    let ok = ok
        .with_note(|| panic!("note closure ran"))
        .and_then(|_| Ok(()))
        .with_warning(|| panic!("warning closure ran"))
        .and_then(|_| Ok(()))
        .with_suggestion(|| panic!("suggestion closure ran"))
        .and_then(|_| Ok(()))
        .with_error(|| panic!("error closure ran"));
    assert!(ok.is_ok());
    let out = failing()
        .with_note(|| "n".to_string())
        .with_warning(|| "w".to_string())
        .unwrap_err()
        .render();
    assert_eq!(out, "\n   0: command failed\n\nNote: n\nWarning: w");
}

#[test]
fn header_writer_defers_header_until_content() {
    let mut w = HeaderWriter::new(String::new(), "\n\n".to_string());
    w.write("");
    assert_eq!(w.out, "");
    w.write("x");
    w.write("y");
    assert_eq!(w.out, "\n\nxy");
    w.ready();
    w.write("");
    w.write("z");
    let out = w.into_inner();
    assert_eq!(out, "\n\nxy\n\nz");
}
