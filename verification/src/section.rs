//! Helpers for adding custom sections to error reports: the indented section
//! block with its conditional header, and the builder trait that attaches
//! sections to a fallible computation's error path.

use vstd::prelude::*;
use vstd::string::StringExecFns;
use crate::Report;
use crate::help::HelpInfo;
use crate::writers::cond_block;
use crate::writers::indent_uniform;
use crate::writers::indent_uniform_spec;
use crate::writers::lemma_indent_empty;

verus! {

/// The text of an indented section: the body indented three spaces under the
/// header on its own line — or nothing at all, header included, when the
/// body is empty.
pub open spec fn indented_section_text(header: Seq<char>, body: Seq<char>) -> Seq<char> {
    cond_block(header, cond_block(seq!['\n'], indent_uniform_spec("   "@, body)))
}

/// An indented section with a header for an error report.
///
/// The body is indented to the same level as the error messages of the
/// chain, and the header is omitted entirely when the body renders empty, so
/// a section with dynamic content never leaves a dangling header behind.
pub struct IndentedSection {
    /// The header printed above the body.
    pub header: String,
    /// The body, indented under the header.
    pub body: String,
}

impl IndentedSection {
    /// Render the section: the indented body under its header, or nothing
    /// when the body is empty.
    pub fn render(&self) -> (r: String)
        ensures
            r@ == indented_section_text(self.header@, self.body@),
    {
        let ind = indent_uniform("   ", self.body.as_str());
        proof {
            lemma_indent_empty("   "@, self.body@, true);
        }
        if ind.as_str().is_empty() {
            String::new()
        } else {
            let mut r = self.header.clone();
            r.push('\n');
            r.append(ind.as_str());
            proof {
                assert(r@ =~= indented_section_text(self.header@, self.body@));
            }
            r
        }
    }
}

/// Extension trait for constructing sections with commonly used formats.
pub trait SectionExt: Sized {
    /// The text this value contributes as a section body.
    spec fn body_view(self) -> Seq<char>;

    /// Pair this value, as a section body, with a header; the body will be
    /// indented under the header, and the header dropped if the body is
    /// empty.
    fn header(self, header: String) -> (r: IndentedSection)
        ensures
            r.header == header,
            r.body@ == self.body_view(),
    ;
}

impl SectionExt for String {
    open spec fn body_view(self) -> Seq<char> {
        self@
    }

    fn header(self, header: String) -> (r: IndentedSection) {
        IndentedSection { body: self, header }
    }
}

/// Whether `after` is `before` with section `h` appended: the causes and the
/// captured traces unchanged, and `h` at the end of the section list.
pub open spec fn with_appended(before: Report, after: Report, h: HelpInfo) -> bool {
    &&& after.causes == before.causes
    &&& after.handler.span_trace == before.handler.span_trace
    &&& after.handler.backtrace == before.handler.backtrace
    &&& after.handler.sections@ == before.handler.sections@.push(h)
}

/// One builder step over a fallible result: a success value passes through
/// untouched, and an error comes out with section `h` appended.
pub open spec fn builder_step<T>(
    before: Result<T, Report>,
    after: Result<T, Report>,
    h: HelpInfo,
) -> bool {
    match before {
        Ok(v) => after == Result::<T, Report>::Ok(v),
        Err(rep) => match after {
            Err(out) => with_appended(rep, out, h),
            Ok(_) => false,
        },
    }
}

/// A helper trait for attaching informational sections to error reports, to
/// be displayed after the chain of errors.
///
/// Every method passes a success value through unchanged and enriches the
/// error side with one more section; sections accumulate in call order. The
/// `with_` variants take a deferred thunk that runs only on the error path,
/// never on success.
pub trait Section<T>: crate::private::Sealed + Sized {
    /// This receiver, seen as a fallible result.
    spec fn spec_parts(self) -> Result<T, Report>;

    /// Attach a custom section.
    fn section(self, section: String) -> (r: Result<T, Report>)
        ensures
            builder_step(self.spec_parts(), r, HelpInfo::Custom(section)),
    ;

    /// Attach a custom section, produced only in the case of an error.
    fn with_section<F: FnOnce() -> String>(self, section: F) -> (r: Result<T, Report>)
        requires
            self.spec_parts() is Err ==> section.requires(()),
        ensures
            self.spec_parts() matches Ok(v) ==> r == Result::<T, Report>::Ok(v),
            self.spec_parts() matches Err(rep) ==> exists|s: String|
                #[trigger] section.ensures((), s) && (r matches Err(out) && with_appended(
                    rep,
                    out,
                    HelpInfo::Custom(s),
                )),
    ;

    /// Attach a second, independent error as its own section, displayed
    /// right after the primary chain.
    fn error(self, error: String) -> (r: Result<T, Report>)
        ensures
            builder_step(self.spec_parts(), r, HelpInfo::Error(error)),
    ;

    /// Attach a second error section, produced only in the case of an error.
    fn with_error<F: FnOnce() -> String>(self, error: F) -> (r: Result<T, Report>)
        requires
            self.spec_parts() is Err ==> error.requires(()),
        ensures
            self.spec_parts() matches Ok(v) ==> r == Result::<T, Report>::Ok(v),
            self.spec_parts() matches Err(rep) ==> exists|s: String|
                #[trigger] error.ensures((), s) && (r matches Err(out) && with_appended(
                    rep,
                    out,
                    HelpInfo::Error(s),
                )),
    ;

    /// Attach a note, displayed after the trace blocks.
    fn note(self, note: String) -> (r: Result<T, Report>)
        ensures
            builder_step(self.spec_parts(), r, HelpInfo::Note(note)),
    ;

    /// Attach a note, produced only in the case of an error.
    fn with_note<F: FnOnce() -> String>(self, note: F) -> (r: Result<T, Report>)
        requires
            self.spec_parts() is Err ==> note.requires(()),
        ensures
            self.spec_parts() matches Ok(v) ==> r == Result::<T, Report>::Ok(v),
            self.spec_parts() matches Err(rep) ==> exists|s: String|
                #[trigger] note.ensures((), s) && (r matches Err(out) && with_appended(
                    rep,
                    out,
                    HelpInfo::Note(s),
                )),
    ;

    /// Attach a warning, displayed after the trace blocks.
    fn warning(self, warning: String) -> (r: Result<T, Report>)
        ensures
            builder_step(self.spec_parts(), r, HelpInfo::Warning(warning)),
    ;

    /// Attach a warning, produced only in the case of an error.
    fn with_warning<F: FnOnce() -> String>(self, warning: F) -> (r: Result<T, Report>)
        requires
            self.spec_parts() is Err ==> warning.requires(()),
        ensures
            self.spec_parts() matches Ok(v) ==> r == Result::<T, Report>::Ok(v),
            self.spec_parts() matches Err(rep) ==> exists|s: String|
                #[trigger] warning.ensures((), s) && (r matches Err(out) && with_appended(
                    rep,
                    out,
                    HelpInfo::Warning(s),
                )),
    ;

    /// Attach a suggestion, displayed after the trace blocks.
    fn suggestion(self, suggestion: String) -> (r: Result<T, Report>)
        ensures
            builder_step(self.spec_parts(), r, HelpInfo::Suggestion(suggestion)),
    ;

    /// Attach a suggestion, produced only in the case of an error.
    fn with_suggestion<F: FnOnce() -> String>(self, suggestion: F) -> (r: Result<T, Report>)
        requires
            self.spec_parts() is Err ==> suggestion.requires(()),
        ensures
            self.spec_parts() matches Ok(v) ==> r == Result::<T, Report>::Ok(v),
            self.spec_parts() matches Err(rep) ==> exists|s: String|
                #[trigger] suggestion.ensures((), s) && (r matches Err(out) && with_appended(
                    rep,
                    out,
                    HelpInfo::Suggestion(s),
                )),
    ;
}

impl<T> Section<T> for Result<T, Report> {
    open spec fn spec_parts(self) -> Result<T, Report> {
        self
    }

    fn section(self, section: String) -> (r: Result<T, Report>) {
        match self {
            Ok(v) => Ok(v),
            Err(mut rep) => {
                rep.handler.sections.push(HelpInfo::Custom(section));
                Err(rep)
            },
        }
    }

    fn with_section<F: FnOnce() -> String>(self, section: F) -> (r: Result<T, Report>) {
        match self {
            Ok(v) => Ok(v),
            Err(mut rep) => {
                let s = section();
                rep.handler.sections.push(HelpInfo::Custom(s));
                Err(rep)
            },
        }
    }

    fn error(self, error: String) -> (r: Result<T, Report>) {
        match self {
            Ok(v) => Ok(v),
            Err(mut rep) => {
                rep.handler.sections.push(HelpInfo::Error(error));
                Err(rep)
            },
        }
    }

    fn with_error<F: FnOnce() -> String>(self, error: F) -> (r: Result<T, Report>) {
        match self {
            Ok(v) => Ok(v),
            Err(mut rep) => {
                let s = error();
                rep.handler.sections.push(HelpInfo::Error(s));
                Err(rep)
            },
        }
    }

    fn note(self, note: String) -> (r: Result<T, Report>) {
        match self {
            Ok(v) => Ok(v),
            Err(mut rep) => {
                rep.handler.sections.push(HelpInfo::Note(note));
                Err(rep)
            },
        }
    }

    fn with_note<F: FnOnce() -> String>(self, note: F) -> (r: Result<T, Report>) {
        match self {
            Ok(v) => Ok(v),
            Err(mut rep) => {
                let s = note();
                rep.handler.sections.push(HelpInfo::Note(s));
                Err(rep)
            },
        }
    }

    fn warning(self, warning: String) -> (r: Result<T, Report>) {
        match self {
            Ok(v) => Ok(v),
            Err(mut rep) => {
                rep.handler.sections.push(HelpInfo::Warning(warning));
                Err(rep)
            },
        }
    }

    fn with_warning<F: FnOnce() -> String>(self, warning: F) -> (r: Result<T, Report>) {
        match self {
            Ok(v) => Ok(v),
            Err(mut rep) => {
                let s = warning();
                rep.handler.sections.push(HelpInfo::Warning(s));
                Err(rep)
            },
        }
    }

    fn suggestion(self, suggestion: String) -> (r: Result<T, Report>) {
        match self {
            Ok(v) => Ok(v),
            Err(mut rep) => {
                rep.handler.sections.push(HelpInfo::Suggestion(suggestion));
                Err(rep)
            },
        }
    }

    fn with_suggestion<F: FnOnce() -> String>(self, suggestion: F) -> (r: Result<T, Report>) {
        match self {
            Ok(v) => Ok(v),
            Err(mut rep) => {
                let s = suggestion();
                rep.handler.sections.push(HelpInfo::Suggestion(s));
                Err(rep)
            },
        }
    }
}

} // verus!
