//! Colorful, well-formatted error reports composed from a chain of causes,
//! attached annotation sections, and optional execution-context traces.
//!
//! The heart of the crate is the report renderer: given the ordered cause
//! chain, the accumulated sections, and any captured trace text, it produces
//! one block of report text. Every formatting decision — what is printed, in
//! what order, with what indentation, and under what conditions a header is
//! suppressed because its body is empty — is stated in contracts and proved.
//!
//! The chain itself, the logical trace and the native backtrace come from
//! outside collaborators; the renderer consumes their output as plain text
//! carried in [`Cause`] and [`Handler`] values.

use vstd::prelude::*;

pub mod config;
pub mod handler;
pub mod help;
pub mod private;
pub mod section;
pub mod writers;

pub use section::IndentedSection;
pub use section::Section;
pub use section::SectionExt;

verus! {

use crate::help::HelpInfo;

/// One cause in the linear chain behind an error: its display text, and the
/// logical-trace block it carries, already rendered to text, if it carries
/// one. A cause that carries a trace is left out of the numbered chain and
/// rendered inside the trace block instead.
pub struct Cause {
    /// The cause's display text.
    pub message: String,
    /// The rendered logical trace attached to this cause, if any.
    pub span_trace: Option<String>,
}

/// The report state attached to one error: the captured context traces and
/// the accumulated annotation sections. The cause chain itself stays with the
/// error and is handed to the renderer separately.
pub struct Handler {
    /// The captured native backtrace, rendered to text, if one was captured.
    pub backtrace: Option<String>,
    /// The captured logical trace, rendered to text, if one was captured.
    pub span_trace: Option<String>,
    /// The attached sections, in insertion order; the list only ever grows by
    /// appending.
    pub sections: Vec<HelpInfo>,
}

/// An enriched error value: the cause chain together with the report state.
///
/// A report is created once, when an operation first fails; sections then
/// accumulate through the builder methods of [`crate::section::Section`] as
/// the error propagates, and rendering produces the final text block.
pub struct Report {
    /// The ordered cause chain, outermost first.
    pub causes: Vec<Cause>,
    /// The captured context and accumulated sections.
    pub handler: Handler,
}

impl Report {
    /// A report over `causes` with no captured context and no sections.
    pub fn new(causes: Vec<Cause>) -> (r: Report)
        ensures
            r.causes == causes,
            r.handler.span_trace is None,
            r.handler.backtrace is None,
            r.handler.sections@ =~= Seq::<HelpInfo>::empty(),
    {
        Report {
            causes,
            handler: Handler { backtrace: None, span_trace: None, sections: Vec::new() },
        }
    }

    /// A report over `causes` carrying the context the capture policy decided
    /// to record, and no sections yet.
    pub fn with_context(causes: Vec<Cause>, span_trace: Option<String>, backtrace: Option<
        String,
    >) -> (r: Report)
        ensures
            r.causes == causes,
            r.handler.span_trace == span_trace,
            r.handler.backtrace == backtrace,
            r.handler.sections@ =~= Seq::<HelpInfo>::empty(),
    {
        Report { causes, handler: Handler { backtrace, span_trace, sections: Vec::new() } }
    }

    /// Render the full report text.
    pub fn render(&self) -> (out: String)
        ensures
            out@ == crate::handler::report_text(self.causes@, self.handler),
    {
        self.handler.debug(&self.causes)
    }
}

/// The process-wide installation flag behind the one-shot hook installation:
/// a single-assignment cell that can be set once and never unset.
pub struct HookState {
    installed: bool,
}

impl HookState {
    /// Whether the hook has been installed through this state.
    pub closed spec fn is_installed(&self) -> bool {
        self.installed
    }

    /// A fresh state with nothing installed yet.
    pub fn new() -> (s: HookState)
        ensures
            !s.is_installed(),
    {
        HookState { installed: false }
    }
}

/// Why a hook installation was refused.
pub enum InstallError {
    /// A hook had already been installed; only the first installation wins.
    AlreadyInstalled,
}

/// Install the error report hook: set the installation flag if it is unset,
/// and report a conflict otherwise.
///
/// Only the first installation succeeds. Every later call fails with
/// [`InstallError::AlreadyInstalled`] and leaves the state untouched; there
/// is no way to uninstall.
pub fn install(hooks: &mut HookState) -> (r: Result<(), InstallError>)
    ensures
        r is Ok <==> !old(hooks).is_installed(),
        final(hooks).is_installed(),
        !old(hooks).is_installed() ==> final(hooks).is_installed(),
        old(hooks).is_installed() ==> r == Result::<(), InstallError>::Err(
            InstallError::AlreadyInstalled,
        ) && *final(hooks) == *old(hooks),
{
    if hooks.installed {
        Err(InstallError::AlreadyInstalled)
    } else {
        hooks.installed = true;
        Ok(())
    }
}

} // verus!
