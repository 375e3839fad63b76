//! The tagged section variants that can be attached to a report, and how each
//! renders: extra errors and custom blocks stand on their own, while notes,
//! warnings and suggestions carry a fixed kind marker.

use vstd::prelude::*;
use vstd::string::StringExecFns;

verus! {

/// One annotation attached to a report, to be displayed after the chain of
/// errors. Every variant carries its content already rendered to text.
pub enum HelpInfo {
    /// A second, independent error aggregated into the report; printed right
    /// after the chain as its own block.
    Error(String),
    /// A caller-supplied block, printed after all `Error` sections.
    Custom(String),
    /// A note, printed after the trace blocks behind a `Note: ` marker.
    Note(String),
    /// A warning, printed after the trace blocks behind a `Warning: ` marker.
    Warning(String),
    /// A suggestion, printed after the trace blocks behind a `Suggestion: `
    /// marker.
    Suggestion(String),
}

/// The content a section variant carries, without any kind marker.
pub open spec fn section_body(h: HelpInfo) -> Seq<char> {
    match h {
        HelpInfo::Error(t) => t@,
        HelpInfo::Custom(t) => t@,
        HelpInfo::Note(t) => t@,
        HelpInfo::Warning(t) => t@,
        HelpInfo::Suggestion(t) => t@,
    }
}

/// A section's full text: the body behind the variant's kind marker, if it
/// has one.
pub open spec fn help_text(h: HelpInfo) -> Seq<char> {
    match h {
        HelpInfo::Error(t) => t@,
        HelpInfo::Custom(t) => t@,
        HelpInfo::Note(t) => "Note: "@ + t@,
        HelpInfo::Warning(t) => "Warning: "@ + t@,
        HelpInfo::Suggestion(t) => "Suggestion: "@ + t@,
    }
}

/// Whether a section belongs to the trailing group, printed after the trace
/// blocks rather than right after the chain.
pub open spec fn is_trailing(h: HelpInfo) -> bool {
    match h {
        HelpInfo::Error(_) => false,
        HelpInfo::Custom(_) => false,
        HelpInfo::Note(_) => true,
        HelpInfo::Warning(_) => true,
        HelpInfo::Suggestion(_) => true,
    }
}

/// How one trailing section appears in the report: a single newline, then the
/// section's text — or nothing at all when its body is empty, so that no bare
/// kind marker is ever printed.
pub open spec fn trailing_block(h: HelpInfo) -> Seq<char> {
    if section_body(h).len() == 0 {
        Seq::<char>::empty()
    } else {
        seq!['\n'] + help_text(h)
    }
}

impl HelpInfo {
    /// Render this section's full text.
    pub fn render(&self) -> (r: String)
        ensures
            r@ == help_text(*self),
    {
        match self {
            HelpInfo::Error(t) => t.clone(),
            HelpInfo::Custom(t) => t.clone(),
            HelpInfo::Note(t) => {
                let mut r = String::from_str("Note: ");
                r.append(t.as_str());
                r
            },
            HelpInfo::Warning(t) => {
                let mut r = String::from_str("Warning: ");
                r.append(t.as_str());
                r
            },
            HelpInfo::Suggestion(t) => {
                let mut r = String::from_str("Suggestion: ");
                r.append(t.as_str());
                r
            },
        }
    }

    /// Whether this section's body is empty, so that rendering must suppress
    /// it entirely rather than leave a bare marker or header behind.
    pub fn body_is_empty(&self) -> (b: bool)
        ensures
            b == (section_body(*self).len() == 0),
    {
        match self {
            HelpInfo::Error(t) => t.as_str().is_empty(),
            HelpInfo::Custom(t) => t.as_str().is_empty(),
            HelpInfo::Note(t) => t.as_str().is_empty(),
            HelpInfo::Warning(t) => t.as_str().is_empty(),
            HelpInfo::Suggestion(t) => t.as_str().is_empty(),
        }
    }

    /// Whether this section belongs to the trailing group.
    pub fn in_trailing_group(&self) -> (b: bool)
        ensures
            b == is_trailing(*self),
    {
        match self {
            HelpInfo::Error(_) => false,
            HelpInfo::Custom(_) => false,
            HelpInfo::Note(_) => true,
            HelpInfo::Warning(_) => true,
            HelpInfo::Suggestion(_) => true,
        }
    }
}

} // verus!
