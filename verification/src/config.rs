//! The capture policy: which execution context is recorded when a report is
//! constructed, decided once from the two environment configuration values.

use vstd::prelude::*;

verus! {

/// How much execution context a report captures and renders.
#[derive(Clone, Copy, PartialEq, Eq, Structural, Debug)]
pub enum Verbosity {
    /// Capture nothing.
    Off,
    /// Capture the logical trace only.
    Minimal,
    /// Capture the logical trace and a native backtrace.
    Short,
    /// As `Short`, and additionally ask for source-line context while
    /// rendering, best effort.
    Full,
}

/// The view of an optionally present configuration value.
pub open spec fn opt_view(v: Option<String>) -> Option<Seq<char>> {
    match v {
        Some(s) => Some(s@),
        None => None,
    }
}

/// The verbosity tier the two configuration values select.
///
/// The backtrace value opts into the expensive tiers: `full` selects the full
/// tier and any other set value but `0` the short tier. Otherwise the trace
/// value governs: set and not `0` selects the minimal tier; unset or `0`
/// leaves capture off.
pub open spec fn verbosity_spec(trace_var: Option<Seq<char>>, backtrace_var: Option<
    Seq<char>,
>) -> Verbosity {
    match backtrace_var {
        Some(b) => {
            if b == "full"@ {
                Verbosity::Full
            } else if b != "0"@ {
                Verbosity::Short
            } else {
                verbosity_without_backtrace(trace_var)
            }
        },
        None => verbosity_without_backtrace(trace_var),
    }
}

/// The tier selected when backtraces are not opted into.
pub open spec fn verbosity_without_backtrace(trace_var: Option<Seq<char>>) -> Verbosity {
    match trace_var {
        Some(t) => {
            if t != "0"@ {
                Verbosity::Minimal
            } else {
                Verbosity::Off
            }
        },
        None => Verbosity::Off,
    }
}

/// Character-for-character string equality.
pub fn str_eq(a: &str, b: &str) -> (r: bool)
    ensures
        r == (a@ == b@),
{
    let n = a.unicode_len();
    if n != b.unicode_len() {
        proof {
            assert(a@ != b@);
        }
        return false;
    }
    let mut i: usize = 0;
    while i < n
        invariant
            n == a@.len(),
            n == b@.len(),
            0 <= i <= n,
            forall|j: int| 0 <= j < i ==> a@[j] == b@[j],
        decreases n - i,
    {
        if a.get_char(i) != b.get_char(i) {
            return false;
        }
        i = i + 1;
    }
    proof {
        assert(a@ =~= b@);
    }
    true
}

/// Decide the verbosity tier from the two environment configuration values:
/// the logical-trace setting and the backtrace setting.
pub fn verbosity_from_env(trace_var: Option<String>, backtrace_var: Option<String>) -> (v:
    Verbosity)
    ensures
        v == verbosity_spec(opt_view(trace_var), opt_view(backtrace_var)),
{
    let from_trace = match &trace_var {
        Some(t) => {
            if !str_eq(t.as_str(), "0") {
                Verbosity::Minimal
            } else {
                Verbosity::Off
            }
        },
        None => Verbosity::Off,
    };
    match &backtrace_var {
        Some(b) => {
            if str_eq(b.as_str(), "full") {
                Verbosity::Full
            } else if !str_eq(b.as_str(), "0") {
                Verbosity::Short
            } else {
                from_trace
            }
        },
        None => from_trace,
    }
}

/// Whether the tier captures a logical trace: every tier but `Off` does.
pub fn capture_span_trace(v: &Verbosity) -> (b: bool)
    ensures
        b == !(v is Off),
{
    match v {
        Verbosity::Off => false,
        _ => true,
    }
}

/// Whether the tier captures a native backtrace: only the opt-in tiers
/// `Short` and `Full` do.
pub fn capture_backtrace(v: &Verbosity) -> (b: bool)
    ensures
        b == (v is Short || v is Full),
{
    match v {
        Verbosity::Short => true,
        Verbosity::Full => true,
        _ => false,
    }
}

/// Whether rendering should additionally try to attach source-line context:
/// only the `Full` tier asks for it, and only best effort.
pub fn include_source_context(v: &Verbosity) -> (b: bool)
    ensures
        b == (v is Full),
{
    match v {
        Verbosity::Full => true,
        _ => false,
    }
}

} // verus!
