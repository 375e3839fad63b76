//! The report renderer: one pass over the cause chain, the accumulated
//! sections and the captured traces, producing the final text block. Also the
//! intensity transform applied to the colors the surrounding styling system
//! carries.

use vstd::prelude::*;
use vstd::string::StringExecFns;
use vstd::string::StrSliceExecFns;
use crate::Cause;
use crate::Handler;
use crate::help::HelpInfo;
use crate::help::help_text;
use crate::help::is_trailing;
use crate::help::trailing_block;
use crate::writers::HeaderWriter;
use crate::writers::cond_block;
use crate::writers::indent_numbered_spec;
use crate::writers::indent_uniform;
use crate::writers::indent_uniform_spec;
use crate::writers::append_numbered;

verus! {

/// A color of the 16-color terminal palette, an indexed 256-color value, or a
/// true-color value: the part of the surrounding styling system's color type
/// the intensity transform reads.
#[derive(Clone, Copy, PartialEq, Eq, Structural, Debug)]
pub enum Color {
    /// Named color 0.
    Black,
    /// Named color 1.
    Red,
    /// Named color 2.
    Green,
    /// Named color 3.
    Yellow,
    /// Named color 4.
    Blue,
    /// Named color 5.
    Purple,
    /// Named color 6.
    Cyan,
    /// Named color 7.
    White,
    /// An indexed 256-color palette value.
    Fixed(u8),
    /// A true-color value.
    RGB(u8, u8, u8),
}

/// A terminal style, reduced to the part the intensity transform touches:
/// the foreground color, if one is set.
#[derive(Clone, Copy, PartialEq, Eq, Debug)]
pub struct Style {
    /// The foreground color, if the style sets one.
    pub foreground: Option<Color>,
}

/// The intensity transform: each named color becomes its bright indexed
/// counterpart, an indexed color below 8 moves up by 8, and everything else —
/// already-bright indexed colors and true-color values — is unchanged.
pub open spec fn intense_color(c: Color) -> Color {
    match c {
        Color::Black => Color::Fixed(8),
        Color::Red => Color::Fixed(9),
        Color::Green => Color::Fixed(10),
        Color::Yellow => Color::Fixed(11),
        Color::Blue => Color::Fixed(12),
        Color::Purple => Color::Fixed(13),
        Color::Cyan => Color::Fixed(14),
        Color::White => Color::Fixed(15),
        Color::Fixed(n) => if n < 8 {
            Color::Fixed((n + 8) as u8)
        } else {
            Color::Fixed(n)
        },
        Color::RGB(r, g, b) => Color::RGB(r, g, b),
    }
}

/// A style with its foreground, if any, made intense.
pub open spec fn intense_style(s: Style) -> Style {
    match s.foreground {
        Some(c) => Style { foreground: Some(intense_color(c)) },
        None => s,
    }
}

impl Color {
    /// The intensity-adjusted form of this color.
    pub fn make_intense(self) -> (r: Color)
        ensures
            r == intense_color(self),
    {
        match self {
            Color::Black => Color::Fixed(8),
            Color::Red => Color::Fixed(9),
            Color::Green => Color::Fixed(10),
            Color::Yellow => Color::Fixed(11),
            Color::Blue => Color::Fixed(12),
            Color::Purple => Color::Fixed(13),
            Color::Cyan => Color::Fixed(14),
            Color::White => Color::Fixed(15),
            Color::Fixed(color) => if color < 8 {
                Color::Fixed(color + 8)
            } else {
                Color::Fixed(color)
            },
            other => other,
        }
    }
}

impl Style {
    /// This style with its foreground, if any, made intense.
    pub fn make_intense(self) -> (r: Style)
        ensures
            r == intense_style(self),
    {
        match self.foreground {
            Some(color) => Style { foreground: Some(color.make_intense()) },
            None => self,
        }
    }
}

/// The intensity transform is idempotent: adjusting a color twice is the same
/// as adjusting it once, so already-intense colors are left alone. It is also
/// total — every named, indexed and true-color value has an image.
pub proof fn lemma_make_intense_idempotent(c: Color)
    ensures
        intense_color(intense_color(c)) == intense_color(c),
{
}

/// The numbered cause chain, starting at entry number `n`: each cause that
/// does not carry a logical trace is printed on a fresh line behind its
/// numbered indent marker; causes that carry a trace are excluded, without
/// using up an entry number.
pub open spec fn chain_from(causes: Seq<Cause>, n: nat) -> Seq<char>
    decreases causes.len(),
{
    if causes.len() == 0 {
        Seq::<char>::empty()
    } else if causes[0].span_trace is None {
        seq!['\n'] + indent_numbered_spec(n, causes[0].message@) + chain_from(causes.skip(1), n + 1)
    } else {
        chain_from(causes.skip(1), n)
    }
}

/// The numbered cause chain of a report, numbered from 0.
pub open spec fn chain_part(causes: Seq<Cause>) -> Seq<char> {
    chain_from(causes, 0)
}

/// The texts of the `Error` sections, in insertion order.
pub open spec fn error_texts(secs: Seq<HelpInfo>) -> Seq<Seq<char>>
    decreases secs.len(),
{
    if secs.len() == 0 {
        Seq::<Seq<char>>::empty()
    } else {
        (if secs[0] is Error {
            seq![help_text(secs[0])]
        } else {
            Seq::<Seq<char>>::empty()
        }) + error_texts(secs.skip(1))
    }
}

/// The texts of the `Custom` sections, in insertion order.
pub open spec fn custom_texts(secs: Seq<HelpInfo>) -> Seq<Seq<char>>
    decreases secs.len(),
{
    if secs.len() == 0 {
        Seq::<Seq<char>>::empty()
    } else {
        (if secs[0] is Custom {
            seq![help_text(secs[0])]
        } else {
            Seq::<Seq<char>>::empty()
        }) + custom_texts(secs.skip(1))
    }
}

/// A run of blocks written through one conditional-header writer: each
/// nonempty text is preceded by the separator, and empty texts vanish
/// entirely — neither separator nor content.
pub open spec fn sep_blocks(sep: Seq<char>, texts: Seq<Seq<char>>) -> Seq<char>
    decreases texts.len(),
{
    if texts.len() == 0 {
        Seq::<char>::empty()
    } else {
        cond_block(sep, texts[0]) + sep_blocks(sep, texts.skip(1))
    }
}

/// The trailing region: the notes, warnings and suggestions in insertion
/// order, each on a fresh line, sections with empty bodies suppressed.
pub open spec fn trailing_part(secs: Seq<HelpInfo>) -> Seq<char>
    decreases secs.len(),
{
    if secs.len() == 0 {
        Seq::<char>::empty()
    } else {
        (if is_trailing(secs[0]) {
            trailing_block(secs[0])
        } else {
            Seq::<char>::empty()
        }) + trailing_part(secs.skip(1))
    }
}

/// Whether any trailing-group section was attached, whatever its body.
pub open spec fn has_trailing(secs: Seq<HelpInfo>) -> bool {
    exists|i: int| 0 <= i < secs.len() && is_trailing(secs[i])
}

/// The deepest logical trace carried by the chain: scanning from the
/// innermost cause outward, the first trace found wins.
pub open spec fn deepest_trace(causes: Seq<Cause>) -> Option<Seq<char>>
    decreases causes.len(),
{
    if causes.len() == 0 {
        None
    } else {
        match causes.last().span_trace {
            Some(t) => Some(t@),
            None => deepest_trace(causes.drop_last()),
        }
    }
}

/// The trace the report renders: one captured directly into the report wins
/// over one discovered on the chain.
pub open spec fn effective_trace(causes: Seq<Cause>, h: Handler) -> Option<Seq<char>> {
    match h.span_trace {
        Some(t) => Some(t@),
        None => deepest_trace(causes),
    }
}

/// The logical-trace region: the trace block behind the shared blank-line
/// separator, or nothing when no trace is available.
pub open spec fn trace_region(causes: Seq<Cause>, h: Handler) -> Seq<char> {
    match effective_trace(causes, h) {
        Some(t) => cond_block("\n\n"@, t),
        None => Seq::<char>::empty(),
    }
}

/// The backtrace region: the captured backtrace uniformly indented behind
/// the shared separator — or, with no backtrace but at least one trailing
/// section, exactly one blank line to keep the visual separation.
pub open spec fn back_region(h: Handler) -> Seq<char> {
    match h.backtrace {
        Some(bt) => cond_block("\n\n"@, indent_uniform_spec("  "@, bt@)),
        None => if has_trailing(h.sections@) {
            seq!['\n']
        } else {
            Seq::<char>::empty()
        },
    }
}

/// The full report text, in one pass: the numbered chain, the `Error`
/// sections, the `Custom` sections — each nonempty one a blank line apart —
/// then the logical-trace block, the backtrace block, and the trailing
/// notes, warnings and suggestions in insertion order.
pub open spec fn report_text(causes: Seq<Cause>, h: Handler) -> Seq<char> {
    chain_part(causes) + sep_blocks("\n\n"@, error_texts(h.sections@)) + sep_blocks(
        "\n\n"@,
        custom_texts(h.sections@),
    ) + trace_region(causes, h) + back_region(h) + trailing_part(h.sections@)
}

/// The number of causes excluded from the numbered chain because they carry
/// a logical trace.
pub open spec fn hidden_count(causes: Seq<Cause>) -> nat
    decreases causes.len(),
{
    if causes.len() == 0 {
        0
    } else {
        (if causes[0].span_trace is Some {
            1nat
        } else {
            0
        }) + hidden_count(causes.skip(1))
    }
}

/// The numbered chain as a list of entries, one per visible cause, starting
/// at entry number `n`.
pub open spec fn chain_blocks(causes: Seq<Cause>, n: nat) -> Seq<Seq<char>>
    decreases causes.len(),
{
    if causes.len() == 0 {
        Seq::<Seq<char>>::empty()
    } else if causes[0].span_trace is None {
        seq![seq!['\n'] + indent_numbered_spec(n, causes[0].message@)] + chain_blocks(
            causes.skip(1),
            n + 1,
        )
    } else {
        chain_blocks(causes.skip(1), n)
    }
}

/// All blocks joined in order.
pub open spec fn concat_all(blocks: Seq<Seq<char>>) -> Seq<char>
    decreases blocks.len(),
{
    if blocks.len() == 0 {
        Seq::<char>::empty()
    } else {
        blocks[0] + concat_all(blocks.skip(1))
    }
}

proof fn lemma_chain_blocks_from(causes: Seq<Cause>, n: nat)
    ensures
        chain_from(causes, n) == concat_all(chain_blocks(causes, n)),
        chain_blocks(causes, n).len() + hidden_count(causes) == causes.len(),
    decreases causes.len(),
{
    if causes.len() == 0 {
    } else {
        if causes[0].span_trace is None {
            lemma_chain_blocks_from(causes.skip(1), n + 1);
            let blocks = chain_blocks(causes, n);
            assert(blocks[0] == seq!['\n'] + indent_numbered_spec(n, causes[0].message@));
            assert(blocks.skip(1) =~= chain_blocks(causes.skip(1), n + 1));
            assert(chain_from(causes, n) =~= concat_all(blocks));
        } else {
            lemma_chain_blocks_from(causes.skip(1), n);
        }
    }
}

/// The numbered chain consists of exactly one numbered entry per cause that
/// does not carry a logical trace: the entry count plus the count of
/// excluded, trace-carrying causes equals the length of the chain.
pub proof fn lemma_chain_entry_count(causes: Seq<Cause>)
    ensures
        chain_part(causes) == concat_all(chain_blocks(causes, 0)),
        chain_blocks(causes, 0).len() + hidden_count(causes) == causes.len(),
{
    lemma_chain_blocks_from(causes, 0);
}

/// Blocks written through one separator writer follow the order of their
/// texts: a split list renders as the two renders joined.
pub proof fn lemma_sep_blocks_append(sep: Seq<char>, a: Seq<Seq<char>>, b: Seq<Seq<char>>)
    ensures
        sep_blocks(sep, a + b) == sep_blocks(sep, a) + sep_blocks(sep, b),
    decreases a.len(),
{
    if a.len() == 0 {
        assert(a + b =~= b);
        assert(sep_blocks(sep, a + b) =~= sep_blocks(sep, a) + sep_blocks(sep, b));
    } else {
        assert((a + b)[0] == a[0]);
        assert((a + b).skip(1) =~= a.skip(1) + b);
        lemma_sep_blocks_append(sep, a.skip(1), b);
        assert(sep_blocks(sep, a + b) =~= sep_blocks(sep, a) + sep_blocks(sep, b));
    }
}

proof fn lemma_error_texts_append(a: Seq<HelpInfo>, b: Seq<HelpInfo>)
    ensures
        error_texts(a + b) == error_texts(a) + error_texts(b),
    decreases a.len(),
{
    if a.len() == 0 {
        assert(a + b =~= b);
        assert(error_texts(a + b) =~= error_texts(a) + error_texts(b));
    } else {
        assert((a + b)[0] == a[0]);
        assert((a + b).skip(1) =~= a.skip(1) + b);
        lemma_error_texts_append(a.skip(1), b);
        assert(error_texts(a + b) =~= error_texts(a) + error_texts(b));
    }
}

proof fn lemma_custom_texts_append(a: Seq<HelpInfo>, b: Seq<HelpInfo>)
    ensures
        custom_texts(a + b) == custom_texts(a) + custom_texts(b),
    decreases a.len(),
{
    if a.len() == 0 {
        assert(a + b =~= b);
        assert(custom_texts(a + b) =~= custom_texts(a) + custom_texts(b));
    } else {
        assert((a + b)[0] == a[0]);
        assert((a + b).skip(1) =~= a.skip(1) + b);
        lemma_custom_texts_append(a.skip(1), b);
        assert(custom_texts(a + b) =~= custom_texts(a) + custom_texts(b));
    }
}

proof fn lemma_trailing_part_append(a: Seq<HelpInfo>, b: Seq<HelpInfo>)
    ensures
        trailing_part(a + b) == trailing_part(a) + trailing_part(b),
    decreases a.len(),
{
    if a.len() == 0 {
        assert(a + b =~= b);
        assert(trailing_part(a + b) =~= trailing_part(a) + trailing_part(b));
    } else {
        assert((a + b)[0] == a[0]);
        assert((a + b).skip(1) =~= a.skip(1) + b);
        lemma_trailing_part_append(a.skip(1), b);
        assert(trailing_part(a + b) =~= trailing_part(a) + trailing_part(b));
    }
}

/// Section insertion order is preserved in output order within each variant
/// group: splitting the section list anywhere splits each rendered region —
/// the `Error` region, the `Custom` region, and the trailing region — into
/// the render of the earlier part followed by the render of the later part.
pub proof fn lemma_insertion_order_preserved(sep: Seq<char>, a: Seq<HelpInfo>, b: Seq<HelpInfo>)
    ensures
        sep_blocks(sep, error_texts(a + b)) == sep_blocks(sep, error_texts(a)) + sep_blocks(
            sep,
            error_texts(b),
        ),
        sep_blocks(sep, custom_texts(a + b)) == sep_blocks(sep, custom_texts(a)) + sep_blocks(
            sep,
            custom_texts(b),
        ),
        trailing_part(a + b) == trailing_part(a) + trailing_part(b),
{
    lemma_error_texts_append(a, b);
    lemma_custom_texts_append(a, b);
    lemma_trailing_part_append(a, b);
    lemma_sep_blocks_append(sep, error_texts(a), error_texts(b));
    lemma_sep_blocks_append(sep, custom_texts(a), custom_texts(b));
}

proof fn lemma_error_texts_insert_custom(secs: Seq<HelpInfo>, i: int, c: String)
    requires
        0 <= i <= secs.len(),
    ensures
        error_texts(secs.insert(i, HelpInfo::Custom(c))) == error_texts(secs),
    decreases i,
{
    let s2 = secs.insert(i, HelpInfo::Custom(c));
    if i == 0 {
        assert(s2[0] == HelpInfo::Custom(c));
        assert(s2.skip(1) =~= secs);
        assert(error_texts(s2) =~= error_texts(secs));
    } else {
        assert(s2[0] == secs[0]);
        assert(s2.skip(1) =~= secs.skip(1).insert(i - 1, HelpInfo::Custom(c)));
        lemma_error_texts_insert_custom(secs.skip(1), i - 1, c);
        assert(error_texts(s2) =~= error_texts(secs));
    }
}

proof fn lemma_trailing_insert_custom(secs: Seq<HelpInfo>, i: int, c: String)
    requires
        0 <= i <= secs.len(),
    ensures
        trailing_part(secs.insert(i, HelpInfo::Custom(c))) == trailing_part(secs),
    decreases i,
{
    let s2 = secs.insert(i, HelpInfo::Custom(c));
    if i == 0 {
        assert(s2[0] == HelpInfo::Custom(c));
        assert(s2.skip(1) =~= secs);
        assert(trailing_part(s2) =~= trailing_part(secs));
    } else {
        assert(s2[0] == secs[0]);
        assert(s2.skip(1) =~= secs.skip(1).insert(i - 1, HelpInfo::Custom(c)));
        lemma_trailing_insert_custom(secs.skip(1), i - 1, c);
        assert(trailing_part(s2) =~= trailing_part(secs));
    }
}

proof fn lemma_has_trailing_insert_custom(secs: Seq<HelpInfo>, i: int, c: String)
    requires
        0 <= i <= secs.len(),
    ensures
        has_trailing(secs.insert(i, HelpInfo::Custom(c))) == has_trailing(secs),
{
    let s2 = secs.insert(i, HelpInfo::Custom(c));
    if has_trailing(secs) {
        let j = choose|j: int| 0 <= j < secs.len() && is_trailing(secs[j]);
        if j < i {
            assert(s2[j] == secs[j]);
            assert(is_trailing(s2[j]));
        } else {
            assert(s2[j + 1] == secs[j]);
            assert(is_trailing(s2[j + 1]));
        }
        assert(has_trailing(s2));
    }
    if has_trailing(s2) {
        let j = choose|j: int| 0 <= j < s2.len() && is_trailing(s2[j]);
        if j < i {
            assert(secs[j] == s2[j]);
            assert(is_trailing(secs[j]));
        } else if j == i {
            assert(s2[j] == HelpInfo::Custom(c));
            assert(false);
        } else {
            assert(secs[j - 1] == s2[j]);
            assert(is_trailing(secs[j - 1]));
        }
        assert(has_trailing(secs));
    }
}

proof fn lemma_custom_region_insert_empty(sep: Seq<char>, secs: Seq<HelpInfo>, i: int, c: String)
    requires
        0 <= i <= secs.len(),
        c@.len() == 0,
    ensures
        sep_blocks(sep, custom_texts(secs.insert(i, HelpInfo::Custom(c)))) == sep_blocks(
            sep,
            custom_texts(secs),
        ),
    decreases i,
{
    let s2 = secs.insert(i, HelpInfo::Custom(c));
    if i == 0 {
        assert(s2[0] == HelpInfo::Custom(c));
        assert(s2.skip(1) =~= secs);
        let ct = custom_texts(s2);
        assert(ct[0] == c@);
        assert(ct.skip(1) =~= custom_texts(secs));
        assert(sep_blocks(sep, ct) =~= sep_blocks(sep, custom_texts(secs)));
    } else {
        assert(s2[0] == secs[0]);
        assert(s2.skip(1) =~= secs.skip(1).insert(i - 1, HelpInfo::Custom(c)));
        lemma_custom_region_insert_empty(sep, secs.skip(1), i - 1, c);
        if secs[0] is Custom {
            let ct2 = custom_texts(s2);
            let ct1 = custom_texts(secs);
            assert(ct2[0] == help_text(secs[0]));
            assert(ct2.skip(1) =~= custom_texts(s2.skip(1)));
            assert(ct1[0] == help_text(secs[0]));
            assert(ct1.skip(1) =~= custom_texts(secs.skip(1)));
            assert(sep_blocks(sep, ct2) =~= sep_blocks(sep, ct1));
        } else {
            assert(custom_texts(s2) =~= custom_texts(s2.skip(1)));
            assert(custom_texts(secs) =~= custom_texts(secs.skip(1)));
        }
    }
}

/// A `Custom` section with an empty body is invisible: inserting one
/// anywhere in the section list — its header already suppressed by the
/// conditional header writer, so its rendered text is empty — leaves the
/// rendered report exactly unchanged.
pub proof fn lemma_empty_custom_section_invisible(
    causes: Seq<Cause>,
    h: Handler,
    h2: Handler,
    i: int,
    c: String,
)
    requires
        c@.len() == 0,
        0 <= i <= h.sections@.len(),
        h2.sections@ == h.sections@.insert(i, HelpInfo::Custom(c)),
        h2.span_trace == h.span_trace,
        h2.backtrace == h.backtrace,
    ensures
        report_text(causes, h2) == report_text(causes, h),
{
    lemma_error_texts_insert_custom(h.sections@, i, c);
    lemma_custom_region_insert_empty("\n\n"@, h.sections@, i, c);
    lemma_trailing_insert_custom(h.sections@, i, c);
    lemma_has_trailing_insert_custom(h.sections@, i, c);
    assert(trace_region(causes, h2) == trace_region(causes, h));
    assert(back_region(h2) == back_region(h));
}

/// The deepest logical trace carried by the chain: the innermost cause that
/// carries one wins, so a trace is never both numbered and traced.
pub fn get_deepest_spantrace(causes: &Vec<Cause>) -> (r: Option<String>)
    ensures
        match r {
            Some(t) => deepest_trace(causes@) == Some(t@),
            None => deepest_trace(causes@) is None,
        },
{
    let mut i: usize = causes.len();
    proof {
        assert(causes@.take(causes@.len() as int) =~= causes@);
    }
    while i > 0
        invariant
            0 <= i <= causes@.len(),
            deepest_trace(causes@) == deepest_trace(causes@.take(i as int)),
        decreases i,
    {
        i = i - 1;
        proof {
            assert(causes@.take(i + 1).last() == causes@[i as int]);
            assert(causes@.take(i + 1).drop_last() =~= causes@.take(i as int));
        }
        match &causes[i].span_trace {
            Some(t) => {
                return Some(t.clone());
            },
            None => {},
        }
    }
    proof {
        assert(causes@.take(0) =~= Seq::<Cause>::empty());
    }
    None
}

/// Append the numbered cause chain to `out`, numbering the visible causes
/// from 0 on.
fn append_chain(out: &mut String, causes: &Vec<Cause>)
    ensures
        final(out)@ == old(out)@ + chain_part(causes@),
{
    let mut i: usize = 0;
    let mut k: u64 = 0;
    proof {
        assert(causes@.skip(0) =~= causes@);
    }
    while i < causes.len()
        invariant
            0 <= i <= causes@.len(),
            k <= i,
            out@ + chain_from(causes@.skip(i as int), k as nat) == old(out)@ + chain_part(causes@),
        decreases causes@.len() - i,
    {
        let ghost pre = out@;
        proof {
            assert(causes@.skip(i as int)[0] == causes@[i as int]);
            assert(causes@.skip(i as int).skip(1) =~= causes@.skip(i + 1));
        }
        match &causes[i].span_trace {
            Some(_) => {
                proof {
                    assert(chain_from(causes@.skip(i as int), k as nat) == chain_from(
                        causes@.skip(i + 1),
                        k as nat,
                    ));
                }
            },
            None => {
                out.push('\n');
                append_numbered(out, k, causes[i].message.as_str());
                proof {
                    assert(out@ + chain_from(causes@.skip(i + 1), (k + 1) as nat) =~= pre
                        + chain_from(causes@.skip(i as int), k as nat));
                }
                k = k + 1;
            },
        }
        i = i + 1;
    }
    proof {
        assert(causes@.skip(causes@.len() as int) =~= Seq::<Cause>::empty());
    }
}

/// Write the `Error` sections through the shared separator writer, in
/// insertion order.
fn write_error_sections(w: &mut HeaderWriter, secs: &Vec<HelpInfo>)
    ensures
        final(w).header == old(w).header,
        final(w).out@ == old(w).out@ + sep_blocks(old(w).header@, error_texts(secs@)),
{
    let mut i: usize = 0;
    proof {
        assert(secs@.skip(0) =~= secs@);
    }
    while i < secs.len()
        invariant
            0 <= i <= secs@.len(),
            w.header == old(w).header,
            w.out@ + sep_blocks(w.header@, error_texts(secs@.skip(i as int))) == old(w).out@
                + sep_blocks(w.header@, error_texts(secs@)),
        decreases secs@.len() - i,
    {
        let ghost pre = w.out@;
        proof {
            assert(secs@.skip(i as int)[0] == secs@[i as int]);
            assert(secs@.skip(i as int).skip(1) =~= secs@.skip(i + 1));
        }
        let sec = &secs[i];
        match sec {
            HelpInfo::Error(_) => {
                let t = sec.render();
                proof {
                    let texts = error_texts(secs@.skip(i as int));
                    assert(texts[0] == help_text(secs@[i as int]));
                    assert(texts.skip(1) =~= error_texts(secs@.skip(i + 1)));
                }
                w.ready();
                w.write(t.as_str());
                proof {
                    assert(w.out@ + sep_blocks(w.header@, error_texts(secs@.skip(i + 1))) =~= pre
                        + sep_blocks(w.header@, error_texts(secs@.skip(i as int))));
                }
            },
            _ => {
                proof {
                    assert(error_texts(secs@.skip(i as int)) =~= error_texts(secs@.skip(i + 1)));
                }
            },
        }
        i = i + 1;
    }
    proof {
        assert(secs@.skip(secs@.len() as int) =~= Seq::<HelpInfo>::empty());
    }
}

/// Write the `Custom` sections through the shared separator writer, in
/// insertion order.
fn write_custom_sections(w: &mut HeaderWriter, secs: &Vec<HelpInfo>)
    ensures
        final(w).header == old(w).header,
        final(w).out@ == old(w).out@ + sep_blocks(old(w).header@, custom_texts(secs@)),
{
    let mut i: usize = 0;
    proof {
        assert(secs@.skip(0) =~= secs@);
    }
    while i < secs.len()
        invariant
            0 <= i <= secs@.len(),
            w.header == old(w).header,
            w.out@ + sep_blocks(w.header@, custom_texts(secs@.skip(i as int))) == old(w).out@
                + sep_blocks(w.header@, custom_texts(secs@)),
        decreases secs@.len() - i,
    {
        let ghost pre = w.out@;
        proof {
            assert(secs@.skip(i as int)[0] == secs@[i as int]);
            assert(secs@.skip(i as int).skip(1) =~= secs@.skip(i + 1));
        }
        let sec = &secs[i];
        match sec {
            HelpInfo::Custom(_) => {
                let t = sec.render();
                proof {
                    let texts = custom_texts(secs@.skip(i as int));
                    assert(texts[0] == help_text(secs@[i as int]));
                    assert(texts.skip(1) =~= custom_texts(secs@.skip(i + 1)));
                }
                w.ready();
                w.write(t.as_str());
                proof {
                    assert(w.out@ + sep_blocks(w.header@, custom_texts(secs@.skip(i + 1))) =~= pre
                        + sep_blocks(w.header@, custom_texts(secs@.skip(i as int))));
                }
            },
            _ => {
                proof {
                    assert(custom_texts(secs@.skip(i as int)) =~= custom_texts(secs@.skip(i + 1)));
                }
            },
        }
        i = i + 1;
    }
    proof {
        assert(secs@.skip(secs@.len() as int) =~= Seq::<HelpInfo>::empty());
    }
}

/// Whether any trailing-group section was attached.
fn has_trailing_sections(secs: &Vec<HelpInfo>) -> (b: bool)
    ensures
        b == has_trailing(secs@),
{
    let mut i: usize = 0;
    while i < secs.len()
        invariant
            0 <= i <= secs@.len(),
            forall|j: int| 0 <= j < i ==> !is_trailing(secs@[j]),
        decreases secs@.len() - i,
    {
        if secs[i].in_trailing_group() {
            proof {
                assert(0 <= i < secs@.len() && is_trailing(secs@[i as int]));
            }
            return true;
        }
        i = i + 1;
    }
    proof {
        assert(!has_trailing(secs@));
    }
    false
}

/// Append the trailing region — notes, warnings and suggestions — to `out`.
fn append_trailing(out: &mut String, secs: &Vec<HelpInfo>)
    ensures
        final(out)@ == old(out)@ + trailing_part(secs@),
{
    let mut i: usize = 0;
    proof {
        assert(secs@.skip(0) =~= secs@);
    }
    while i < secs.len()
        invariant
            0 <= i <= secs@.len(),
            out@ + trailing_part(secs@.skip(i as int)) == old(out)@ + trailing_part(secs@),
        decreases secs@.len() - i,
    {
        let ghost pre = out@;
        proof {
            assert(secs@.skip(i as int)[0] == secs@[i as int]);
            assert(secs@.skip(i as int).skip(1) =~= secs@.skip(i + 1));
        }
        let sec = &secs[i];
        if sec.in_trailing_group() {
            if !sec.body_is_empty() {
                out.push('\n');
                let t = sec.render();
                out.append(t.as_str());
            }
        }
        proof {
            assert(out@ + trailing_part(secs@.skip(i + 1)) =~= pre + trailing_part(
                secs@.skip(i as int),
            ));
        }
        i = i + 1;
    }
    proof {
        assert(secs@.skip(secs@.len() as int) =~= Seq::<HelpInfo>::empty());
    }
}

impl Handler {
    /// Render the full report for the given cause chain: the numbered chain,
    /// the `Error` and `Custom` sections a blank line apart each, the
    /// logical-trace and backtrace blocks, and the trailing sections.
    pub fn debug(&self, causes: &Vec<Cause>) -> (out: String)
        ensures
            out@ == report_text(causes@, *self),
    {
        let mut out = String::new();
        append_chain(&mut out, causes);
        proof {
            assert(out@ =~= chain_part(causes@));
        }
        let mut sep = HeaderWriter::new(out, String::from_str("\n\n"));
        write_error_sections(&mut sep, &self.sections);
        write_custom_sections(&mut sep, &self.sections);
        let ghost before_trace = sep.out@;
        let trace = match &self.span_trace {
            Some(t) => Some(t.clone()),
            None => get_deepest_spantrace(causes),
        };
        proof {
            assert(match trace {
                Some(t) => effective_trace(causes@, *self) == Some(t@),
                None => effective_trace(causes@, *self) is None,
            });
        }
        match &trace {
            Some(t) => {
                sep.ready();
                sep.write(t.as_str());
            },
            None => {},
        }
        proof {
            assert(sep.out@ =~= before_trace + trace_region(causes@, *self));
        }
        let ghost before_back = sep.out@;
        match &self.backtrace {
            Some(bt) => {
                let ind = indent_uniform("  ", bt.as_str());
                sep.ready();
                sep.write(ind.as_str());
            },
            None => {},
        }
        let mut out = sep.into_inner();
        match &self.backtrace {
            Some(_) => {},
            None => {
                if has_trailing_sections(&self.sections) {
                    out.push('\n');
                }
            },
        }
        proof {
            assert(out@ =~= before_back + back_region(*self));
        }
        append_trailing(&mut out, &self.sections);
        proof {
            assert(out@ =~= report_text(causes@, *self));
        }
        out
    }
}

} // verus!
