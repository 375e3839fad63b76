//! Write-sink building blocks for the report renderer: a conditional header
//! writer that defers a header until the first byte of real content, and
//! indentation helpers that prefix every line of a body with a fixed or
//! numbered indent marker.

use vstd::prelude::*;

verus! {

/// Relies on `alloc::string::String::push`: appends the given character to the
/// end of the string.
pub assume_specification[ String::push ](s: &mut String, c: char)
    ensures
        final(s)@ == old(s)@.push(c),
;

/// The indentation state machine, started at the beginning of a line.
///
/// Walking the text one character at a time: at a line start, a character
/// other than a newline is preceded by the indent prefix; a newline is
/// emitted bare, so an empty line never carries a dangling prefix, and the
/// following character begins a new line.
pub open spec fn indent_from(prefix: Seq<char>, s: Seq<char>, at_line_start: bool) -> Seq<char>
    decreases s.len(),
{
    if s.len() == 0 {
        Seq::<char>::empty()
    } else {
        (if at_line_start && s[0] != '\n' {
            prefix
        } else {
            Seq::<char>::empty()
        }) + seq![s[0]] + indent_from(prefix, s.skip(1), s[0] == '\n')
    }
}

/// Every line of `s` prefixed with `prefix`; empty lines are left bare.
pub open spec fn indent_uniform_spec(prefix: Seq<char>, s: Seq<char>) -> Seq<char> {
    indent_from(prefix, s, true)
}

/// Indenting nothing emits nothing, and indenting anything emits something:
/// the indented text is empty exactly when the body is.
pub proof fn lemma_indent_empty(prefix: Seq<char>, s: Seq<char>, at_line_start: bool)
    ensures
        indent_from(prefix, s, at_line_start).len() == 0 <==> s.len() == 0,
{
    if s.len() > 0 {
        assert(indent_from(prefix, s, at_line_start).len() >= 1);
    }
}

/// Prefix every line of `s` with `prefix`, leaving empty lines bare.
pub fn indent_uniform(prefix: &str, s: &str) -> (out: String)
    ensures
        out@ == indent_uniform_spec(prefix@, s@),
{
    let mut out = String::new();
    let n = s.unicode_len();
    let mut i: usize = 0;
    let mut at_line_start: bool = true;
    proof {
        assert(s@.skip(0) =~= s@);
        assert(out@ + indent_from(prefix@, s@, true) =~= indent_from(prefix@, s@, true));
    }
    while i < n
        invariant
            n == s@.len(),
            0 <= i <= n,
            out@ + indent_from(prefix@, s@.skip(i as int), at_line_start) == indent_from(
                prefix@,
                s@,
                true,
            ),
        decreases n - i,
    {
        let c = s.get_char(i);
        proof {
            assert(s@.skip(i as int)[0] == s@[i as int]);
            assert(s@.skip(i as int).skip(1) =~= s@.skip(i + 1));
        }
        if at_line_start && c != '\n' {
            out.append(prefix);
        }
        out.push(c);
        at_line_start = c == '\n';
        i = i + 1;
    }
    proof {
        assert(s@.skip(n as int) =~= Seq::<char>::empty());
    }
    out
}

/// The lines of a text, split at newlines: a text with `k` newlines has
/// `k + 1` lines, and the newline characters belong to no line.
pub open spec fn lines_of(s: Seq<char>) -> Seq<Seq<char>>
    decreases s.len(),
{
    if s.len() == 0 {
        seq![Seq::<char>::empty()]
    } else if s[0] == '\n' {
        seq![Seq::<char>::empty()] + lines_of(s.skip(1))
    } else {
        seq![seq![s[0]] + lines_of(s.skip(1))[0]] + lines_of(s.skip(1)).skip(1)
    }
}

proof fn lemma_lines_nonempty(s: Seq<char>)
    ensures
        lines_of(s).len() >= 1,
    decreases s.len(),
{
    if s.len() > 0 {
        lemma_lines_nonempty(s.skip(1));
    }
}

proof fn lemma_lines_cons_newline(t: Seq<char>)
    ensures
        lines_of(seq!['\n'] + t) == seq![Seq::<char>::empty()] + lines_of(t),
{
    let s = seq!['\n'] + t;
    assert(s[0] == '\n');
    assert(s.skip(1) =~= t);
}

proof fn lemma_lines_prepend_no_newline(u: Seq<char>, t: Seq<char>)
    requires
        forall|i: int| 0 <= i < u.len() ==> u[i] != '\n',
    ensures
        lines_of(u + t) == seq![u + lines_of(t)[0]] + lines_of(t).skip(1),
    decreases u.len(),
{
    lemma_lines_nonempty(t);
    if u.len() == 0 {
        assert(u + t =~= t);
        assert(u + lines_of(t)[0] =~= lines_of(t)[0]);
        assert(seq![u + lines_of(t)[0]] + lines_of(t).skip(1) =~= lines_of(t));
    } else {
        let s = u + t;
        assert(s[0] == u[0]);
        assert(s[0] != '\n');
        assert(s.skip(1) =~= u.skip(1) + t);
        lemma_lines_prepend_no_newline(u.skip(1), t);
        let inner = lines_of(u.skip(1) + t);
        assert(inner[0] == u.skip(1) + lines_of(t)[0]);
        assert(inner.skip(1) =~= lines_of(t).skip(1));
        assert(seq![s[0]] + (u.skip(1) + lines_of(t)[0]) =~= u + lines_of(t)[0]);
        assert(lines_of(s) =~= seq![u + lines_of(t)[0]] + lines_of(t).skip(1));
    }
}

/// The per-line effect of the uniform indent: a nonempty line gains the
/// prefix, an empty line stays empty.
pub open spec fn prefixed_line(p: Seq<char>, l: Seq<char>) -> Seq<char> {
    if l.len() == 0 {
        l
    } else {
        p + l
    }
}

proof fn lemma_indent_from_lines(p: Seq<char>, s: Seq<char>)
    requires
        forall|i: int| 0 <= i < p.len() ==> p[i] != '\n',
    ensures
        lines_of(indent_from(p, s, true)) == lines_of(s).map_values(
            |l: Seq<char>| prefixed_line(p, l),
        ),
        lines_of(indent_from(p, s, false)) == seq![lines_of(s)[0]] + lines_of(s).skip(
            1,
        ).map_values(|l: Seq<char>| prefixed_line(p, l)),
    decreases s.len(),
{
    lemma_lines_nonempty(s);
    let f = |l: Seq<char>| prefixed_line(p, l);
    if s.len() == 0 {
        assert(indent_from(p, s, true) =~= Seq::<char>::empty());
        assert(lines_of(s) =~= seq![Seq::<char>::empty()]);
        assert(lines_of(s).map_values(f) =~= seq![Seq::<char>::empty()]);
        assert(lines_of(s).skip(1).map_values(f) =~= Seq::<Seq<char>>::empty());
        assert(seq![lines_of(s)[0]] + lines_of(s).skip(1).map_values(f) =~= seq![
            Seq::<char>::empty(),
        ]);
    } else if s[0] == '\n' {
        lemma_indent_from_lines(p, s.skip(1));
        let it = indent_from(p, s.skip(1), true);
        assert(indent_from(p, s, true) =~= seq!['\n'] + it);
        assert(indent_from(p, s, false) =~= seq!['\n'] + it);
        lemma_lines_cons_newline(it);
        lemma_lines_nonempty(s.skip(1));
        assert(lines_of(s) =~= seq![Seq::<char>::empty()] + lines_of(s.skip(1)));
        assert(lines_of(s).map_values(f) =~= seq![Seq::<char>::empty()] + lines_of(
            s.skip(1),
        ).map_values(f));
        assert(lines_of(seq!['\n'] + it) =~= seq![Seq::<char>::empty()] + lines_of(
            s.skip(1),
        ).map_values(f));
        assert(lines_of(s).skip(1) =~= lines_of(s.skip(1)));
        assert(lines_of(s).skip(1).map_values(f) =~= lines_of(s.skip(1)).map_values(f));
        assert(seq![lines_of(s)[0]] + lines_of(s).skip(1).map_values(f) =~= seq![
            Seq::<char>::empty(),
        ] + lines_of(s.skip(1)).map_values(f));
    } else {
        lemma_indent_from_lines(p, s.skip(1));
        let c = s[0];
        let it = indent_from(p, s.skip(1), false);
        let tail_lines = lines_of(s.skip(1));
        lemma_lines_nonempty(s.skip(1));
        let l0 = tail_lines[0];
        let m = tail_lines.skip(1).map_values(f);
        assert(lines_of(it) == seq![l0] + m);
        // the source lines: the head line grows by c, the tail is shared
        assert(lines_of(s) =~= seq![seq![c] + l0] + tail_lines.skip(1));
        // at a line start the prefix and the character are emitted together
        assert(indent_from(p, s, true) =~= (p + seq![c]) + it);
        assert(forall|i: int| 0 <= i < (p + seq![c]).len() ==> (p + seq![c])[i] != '\n');
        lemma_lines_prepend_no_newline(p + seq![c], it);
        assert(lines_of(it)[0] == l0);
        assert(lines_of(it).skip(1) =~= m);
        assert((p + seq![c]) + l0 =~= p + (seq![c] + l0));
        assert(lines_of(indent_from(p, s, true)) =~= seq![p + (seq![c] + l0)] + m);
        assert(lines_of(s).map_values(f) =~= seq![p + (seq![c] + l0)] + m) by {
            assert(lines_of(s)[0] == seq![c] + l0);
            assert((seq![c] + l0).len() > 0);
            assert(f(seq![c] + l0) == p + (seq![c] + l0));
            assert(lines_of(s).skip(1) =~= tail_lines.skip(1));
            assert(lines_of(s).skip(1).map_values(f) =~= m);
            assert(forall|j: int|
                0 <= j < lines_of(s).len() ==> lines_of(s).map_values(f)[j] == f(lines_of(s)[j]));
        }
        // away from a line start only the character itself is emitted
        assert(indent_from(p, s, false) =~= seq![c] + it);
        lemma_lines_prepend_no_newline(seq![c], it);
        assert(lines_of(indent_from(p, s, false)) =~= seq![seq![c] + l0] + m);
        assert(seq![lines_of(s)[0]] + lines_of(s).skip(1).map_values(f) =~= seq![seq![c] + l0] + m);
    }
}

/// The indentation-writer invariant: uniform indentation changes no line
/// structure — the indented text has exactly the lines of the body, each
/// nonempty line behind one copy of the prefix, each empty line left bare,
/// no line missing and none prefixed twice.
pub proof fn lemma_indent_preserves_lines(p: Seq<char>, s: Seq<char>)
    requires
        forall|i: int| 0 <= i < p.len() ==> p[i] != '\n',
    ensures
        lines_of(indent_uniform_spec(p, s)) == lines_of(s).map_values(
            |l: Seq<char>| prefixed_line(p, l),
        ),
        lines_of(indent_uniform_spec(p, s)).len() == lines_of(s).len(),
{
    lemma_indent_from_lines(p, s);
}

/// A decimal digit as a character.
pub open spec fn digit_char(d: nat) -> char {
    if d == 0 {
        '0'
    } else if d == 1 {
        '1'
    } else if d == 2 {
        '2'
    } else if d == 3 {
        '3'
    } else if d == 4 {
        '4'
    } else if d == 5 {
        '5'
    } else if d == 6 {
        '6'
    } else if d == 7 {
        '7'
    } else if d == 8 {
        '8'
    } else {
        '9'
    }
}

/// The decimal representation of `n`, most significant digit first.
pub open spec fn dec_str(n: nat) -> Seq<char>
    decreases n,
{
    if n < 10 {
        seq![digit_char(n)]
    } else {
        dec_str(n / 10).push(digit_char(n % 10))
    }
}

/// `k` spaces.
pub open spec fn spaces(k: nat) -> Seq<char>
    decreases k,
{
    if k == 0 {
        Seq::<char>::empty()
    } else {
        spaces((k - 1) as nat).push(' ')
    }
}

/// `s` padded with spaces on the left up to width `w`.
pub open spec fn pad_left(s: Seq<char>, w: nat) -> Seq<char> {
    if s.len() >= w {
        s
    } else {
        spaces((w - s.len()) as nat) + s
    }
}

fn digit_to_char(d: u64) -> (c: char)
    requires
        d < 10,
    ensures
        c == digit_char(d as nat),
{
    if d == 0 {
        '0'
    } else if d == 1 {
        '1'
    } else if d == 2 {
        '2'
    } else if d == 3 {
        '3'
    } else if d == 4 {
        '4'
    } else if d == 5 {
        '5'
    } else if d == 6 {
        '6'
    } else if d == 7 {
        '7'
    } else if d == 8 {
        '8'
    } else {
        '9'
    }
}

/// Append the decimal representation of `n` to `out`.
fn push_decimal(out: &mut String, n: u64)
    ensures
        final(out)@ == old(out)@ + dec_str(n as nat),
    decreases n,
{
    if n < 10 {
        out.push(digit_to_char(n));
        assert(final(out)@ =~= old(out)@ + dec_str(n as nat));
    } else {
        let q = n / 10;
        let r = n % 10;
        assert(q == (n as nat) / 10 && r == (n as nat) % 10 && q < n) by (nonlinear_arith)
            requires
                n >= 10,
                q == n / 10,
                r == n % 10,
        ;
        push_decimal(out, q);
        out.push(digit_to_char(r));
        assert(final(out)@ =~= old(out)@ + dec_str(n as nat));
    }
}

/// Append `k` spaces to `out`.
fn push_spaces(out: &mut String, k: usize)
    ensures
        final(out)@ == old(out)@ + spaces(k as nat),
{
    let mut j: usize = 0;
    while j < k
        invariant
            0 <= j <= k,
            out@ == old(out)@ + spaces(j as nat),
        decreases k - j,
    {
        out.push(' ');
        j = j + 1;
    }
}

/// The numbered indent marker that opens a chain entry: the index right
/// aligned in a four character column, then a colon and a space.
pub open spec fn num_header(n: nat) -> Seq<char> {
    pad_left(dec_str(n), 4) + ": "@
}

/// The continuation marker for later lines of a numbered entry: blank space
/// of the same width as the numbered marker.
pub open spec fn num_continuation() -> Seq<char> {
    spaces(6)
}

/// The numbered-indent state machine: the first line of the text is prefixed
/// with the numbered marker, later lines with the continuation marker, and
/// empty lines are left bare. `lineno` counts the newlines already passed.
pub open spec fn num_indent_from(
    n: nat,
    s: Seq<char>,
    at_line_start: bool,
    lineno: nat,
) -> Seq<char>
    decreases s.len(),
{
    if s.len() == 0 {
        Seq::<char>::empty()
    } else {
        (if at_line_start && s[0] != '\n' {
            if lineno == 0 {
                num_header(n)
            } else {
                num_continuation()
            }
        } else {
            Seq::<char>::empty()
        }) + seq![s[0]] + num_indent_from(
            n,
            s.skip(1),
            s[0] == '\n',
            if s[0] == '\n' {
                lineno + 1
            } else {
                lineno
            },
        )
    }
}

/// `s` rendered as chain entry number `n`: first line behind the numbered
/// marker, later lines behind the continuation marker.
pub open spec fn indent_numbered_spec(n: nat, s: Seq<char>) -> Seq<char> {
    num_indent_from(n, s, true, 0)
}

/// Append the numbered indent marker for index `n` to `out`.
fn push_num_header(out: &mut String, n: u64)
    ensures
        final(out)@ == old(out)@ + num_header(n as nat),
{
    let mut digits = String::new();
    push_decimal(&mut digits, n);
    let l = digits.as_str().unicode_len();
    if l < 4 {
        push_spaces(out, 4 - l);
    }
    out.append(digits.as_str());
    out.append(": ");
}

/// Append `s`, rendered as chain entry number `n`, to `out`.
pub fn append_numbered(out: &mut String, n: u64, s: &str)
    ensures
        final(out)@ == old(out)@ + indent_numbered_spec(n as nat, s@),
{
    let len = s.unicode_len();
    let mut i: usize = 0;
    let mut at_line_start: bool = true;
    let mut first_line: bool = true;
    proof {
        assert(s@.skip(0) =~= s@);
    }
    while i < len
        invariant
            len == s@.len(),
            0 <= i <= len,
            out@ + num_indent_from(
                n as nat,
                s@.skip(i as int),
                at_line_start,
                if first_line {
                    0
                } else {
                    1
                },
            ) == old(out)@ + indent_numbered_spec(n as nat, s@),
        decreases len - i,
    {
        let c = s.get_char(i);
        proof {
            assert(s@.skip(i as int)[0] == s@[i as int]);
            assert(s@.skip(i as int).skip(1) =~= s@.skip(i + 1));
            if !first_line {
                lemma_num_indent_lineno(n as nat, s@.skip(i + 1), c == '\n', 1, 2);
            }
        }
        if at_line_start && c != '\n' {
            if first_line {
                push_num_header(out, n);
            } else {
                push_spaces(out, 6);
            }
        }
        out.push(c);
        if c == '\n' {
            first_line = false;
        }
        at_line_start = c == '\n';
        i = i + 1;
    }
    proof {
        assert(s@.skip(len as int) =~= Seq::<char>::empty());
    }
}

/// Past the first line, the exact newline count no longer matters to the
/// numbered-indent state machine: any two positive counts render alike.
proof fn lemma_num_indent_lineno(n: nat, s: Seq<char>, at_line_start: bool, a: nat, b: nat)
    requires
        a > 0,
        b > 0,
    ensures
        num_indent_from(n, s, at_line_start, a) == num_indent_from(n, s, at_line_start, b),
    decreases s.len(),
{
    if s.len() > 0 {
        lemma_num_indent_lineno(
            n,
            s.skip(1),
            s[0] == '\n',
            if s[0] == '\n' {
                a + 1
            } else {
                a
            },
            if s[0] == '\n' {
                b + 1
            } else {
                b
            },
        );
    }
}

/// A header followed by its content, or nothing at all when the content is
/// empty: the output of one conditional-header session.
pub open spec fn cond_block(header: Seq<char>, content: Seq<char>) -> Seq<char> {
    if content.len() == 0 {
        Seq::<char>::empty()
    } else {
        header + content
    }
}

/// A write sink that defers a header until the first byte of real content.
///
/// The wrapped output only ever grows through [`HeaderWriter::write`]: the
/// first time a nonempty text is written after [`HeaderWriter::ready`], the
/// header goes out first; if nothing is ever written, neither header nor
/// content reaches the output. Once started, writes pass through untouched.
pub struct HeaderWriter {
    /// The wrapped output sink.
    pub out: String,
    /// The header text held back until real content arrives.
    pub header: String,
    /// Whether the header has already been emitted in this session.
    pub started: bool,
}

impl HeaderWriter {
    /// Wrap `out`, holding `header` back until something is written.
    pub fn new(out: String, header: String) -> (w: HeaderWriter)
        ensures
            w.out == out,
            w.header == header,
            !w.started,
    {
        HeaderWriter { out, header, started: false }
    }

    /// Arm the writer for a fresh session: the next nonempty write will be
    /// preceded by the header again.
    pub fn ready(&mut self)
        ensures
            final(self).out == old(self).out,
            final(self).header == old(self).header,
            !final(self).started,
    {
        self.started = false;
    }

    /// Write `s` through the sink. An armed writer emits the header before
    /// the first nonempty text; empty writes leave everything untouched.
    pub fn write(&mut self, s: &str)
        ensures
            final(self).header == old(self).header,
            final(self).started == (old(self).started || s@.len() > 0),
            final(self).out@ == old(self).out@ + (if !old(self).started && s@.len() > 0 {
                old(self).header@
            } else {
                Seq::<char>::empty()
            }) + s@,
    {
        if !self.started && !s.is_empty() {
            let h = self.header.clone();
            self.out.append(h.as_str());
            self.started = true;
        }
        self.out.append(s);
    }

    /// Unwrap the sink, surrendering the accumulated output.
    pub fn into_inner(self) -> (r: String)
        ensures
            r == self.out,
    {
        self.out
    }
}

} // verus!
