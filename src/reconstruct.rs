use vstd::prelude::*;
use vstd::string::StrSliceExecFns;
use crate::token::{Delimiter, Pos, Spacing, Token, close_text, open_text, start_of};

verus! {

/// Where the text written so far ends, and the indentation baseline of the
/// token sequence being written.
#[derive(Clone, Copy, Debug, PartialEq, Eq, Structural)]
pub struct Tracker {
    pub line: usize,
    pub column: usize,
    /// The column of the first token met on a new line of this sequence.
    pub first_indent: Option<usize>,
}

/// The kinds of failure of a pass.
#[derive(Clone, Copy, Debug, PartialEq, Eq, Structural)]
pub enum ErrorKind {
    /// A token stands left of the indentation baseline of its sequence.
    Indentation,
    /// A capture marker is not followed by an identifier.
    MalformedCapture,
    /// No fresh placeholder name could be drawn.
    NameCollision,
    /// The query parser rejected the text.
    Grammar,
}

/// A failed reconstruction, anchored at the position of the offending token.
#[derive(Clone, Copy, Debug, PartialEq, Eq, Structural)]
pub struct Fault {
    pub kind: ErrorKind,
    pub at: Pos,
}

/// A captured variable: the placeholder name and the host identifier.
#[derive(Clone, Debug)]
pub struct Capture {
    pub name: String,
    pub ident: String,
}

/// The state of one reconstruction pass.
pub struct Scan {
    pub text: Vec<char>,
    pub loc: Tracker,
    pub captures: Vec<Capture>,
}

/// The model of a pass's state.
pub struct ScanView {
    pub text: Seq<char>,
    pub loc: Tracker,
    /// Pairs of placeholder name and identifier, in the order of capture.
    pub captures: Seq<(Seq<char>, Seq<char>)>,
}

pub open spec fn capture_view(c: Capture) -> (Seq<char>, Seq<char>) {
    (c.name@, c.ident@)
}

pub open spec fn captures_view(cs: Seq<Capture>) -> Seq<(Seq<char>, Seq<char>)> {
    cs.map_values(|c: Capture| capture_view(c))
}

pub open spec fn strings_view(ss: Seq<String>) -> Seq<Seq<char>> {
    ss.map_values(|s: String| s@)
}

impl View for Scan {
    type V = ScanView;

    open spec fn view(&self) -> ScanView {
        ScanView { text: self.text@, loc: self.loc, captures: captures_view(self.captures@) }
    }
}

/// `n` copies of `c`.
pub open spec fn repeat(c: char, n: int) -> Seq<char> {
    Seq::new(n as nat, |_i: int| c)
}

/// `a + n`, held at the largest `usize`.
pub open spec fn sat_add(a: usize, n: int) -> usize {
    if a + n > usize::MAX {
        usize::MAX
    } else {
        (a + n) as usize
    }
}

pub open spec fn is_ascii_alpha(c: char) -> bool {
    ('a' <= c && c <= 'z') || ('A' <= c && c <= 'Z')
}

/// The state with `t` appended to the text and the column moved past it.
pub open spec fn advance(w: ScanView, t: Seq<char>) -> ScanView {
    ScanView {
        text: w.text + t,
        loc: Tracker {
            line: w.loc.line,
            column: sat_add(w.loc.column, t.len() as int),
            first_indent: w.loc.first_indent,
        },
        captures: w.captures,
    }
}

/// The state with the position moved to `p`, nothing written.
pub open spec fn move_to(w: ScanView, p: Pos) -> ScanView {
    ScanView {
        text: w.text,
        loc: Tracker { line: p.line, column: p.column, first_indent: w.loc.first_indent },
        captures: w.captures,
    }
}

/// The state with another indentation baseline.
pub open spec fn with_indent(w: ScanView, fi: Option<usize>) -> ScanView {
    ScanView {
        text: w.text,
        loc: Tracker { line: w.loc.line, column: w.loc.column, first_indent: fi },
        captures: w.captures,
    }
}

/// The whitespace written before a token that starts at `p`: newlines and
/// the indentation relative to the baseline when `p` is on a later line,
/// spaces up to its column when it is on the same line.
pub open spec fn spaced(w: ScanView, p: Pos) -> Result<ScanView, Fault> {
    if p.line > w.loc.line {
        let fi = match w.loc.first_indent {
            Some(f) => f,
            None => p.column,
        };
        if p.column < fi {
            Err(Fault { kind: ErrorKind::Indentation, at: p })
        } else {
            Ok(
                ScanView {
                    text: w.text + repeat('\n', p.line - w.loc.line) + repeat(
                        ' ',
                        p.column - fi,
                    ),
                    loc: Tracker { line: p.line, column: p.column, first_indent: Some(fi) },
                    captures: w.captures,
                },
            )
        }
    } else if p.line == w.loc.line && p.column > w.loc.column {
        Ok(
            ScanView {
                text: w.text + repeat(' ', p.column - w.loc.column),
                loc: Tracker { line: w.loc.line, column: p.column, first_indent: w.loc.first_indent },
                captures: w.captures,
            },
        )
    } else {
        Ok(w)
    }
}

/// The suffix for the `k`-th capture (empty once the suffixes run out).
pub open spec fn suffix_at(sfx: Seq<Seq<char>>, k: int) -> Seq<char> {
    if 0 <= k < sfx.len() {
        sfx[k]
    } else {
        Seq::empty()
    }
}

/// The placeholder name of the `k`-th capture of identifier `ident`.
pub open spec fn capture_name(ident: Seq<char>, sfx: Seq<Seq<char>>, k: int) -> Seq<char> {
    ident + seq!['_'] + suffix_at(sfx, k)
}

/// The text before a literal: a space between a letter and a string
/// literal is taken back, so that prefixed strings stay glued.
pub open spec fn glued(text: Seq<char>, lit: Seq<char>) -> Seq<char> {
    if lit.len() > 0 && lit[0] == '"' && text.len() >= 2 && text.last() == ' ' && is_ascii_alpha(
        text[text.len() - 2],
    ) {
        text.drop_last()
    } else {
        text
    }
}

/// The text written for a `#` joined to the punctuation `c`.
pub open spec fn hash_pair(c: char) -> Seq<char> {
    if c == '#' {
        seq!['/', '/']
    } else {
        seq!['#', c]
    }
}

/// Writes the tokens of `toks` from index `i` on, into the state `w`.
pub open spec fn run(
    toks: Vec<Token>,
    i: int,
    w: ScanView,
    sfx: Seq<Seq<char>>,
    capture: bool,
) -> Result<ScanView, Fault>
    decreases toks, toks.len() - i,
{
    if i < 0 || i >= toks.len() {
        Ok(w)
    } else {
        match spaced(w, start_of(toks[i])) {
            Err(e) => Err(e),
            Ok(w1) => match toks[i] {
                Token::Group { delimiter, close, stream, .. } => {
                    let w2 = with_indent(advance(w1, open_text(delimiter)), None);
                    match run(stream, 0, w2, sfx, capture) {
                        Err(e) => Err(e),
                        Ok(w3) => match spaced(with_indent(w3, w1.loc.first_indent), close) {
                            Err(e) => Err(e),
                            Ok(w4) => run(toks, i + 1, advance(w4, close_text(delimiter)), sfx, capture),
                        },
                    }
                },
                Token::Punct { ch, spacing, pos } => {
                    if capture && ch == '&' && spacing == Spacing::Alone {
                        if i + 1 < toks.len() {
                            match toks[i + 1] {
                                Token::Ident { text, .. } => {
                                    let name = capture_name(text@, sfx, w1.captures.len() as int);
                                    let w2 = advance(w1, seq!['$'] + name);
                                    run(
                                        toks,
                                        i + 2,
                                        ScanView {
                                            text: w2.text,
                                            loc: w2.loc,
                                            captures: w2.captures.push((name, text@)),
                                        },
                                        sfx,
                                        capture,
                                    )
                                },
                                _ => Err(Fault { kind: ErrorKind::MalformedCapture, at: pos }),
                            }
                        } else {
                            Err(Fault { kind: ErrorKind::MalformedCapture, at: pos })
                        }
                    } else if ch == '#' && spacing == Spacing::Joint && i + 1 < toks.len()
                        && toks[i + 1] is Punct {
                        run(toks, i + 2, advance(w1, hash_pair(toks[i + 1]->Punct_ch)), sfx, capture)
                    } else {
                        run(toks, i + 1, advance(w1, seq![ch]), sfx, capture)
                    }
                },
                Token::Ident { text, end, .. } => run(
                    toks,
                    i + 1,
                    ScanView {
                        text: w1.text + text@,
                        loc: Tracker { line: end.line, column: end.column, first_indent: w1.loc.first_indent },
                        captures: w1.captures,
                    },
                    sfx,
                    capture,
                ),
                Token::Literal { text, end, .. } => run(
                    toks,
                    i + 1,
                    ScanView {
                        text: glued(w1.text, text@) + text@,
                        loc: Tracker { line: end.line, column: end.column, first_indent: w1.loc.first_indent },
                        captures: w1.captures,
                    },
                    sfx,
                    capture,
                ),
            },
        }
    }
}

/// Writes a whole token sequence: the position first moves to its first
/// token, so that no whitespace comes before it.
pub open spec fn run_stream(
    toks: Vec<Token>,
    w: ScanView,
    sfx: Seq<Seq<char>>,
    capture: bool,
) -> Result<ScanView, Fault> {
    if toks.len() == 0 {
        Ok(w)
    } else {
        run(toks, 0, move_to(w, start_of(toks[0])), sfx, capture)
    }
}

/// Relies on `String: FromIterator<char>`: the string holds the characters in order.
#[verifier::external_body]
pub(crate) fn string_from_chars(v: &Vec<char>) -> (r: String)
    ensures
        r@ == v@,
{
    v.iter().collect::<String>()
}

fn add_sat(a: usize, n: usize) -> (r: usize)
    ensures
        r == sat_add(a, n as int),
{
    if a > usize::MAX - n {
        usize::MAX
    } else {
        a + n
    }
}

/// Appends `n` copies of `c`.
fn push_repeat(v: &mut Vec<char>, c: char, n: usize)
    ensures
        final(v)@ == old(v)@ + repeat(c, n as int),
{
    let mut k: usize = 0;
    while k < n
        invariant
            k <= n,
            v@ == old(v)@ + repeat(c, k as int),
        decreases n - k,
    {
        v.push(c);
        k = k + 1;
        assert(v@ =~= old(v)@ + repeat(c, k as int));
    }
}

/// Appends the characters of `s`.
pub(crate) fn push_str(v: &mut Vec<char>, s: &str)
    ensures
        final(v)@ == old(v)@ + s@,
{
    let n = s.unicode_len();
    let mut k: usize = 0;
    while k < n
        invariant
            k <= n,
            n == s@.len(),
            v@ == old(v)@ + s@.subrange(0, k as int),
        decreases n - k,
    {
        v.push(s.get_char(k));
        k = k + 1;
        assert(v@ =~= old(v)@ + s@.subrange(0, k as int));
    }
    assert(s@.subrange(0, n as int) =~= s@);
}

/// Appends the characters of `t`, moving the column past them.
fn write_chars(out: &mut Scan, t: &Vec<char>)
    ensures
        final(out)@ == advance(old(out)@, t@),
{
    let mut k: usize = 0;
    while k < t.len()
        invariant
            k <= t.len(),
            out.loc == old(out).loc,
            out.captures@ == old(out).captures@,
            out.text@ == old(out).text@ + t@.subrange(0, k as int),
        decreases t.len() - k,
    {
        out.text.push(t[k]);
        k = k + 1;
        assert(out.text@ =~= old(out).text@ + t@.subrange(0, k as int));
    }
    assert(t@.subrange(0, t.len() as int) =~= t@);
    out.loc.column = add_sat(out.loc.column, t.len());
}

/// Writes the whitespace before a token that starts at `p`.
fn add_whitespace(out: &mut Scan, p: Pos) -> (r: Result<(), Fault>)
    ensures
        match spaced(old(out)@, p) {
            Ok(w) => r is Ok && final(out)@ == w,
            Err(e) => r == Err::<(), Fault>(e),
        },
{
    if p.line > out.loc.line {
        let fi = match out.loc.first_indent {
            Some(f) => f,
            None => p.column,
        };
        if p.column < fi {
            return Err(Fault { kind: ErrorKind::Indentation, at: p });
        }
        push_repeat(&mut out.text, '\n', p.line - out.loc.line);
        push_repeat(&mut out.text, ' ', p.column - fi);
        out.loc = Tracker { line: p.line, column: p.column, first_indent: Some(fi) };
    } else if p.line == out.loc.line && p.column > out.loc.column {
        push_repeat(&mut out.text, ' ', p.column - out.loc.column);
        out.loc.column = p.column;
    }
    Ok(())
}

/// Writes a whole token sequence into `out`: the position first moves to
/// its first token. With `capture`, each `&` followed by an identifier
/// becomes a placeholder whose name takes the next suffix of `sfx`, and the
/// pair is added to the captures.
pub fn add_stream(out: &mut Scan, toks: &Vec<Token>, sfx: &Vec<String>, capture: bool) -> (r: Result<(), Fault>)
    ensures
        match run_stream(*toks, old(out)@, strings_view(sfx@), capture) {
            Ok(w) => r is Ok && final(out)@ == w,
            Err(e) => r == Err::<(), Fault>(e),
        },
{
    if toks.len() == 0 {
        return Ok(());
    }
    let first = toks[0].start();
    out.loc = Tracker { line: first.line, column: first.column, first_indent: out.loc.first_indent };
    add_tokens(out, toks, sfx, capture)
}

/// Writes the tokens of `toks` into `out`, from where `out` stands.
fn add_tokens(out: &mut Scan, toks: &Vec<Token>, sfx: &Vec<String>, capture: bool) -> (r: Result<(), Fault>)
    ensures
        match run(*toks, 0, old(out)@, strings_view(sfx@), capture) {
            Ok(w) => r is Ok && final(out)@ == w,
            Err(e) => r == Err::<(), Fault>(e),
        },
    decreases toks,
{
    let ghost sv = strings_view(sfx@);
    let mut i: usize = 0;
    while i < toks.len()
        invariant
            i <= toks.len(),
            sv == strings_view(sfx@),
            run(*toks, 0, old(out)@, sv, capture) == run(*toks, i as int, out@, sv, capture),
        decreases toks.len() - i,
    {
        let t = &toks[i];
        match add_whitespace(out, t.start()) {
            Err(e) => return Err(e),
            Ok(()) => {},
        }
        match t {
            Token::Group { delimiter, close, stream, .. } => {
                let outer = out.loc.first_indent;
                let open = match delimiter {
                    Delimiter::Parenthesis => vec!['('],
                    Delimiter::Brace => vec!['{'],
                    Delimiter::Bracket => vec!['['],
                    Delimiter::Implicit => Vec::new(),
                };
                assert(open@ =~= open_text(*delimiter));
                write_chars(out, &open);
                out.loc.first_indent = None;
                match add_tokens(out, stream, sfx, capture) {
                    Err(e) => return Err(e),
                    Ok(()) => {},
                }
                out.loc.first_indent = outer;
                match add_whitespace(out, *close) {
                    Err(e) => return Err(e),
                    Ok(()) => {},
                }
                let shut = match delimiter {
                    Delimiter::Parenthesis => vec![')'],
                    Delimiter::Brace => vec!['}'],
                    Delimiter::Bracket => vec![']'],
                    Delimiter::Implicit => Vec::new(),
                };
                assert(shut@ =~= close_text(*delimiter));
                write_chars(out, &shut);
                i = i + 1;
            },
            Token::Punct { ch, spacing, pos } => {
                if capture && *ch == '&' && *spacing == Spacing::Alone {
                    if i + 1 >= toks.len() {
                        return Err(Fault { kind: ErrorKind::MalformedCapture, at: *pos });
                    }
                    match &toks[i + 1] {
                        Token::Ident { text, .. } => {
                            let k = out.captures.len();
                            let mut name: Vec<char> = Vec::new();
                            push_str(&mut name, text.as_str());
                            name.push('_');
                            if k < sfx.len() {
                                push_str(&mut name, sfx[k].as_str());
                            }
                            proof {
                                assert(name@ =~= capture_name(text@, sv, k as int));
                            }
                            let name_text = string_from_chars(&name);
                            let mut placeholder: Vec<char> = vec!['$'];
                            push_str(&mut placeholder, name_text.as_str());
                            assert(placeholder@ =~= seq!['$'] + name@);
                            write_chars(out, &placeholder);
                            let ghost before = out.captures@;
                            out.captures.push(Capture { name: name_text, ident: text.clone() });
                            proof {
                                assert(captures_view(out.captures@) =~= captures_view(before).push((name@, text@)));
                            }
                            i = i + 2;
                                    },
                        _ => {
                            return Err(Fault { kind: ErrorKind::MalformedCapture, at: *pos });
                        },
                    }
                } else if *ch == '#' && *spacing == Spacing::Joint && i + 1 < toks.len()
                    && matches!(toks[i + 1], Token::Punct { .. }) {
                    let c2 = match &toks[i + 1] {
                        Token::Punct { ch, .. } => *ch,
                        _ => '#',
                    };
                    let pair = if c2 == '#' {
                        vec!['/', '/']
                    } else {
                        vec!['#', c2]
                    };
                    assert(pair@ =~= hash_pair(c2));
                    write_chars(out, &pair);
                    i = i + 2;
                    } else {
                    let one = vec![*ch];
                    assert(one@ =~= seq![*ch]);
                    write_chars(out, &one);
                    i = i + 1;
                    }
            },
            Token::Ident { text, end, .. } => {
                push_str(&mut out.text, text.as_str());
                out.loc = Tracker { line: end.line, column: end.column, first_indent: out.loc.first_indent };
                i = i + 1;
            },
            Token::Literal { text, end, .. } => {
                let ghost wl = out@;
                let n = out.text.len();
                if text.as_str().unicode_len() > 0 && text.as_str().get_char(0) == '"' && n >= 2
                    && out.text[n - 1] == ' ' && is_alpha(out.text[n - 2]) {
                    out.text.pop();
                    proof {
                        assert(out.text@ =~= wl.text.drop_last());
                    }
                }
                push_str(&mut out.text, text.as_str());
                out.loc = Tracker { line: end.line, column: end.column, first_indent: out.loc.first_indent };
                i = i + 1;
            },
        }
    }
    Ok(())
}

fn is_alpha(c: char) -> (r: bool)
    ensures
        r == is_ascii_alpha(c),
{
    ('a' <= c && c <= 'z') || ('A' <= c && c <= 'Z')
}

} // verus!
