use vstd::prelude::*;
use crate::capture::{SUFFIX_LEN, draw_suffixes, fresh_suffixes};
use crate::reconstruct::{
    Capture, ErrorKind, Fault, Scan, ScanView, Tracker, add_stream, advance, capture_name,
    captures_view, move_to, run, run_stream, spaced, string_from_chars, strings_view, with_indent,
};
use crate::token::{Delimiter, Pos, Token, end_of, open_text, start_of};

verus! {

/// The text of a DSL block and the variables captured from it.
pub struct Reconstruction {
    pub text: String,
    /// In the order of capture.
    pub captures: Vec<Capture>,
}

/// The state at the start of a pass.
pub open spec fn initial_scan() -> ScanView {
    ScanView {
        text: Seq::empty(),
        loc: Tracker { line: 0, column: 0, first_indent: None },
        captures: Seq::empty(),
    }
}

/// `r` is what the pass over `toks` with suffixes `sfx` gives.
pub open spec fn reconstructs(
    toks: Vec<Token>,
    sfx: Seq<Seq<char>>,
    capture: bool,
    r: Result<Reconstruction, Fault>,
) -> bool {
    match run_stream(toks, initial_scan(), sfx, capture) {
        Ok(w) => r matches Ok(out) && out.text@ == w.text && captures_view(out.captures@)
            == w.captures,
        Err(e) => r == Err::<Reconstruction, Fault>(e),
    }
}

/// The number of `&` punctuation tokens in `toks` from index `i` on,
/// groups included: no pass captures more variables than that.
pub open spec fn amp_count(toks: Vec<Token>, i: int) -> nat
    decreases toks, toks.len() - i,
{
    if i < 0 || i >= toks.len() {
        0
    } else {
        let here: nat = match toks[i] {
            Token::Group { stream, .. } => amp_count(stream, 0),
            Token::Punct { ch, .. } => if ch == '&' {
                1
            } else {
                0
            },
            _ => 0,
        };
        here + amp_count(toks, i + 1)
    }
}

pub open spec fn capped(n: nat) -> usize {
    if n > usize::MAX {
        usize::MAX
    } else {
        n as usize
    }
}

/// Counts the `&` punctuation tokens, held at the largest `usize`.
pub fn count_amps(toks: &Vec<Token>) -> (r: usize)
    ensures
        r == capped(amp_count(*toks, 0)),
    decreases toks,
{
    let mut acc: usize = 0;
    let ghost mut part: nat = 0;
    let mut i: usize = 0;
    while i < toks.len()
        invariant
            i <= toks.len(),
            amp_count(*toks, 0) == part + amp_count(*toks, i as int),
            acc == capped(part),
        decreases toks.len() - i,
    {
        let here: usize = match &toks[i] {
            Token::Group { stream, .. } => count_amps(stream),
            Token::Punct { ch, .. } => if *ch == '&' {
                1
            } else {
                0
            },
            _ => 0,
        };
        let ghost h: nat = match toks[i as int] {
            Token::Group { stream, .. } => amp_count(stream, 0),
            Token::Punct { ch, .. } => if ch == '&' {
                1nat
            } else {
                0nat
            },
            _ => 0nat,
        };
        acc = if acc > usize::MAX - here {
            usize::MAX
        } else {
            acc + here
        };
        proof {
            part = part + h;
        }
        i = i + 1;
    }
    acc
}

/// The number of capture markers in `toks` from index `i` on, groups
/// included: a `&` standing alone before an identifier, when capturing. A
/// `#` joined to the next punctuation takes that one with it.
pub open spec fn markers(toks: Vec<Token>, i: int, capture: bool) -> nat
    decreases toks, toks.len() - i,
{
    if i < 0 || i >= toks.len() {
        0
    } else {
        match toks[i] {
            Token::Group { stream, .. } => markers(stream, 0, capture) + markers(toks, i + 1, capture),
            Token::Punct { ch, spacing, .. } => {
                if capture && ch == '&' && spacing == crate::token::Spacing::Alone && i + 1
                    < toks.len() && toks[i + 1] is Ident {
                    1 + markers(toks, i + 2, capture)
                } else if ch == '#' && spacing == crate::token::Spacing::Joint && i + 1 < toks.len()
                    && toks[i + 1] is Punct {
                    markers(toks, i + 2, capture)
                } else {
                    markers(toks, i + 1, capture)
                }
            },
            _ => markers(toks, i + 1, capture),
        }
    }
}

/// The captures of a state after `w`'s: `w`'s first, then each new one
/// named after its identifier and the suffix of its index.
pub open spec fn extends_captures(w: ScanView, w2: ScanView, sfx: Seq<Seq<char>>) -> bool {
    &&& w.captures.len() <= w2.captures.len()
    &&& w2.captures.subrange(0, w.captures.len() as int) == w.captures
    &&& forall|k: int|
        w.captures.len() <= k < w2.captures.len() ==> (#[trigger] w2.captures[k]).0 == capture_name(
            w2.captures[k].1,
            sfx,
            k,
        )
}

/// Captures that extend captures that extend `a`'s extend `a`'s.
proof fn lemma_extends_trans(a: ScanView, b: ScanView, c: ScanView, sfx: Seq<Seq<char>>)
    requires
        extends_captures(a, b, sfx),
        extends_captures(b, c, sfx),
    ensures
        extends_captures(a, c, sfx),
{
    assert(c.captures.subrange(0, a.captures.len() as int) =~= b.captures.subrange(
        0,
        a.captures.len() as int,
    ));
    assert forall|k: int| a.captures.len() <= k < c.captures.len() implies (
    #[trigger] c.captures[k]).0 == capture_name(c.captures[k].1, sfx, k) by {
        if k < b.captures.len() {
            assert(c.captures[k] == c.captures.subrange(0, b.captures.len() as int)[k]);
            assert(b.captures[k].0 == capture_name(b.captures[k].1, sfx, k));
        }
    }
}

proof fn lemma_extends_refl(a: ScanView, b: ScanView, sfx: Seq<Seq<char>>)
    requires
        a.captures == b.captures,
    ensures
        extends_captures(a, b, sfx),
{
    assert(b.captures.subrange(0, a.captures.len() as int) =~= a.captures);
}

/// A pass fails only on indentation or on a malformed capture; on success
/// it adds at most one capture per `&` token, each named after its
/// identifier and the suffix of its index.
pub proof fn lemma_run(toks: Vec<Token>, i: int, w: ScanView, sfx: Seq<Seq<char>>, capture: bool)
    requires
        0 <= i,
    ensures
        run(toks, i, w, sfx, capture) matches Err(e) ==> e.kind == ErrorKind::Indentation
            || e.kind == ErrorKind::MalformedCapture,
        run(toks, i, w, sfx, capture) matches Ok(w2) ==> extends_captures(w, w2, sfx)
            && w2.captures.len() <= w.captures.len() + amp_count(toks, i)
            && w2.captures.len() == w.captures.len() + markers(toks, i, capture),
    decreases toks, toks.len() - i,
{
    if i < toks.len() {
        if let Ok(w1) = spaced(w, start_of(toks[i])) {
            assert(w1.captures == w.captures);
            match toks[i] {
                Token::Group { delimiter, close, stream, .. } => {
                    let w2 = with_indent(advance(w1, crate::token::open_text(delimiter)), None);
                    lemma_run(stream, 0, w2, sfx, capture);
                    if let Ok(w3) = run(stream, 0, w2, sfx, capture) {
                        lemma_extends_refl(w, w2, sfx);
                        lemma_extends_trans(w, w2, w3, sfx);
                        assert(markers(toks, i, capture) == markers(stream, 0, capture) + markers(
                            toks,
                            i + 1,
                            capture,
                        ));
                        if let Ok(w4) = spaced(with_indent(w3, w1.loc.first_indent), close) {
                            let w5 = advance(w4, crate::token::close_text(delimiter));
                            lemma_extends_refl(w3, w5, sfx);
                            lemma_extends_trans(w, w3, w5, sfx);
                            lemma_run(toks, i + 1, w5, sfx, capture);
                            if let Ok(w6) = run(toks, i + 1, w5, sfx, capture) {
                                lemma_extends_trans(w, w5, w6, sfx);
                            }
                        }
                    }
                },
                Token::Punct { ch, spacing, pos } => {
                    if capture && ch == '&' && spacing == crate::token::Spacing::Alone {
                        if i + 1 < toks.len() {
                            if let Token::Ident { text, .. } = toks[i + 1] {
                                let name = capture_name(text@, sfx, w1.captures.len() as int);
                                let w2 = advance(w1, seq!['$'] + name);
                                let w3 = ScanView {
                                    text: w2.text,
                                    loc: w2.loc,
                                    captures: w2.captures.push((name, text@)),
                                };
                                lemma_run(toks, i + 2, w3, sfx, capture);
                                assert(amp_count(toks, i) == 1 + amp_count(toks, i + 1));
                                assert(amp_count(toks, i + 1) == amp_count(toks, i + 2));
                                assert(markers(toks, i, capture) == 1 + markers(toks, i + 2, capture));
                                if let Ok(w6) = run(toks, i + 2, w3, sfx, capture) {
                                    assert(extends_captures(w, w3, sfx)) by {
                                        assert(w3.captures.subrange(0, w.captures.len() as int) =~= w.captures);
                                    }
                                    lemma_extends_trans(w, w3, w6, sfx);
                                }
                            }
                        }
                    } else if ch == '#' && spacing == crate::token::Spacing::Joint && i + 1 < toks.len()
                        && toks[i + 1] is Punct {
                        let w3 = advance(w1, crate::reconstruct::hash_pair(toks[i + 1]->Punct_ch));
                        lemma_run(toks, i + 2, w3, sfx, capture);
                        assert(amp_count(toks, i + 1) >= amp_count(toks, i + 2));
                        assert(markers(toks, i, capture) == markers(toks, i + 2, capture));
                        lemma_extends_refl(w, w3, sfx);
                        if let Ok(w6) = run(toks, i + 2, w3, sfx, capture) {
                            lemma_extends_trans(w, w3, w6, sfx);
                        }
                    } else {
                        lemma_run(toks, i + 1, advance(w1, seq![ch]), sfx, capture);
                        assert(markers(toks, i, capture) == markers(toks, i + 1, capture));
                        lemma_extends_refl(w, advance(w1, seq![ch]), sfx);
                        if let Ok(w6) = run(toks, i + 1, advance(w1, seq![ch]), sfx, capture) {
                            lemma_extends_trans(w, advance(w1, seq![ch]), w6, sfx);
                        }
                    }
                },
                Token::Ident { text, end, .. } => {
                    let nx = ScanView {
                        text: w1.text + text@,
                        loc: Tracker { line: end.line, column: end.column, first_indent: w1.loc.first_indent },
                        captures: w1.captures,
                    };
                    lemma_run(toks, i + 1, nx, sfx, capture);
                    lemma_extends_refl(w, nx, sfx);
                    if let Ok(w6) = run(toks, i + 1, nx, sfx, capture) {
                        lemma_extends_trans(w, nx, w6, sfx);
                    }
                },
                Token::Literal { text, end, .. } => {
                    let nx = ScanView {
                        text: crate::reconstruct::glued(w1.text, text@) + text@,
                        loc: Tracker { line: end.line, column: end.column, first_indent: w1.loc.first_indent },
                        captures: w1.captures,
                    };
                    lemma_run(toks, i + 1, nx, sfx, capture);
                    lemma_extends_refl(w, nx, sfx);
                    if let Ok(w6) = run(toks, i + 1, nx, sfx, capture) {
                        lemma_extends_trans(w, nx, w6, sfx);
                    }
                },
            }
        }
    } else {
        assert(w.captures.subrange(0, w.captures.len() as int) =~= w.captures);
    }
}

/// Within one pass with distinct suffixes, enough for every `&` token, there
/// is one capture per capture marker, no two captured variables share a
/// placeholder name, and the `k`-th is named after its identifier and the
/// `k`-th suffix.
pub proof fn lemma_captures_unique(toks: Vec<Token>, sfx: Seq<Seq<char>>, capture: bool)
    requires
        fresh_suffixes(sfx),
        sfx.len() >= amp_count(toks, 0),
    ensures
        run_stream(toks, initial_scan(), sfx, capture) matches Ok(w) ==> {
            &&& w.captures.len() == markers(toks, 0, capture)
            &&& w.captures.len() <= amp_count(toks, 0)
            &&& forall|k: int|
                0 <= k < w.captures.len() ==> (#[trigger] w.captures[k]).0 == capture_name(
                    w.captures[k].1,
                    sfx,
                    k,
                )
            &&& forall|i: int, j: int|
                0 <= i < j < w.captures.len() ==> w.captures[i].0 != w.captures[j].0
        },
{
    if toks.len() > 0 {
        lemma_run(toks, 0, move_to(initial_scan(), start_of(toks[0])), sfx, capture);
    }
    if let Ok(w) = run_stream(toks, initial_scan(), sfx, capture) {
        assert forall|i: int, j: int| 0 <= i < j < w.captures.len() implies w.captures[i].0
            != w.captures[j].0 by {
            let (ni, ii) = w.captures[i];
            let (nj, ij) = w.captures[j];
            assert(ni == capture_name(ii, sfx, i));
            assert(nj == capture_name(ij, sfx, j));
            assert(sfx[i].len() == SUFFIX_LEN && sfx[j].len() == SUFFIX_LEN);
            if ni == nj {
                assert(ni.subrange(ni.len() - 8, ni.len() as int) =~= sfx[i]);
                assert(nj.subrange(nj.len() - 8, nj.len() as int) =~= sfx[j]);
            }
        }
    }
}

/// What the tokens inside a group give, the group opening at `open` with
/// delimiter `d` in state `w`.
pub open spec fn group_inner(
    d: Delimiter,
    open: Pos,
    stream: Vec<Token>,
    w: ScanView,
    sfx: Seq<Seq<char>>,
    capture: bool,
) -> Result<ScanView, Fault> {
    match spaced(w, open) {
        Err(e) => Err(e),
        Ok(w1) => run(stream, 0, with_indent(advance(w1, open_text(d)), None), sfx, capture),
    }
}

/// The tokens inside a group are laid out against a baseline of their own:
/// for a group that opens on the current line, whether they succeed, and
/// the text and captures they give, do not depend on the indentation
/// baseline in effect outside the group.
pub proof fn lemma_group_baseline(
    d: Delimiter,
    open: Pos,
    stream: Vec<Token>,
    w: ScanView,
    fi: Option<usize>,
    sfx: Seq<Seq<char>>,
    capture: bool,
)
    requires
        open.line <= w.loc.line,
    ensures
        group_inner(d, open, stream, w, sfx, capture) == group_inner(
            d,
            open,
            stream,
            with_indent(w, fi),
            sfx,
            capture,
        ),
{
    let v = with_indent(w, fi);
    let (w1, v1) = (spaced(w, open)->Ok_0, spaced(v, open)->Ok_0);
    assert(with_indent(advance(w1, open_text(d)), None) == with_indent(
        advance(v1, open_text(d)),
        None,
    ));
}

/// Writing a group token goes through what its inner tokens give: the
/// group fails where they fail, and succeeds only where they succeed.
pub proof fn lemma_group_step(toks: Vec<Token>, i: int, w: ScanView, sfx: Seq<Seq<char>>, capture: bool)
    requires
        0 <= i < toks.len(),
        toks[i] is Group,
    ensures
        group_inner(toks[i]->Group_delimiter, toks[i]->Group_open, toks[i]->Group_stream, w, sfx, capture)
            is Err ==> run(toks, i, w, sfx, capture) == group_inner(
            toks[i]->Group_delimiter,
            toks[i]->Group_open,
            toks[i]->Group_stream,
            w,
            sfx,
            capture,
        ),
        run(toks, i, w, sfx, capture) is Ok ==> group_inner(
            toks[i]->Group_delimiter,
            toks[i]->Group_open,
            toks[i]->Group_stream,
            w,
            sfx,
            capture,
        ) is Ok,
{
}

/// Rebuilds the text of `tokens`, the `k`-th captured variable taking the
/// `k`-th suffix of `suffixes`.
pub fn reconstruct_with(tokens: &Vec<Token>, suffixes: &Vec<String>, capture: bool) -> (r: Result<
    Reconstruction,
    Fault,
>)
    ensures
        reconstructs(*tokens, strings_view(suffixes@), capture, r),
{
    let mut scan = Scan {
        text: Vec::new(),
        loc: Tracker { line: 0, column: 0, first_indent: None },
        captures: Vec::new(),
    };
    assert(scan@ =~= initial_scan()) by {
        assert(captures_view(scan.captures@) =~= Seq::empty());
    }
    match add_stream(&mut scan, tokens, suffixes, capture) {
        Err(e) => Err(e),
        Ok(()) => {
            let text = string_from_chars(&scan.text);
            Ok(Reconstruction { text, captures: scan.captures })
        },
    }
}

/// Where a token sequence starts (the origin when it is empty).
pub open spec fn span_start(toks: Vec<Token>) -> Pos {
    if toks.len() == 0 {
        Pos { line: 0, column: 0 }
    } else {
        start_of(toks[0])
    }
}

/// Where a token sequence ends (the origin when it is empty).
pub open spec fn span_end(toks: Vec<Token>) -> Pos {
    if toks.len() == 0 {
        Pos { line: 0, column: 0 }
    } else {
        end_of(toks@.last())
    }
}

pub fn first_pos(toks: &Vec<Token>) -> (r: Pos)
    ensures
        r == span_start(*toks),
{
    if toks.len() == 0 {
        Pos { line: 0, column: 0 }
    } else {
        toks[0].start()
    }
}

pub fn last_pos(toks: &Vec<Token>) -> (r: Pos)
    ensures
        r == span_end(*toks),
{
    if toks.len() == 0 {
        Pos { line: 0, column: 0 }
    } else {
        toks[toks.len() - 1].end()
    }
}

/// The pass gave up drawing distinct suffixes.
pub open spec fn collided(r: Result<Reconstruction, Fault>) -> bool {
    r matches Err(f) && f.kind == ErrorKind::NameCollision
}

/// What a pass with freshly drawn suffixes may give: a collision at the
/// start of the tokens, or what the pass gives with some distinct usable
/// suffixes, one for each `&` token. Without capture, or with at most one
/// `&` token, no collision can happen.
pub open spec fn reconstruct_outcome(
    tokens: Vec<Token>,
    capture: bool,
    r: Result<Reconstruction, Fault>,
) -> bool {
    &&& collided(r) ==> r->Err_0.at == span_start(tokens)
    &&& (!capture || amp_count(tokens, 0) <= 1) ==> !collided(r)
    &&& !collided(r) ==> exists|sfx: Seq<Seq<char>>|
        #[trigger] fresh_suffixes(sfx) && sfx.len() == (if capture {
            capped(amp_count(tokens, 0))
        } else {
            0
        }) && reconstructs(tokens, sfx, capture, r)
}

/// Rebuilds the text of `tokens`. With `capture`, each variable gets a
/// placeholder name with a fresh random suffix, distinct from all others of
/// the pass; when no distinct suffix could be drawn the pass fails with
/// `NameCollision` at the start of the tokens.
pub fn reconstruct(tokens: &Vec<Token>, capture: bool) -> (r: Result<Reconstruction, Fault>)
    ensures
        reconstruct_outcome(*tokens, capture, r),
{
    let n = if capture {
        count_amps(tokens)
    } else {
        0
    };
    match draw_suffixes(n) {
        None => Err(Fault { kind: ErrorKind::NameCollision, at: first_pos(tokens) }),
        Some(sfx) => {
            let r = reconstruct_with(tokens, &sfx, capture);
            proof {
                if tokens.len() > 0 {
                    lemma_run(*tokens, 0, move_to(initial_scan(), start_of(tokens[0])), strings_view(sfx@), capture);
                }
                assert(fresh_suffixes(strings_view(sfx@)));
            }
            r
        },
    }
}

} // verus!
