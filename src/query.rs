use vstd::prelude::*;
use crate::pass::{amp_count, Reconstruction, reconstruct, reconstruct_outcome, span_end, span_start, first_pos, last_pos};
use crate::reconstruct::{Capture, ErrorKind, Fault, captures_view};
use crate::token::{Pos, Token};
use crate::registry::{sorted_by_name, sorted_captures};
use crate::vars::error_message;
use surrealdb_core::err::Error as DbError;

verus! {

/// Whether the SurrealQL parser accepts `text` as a query.
pub uninterp spec fn parses(text: Seq<char>) -> bool;

/// Relies on surrealdb_core::sql::parse: whether the text parses as a
/// SurrealQL query depends on the text alone.
#[verifier::external_body]
fn parse_query(text: &str) -> (r: Result<(), DbError>)
    ensures
        r is Ok == parses(text@),
{
    match surrealdb_core::sql::parse(text) {
        Ok(_) => Ok(()),
        Err(e) => Err(e),
    }
}

/// A failed expansion: what went wrong, and the source span to report it at.
#[derive(Debug)]
pub struct Diagnostic {
    pub kind: ErrorKind,
    pub message: String,
    pub start: Pos,
    pub end: Pos,
}

/// The query text of a DSL block and its captured variables, ordered by
/// placeholder name.
#[derive(Debug)]
pub struct Expansion {
    pub query: String,
    pub captures: Vec<Capture>,
}

pub open spec fn fault_message(k: ErrorKind) -> Seq<char> {
    match k {
        ErrorKind::Indentation => "invalid indent"@,
        ErrorKind::MalformedCapture => "expected an identifier after `&`"@,
        ErrorKind::NameCollision => "no fresh variable name could be drawn"@,
        ErrorKind::Grammar => "invalid query"@,
    }
}

/// The diagnostic of a failed pass, anchored at the offending token.
pub fn fault_diagnostic(f: Fault) -> (d: Diagnostic)
    ensures
        d.kind == f.kind,
        d.message@ == fault_message(f.kind),
        d.start == f.at,
        d.end == f.at,
{
    let message = match f.kind {
        ErrorKind::Indentation => "invalid indent".to_owned(),
        ErrorKind::MalformedCapture => "expected an identifier after `&`".to_owned(),
        ErrorKind::NameCollision => "no fresh variable name could be drawn".to_owned(),
        ErrorKind::Grammar => "invalid query".to_owned(),
    };
    Diagnostic { kind: f.kind, message, start: f.at, end: f.at }
}

/// The diagnostic of rejected query text: the parser's message, a newline
/// and the text, anchored at the whole token span.
pub fn grammar_diagnostic(err: &str, text: &str, tokens: &Vec<Token>) -> (d: Diagnostic)
    ensures
        d.kind == ErrorKind::Grammar,
        d.message@ == err@ + seq!['\n'] + text@,
        d.start == span_start(*tokens),
        d.end == span_end(*tokens),
{
    let mut msg: Vec<char> = Vec::new();
    crate::reconstruct::push_str(&mut msg, err);
    msg.push('\n');
    crate::reconstruct::push_str(&mut msg, text);
    Diagnostic {
        kind: ErrorKind::Grammar,
        message: crate::reconstruct::string_from_chars(&msg),
        start: first_pos(tokens),
        end: last_pos(tokens),
    }
}

/// `r` is what validation makes of the pass result `rec`: a failed pass's
/// diagnostic; with `validate`, a grammar diagnostic for text that does not
/// parse; otherwise the text, with the same captures ordered by name.
pub open spec fn validated(
    tokens: Vec<Token>,
    rec: Result<Reconstruction, Fault>,
    validate: bool,
    r: Result<Expansion, Diagnostic>,
) -> bool {
    match rec {
        Err(f) => r matches Err(d) && d.kind == f.kind && d.message@ == fault_message(f.kind)
            && d.start == f.at && d.end == f.at,
        Ok(x) => if validate && !parses(x.text@) {
            r matches Err(d) && d.kind == ErrorKind::Grammar && d.start == span_start(tokens) && d.end
                == span_end(tokens) && exists|m: Seq<char>| d.message@ == m + seq!['\n'] + x.text@
        } else {
            r matches Ok(e) && e.query@ == x.text@ && captures_view(e.captures@).to_multiset()
                == captures_view(x.captures@).to_multiset() && sorted_by_name(captures_view(e.captures@))
        },
    }
}

/// Turns the result of a pass into an expansion, checking the text with the parser when `validate` holds.
pub fn check_query(tokens: &Vec<Token>, rec: Result<Reconstruction, Fault>, validate: bool) -> (r: Result<
    Expansion,
    Diagnostic,
>)
    ensures
        validated(*tokens, rec, validate, r),
{
    match rec {
        Err(f) => Err(fault_diagnostic(f)),
        Ok(x) => {
            if validate {
                if let Err(e) = parse_query(x.text.as_str()) {
                    let m = error_message(&e);
                    let d = grammar_diagnostic(m.as_str(), x.text.as_str(), tokens);
                    return Err(d);
                }
            }
            Ok(Expansion { query: x.text, captures: sorted_captures(x.captures) })
        },
    }
}

/// Expands a DSL block: rebuilds its text with variable capture, then, with
/// `validate`, checks the text with the SurrealQL parser.
pub fn expand(tokens: &Vec<Token>, validate: bool) -> (r: Result<Expansion, Diagnostic>)
    ensures
        exists|rec: Result<Reconstruction, Fault>|
            reconstruct_outcome(*tokens, true, rec) && #[trigger] validated(*tokens, rec, validate, r),
        amp_count(*tokens, 0) <= 1 ==> !(r matches Err(d) && d.kind == ErrorKind::NameCollision),
{
    let rec = reconstruct(tokens, true);
    let ghost g = rec;
    let r = check_query(tokens, rec, validate);
    assert(reconstruct_outcome(*tokens, true, g) && validated(*tokens, g, validate, r));
    r
}

/// Expands a DSL block as the `sql!` macro does: with variable capture and
/// the parser's check.
pub fn sql(tokens: &Vec<Token>) -> (r: Result<Expansion, Diagnostic>)
    ensures
        exists|rec: Result<Reconstruction, Fault>|
            reconstruct_outcome(*tokens, true, rec) && #[trigger] validated(*tokens, rec, true, r),
        amp_count(*tokens, 0) <= 1 ==> !(r matches Err(d) && d.kind == ErrorKind::NameCollision),
{
    expand(tokens, true)
}

} // verus!
