use std::str::FromStr;

use proc_macro2::{Delimiter as PmDelimiter, TokenStream, TokenTree};
use surqx::pass::reconstruct;
use surqx::token::{Delimiter, Pos, Spacing, Token};
use surqx::{expand, sql};

fn pos(lc: proc_macro2::LineColumn) -> Pos {
    Pos { line: lc.line, column: lc.column }
}

fn convert(input: TokenStream) -> Vec<Token> {
    let mut out = Vec::new();
    for tree in input {
        out.push(match tree {
            TokenTree::Group(g) => Token::Group {
                delimiter: match g.delimiter() {
                    PmDelimiter::Parenthesis => Delimiter::Parenthesis,
                    PmDelimiter::Brace => Delimiter::Brace,
                    PmDelimiter::Bracket => Delimiter::Bracket,
                    PmDelimiter::None => Delimiter::Implicit,
                },
                open: pos(g.span_open().start()),
                close: pos(g.span_close().start()),
                stream: convert(g.stream()),
            },
            TokenTree::Punct(p) => Token::Punct {
                ch: p.as_char(),
                spacing: if p.spacing() == proc_macro2::Spacing::Joint {
                    Spacing::Joint
                } else {
                    Spacing::Alone
                },
                pos: pos(p.span().start()),
            },
            TokenTree::Ident(i) => Token::Ident {
                text: i.to_string(),
                start: pos(i.span().start()),
                end: pos(i.span().end()),
            },
            TokenTree::Literal(l) => Token::Literal {
                text: l.to_string(),
                start: pos(l.span().start()),
                end: pos(l.span().end()),
            },
        });
    }
    out
}

fn lex(src: &str) -> Vec<Token> {
    convert(TokenStream::from_str(src).unwrap())
}

fn rebuild(src: &str) -> String {
    reconstruct(&lex(src), true).unwrap().text
}

#[test]
fn rebuilding_twice_gives_the_same_text() {
    for src in [
        "SELECT name, age FROM person WHERE age > 18 AND name != \"John\";",
        "SELECT *\n      FROM person\n        WHERE (age >= 18);",
        "RETURN math::max([1, 2, 3]);",
    ] {
        let once = rebuild(src);
        let twice = rebuild(&once);
        assert_eq!(once, twice);
    }
}

#[test]
fn lexed_text_keeps_its_layout() {
    assert_eq!(rebuild("SELECT *\n      FROM person\n        WHERE (age >= 18);"),
        "SELECT *\nFROM person\n  WHERE (age >= 18);");
    assert_eq!(rebuild("RETURN 5 ## 2;"), "RETURN 5 // 2;");
}

#[test]
fn test_query() {
    let e = sql(&lex("
            CREATE person SET name = &name;
            SELECT * FROM person;
        ")).unwrap();
    assert!(e.query.starts_with("CREATE person SET name = $name_"));
    assert!(e.query.ends_with(";\nSELECT * FROM person;"));
    assert_eq!(e.captures.len(), 1);
    assert_eq!(e.captures[0].ident, "name");
}

#[test]
fn test_specific_query() {
    let e = sql(&lex("
            SELECT id, search::highlight(\"<b>\", \"</b>\", 1) AS title
            FROM book WHERE title @1@ \"rust web\";
        ")).unwrap();
    assert_eq!(
        e.query,
        "SELECT id, search::highlight(\"<b>\", \"</b>\", 1) AS title\nFROM book WHERE title @1@ \"rust web\";"
    );
    assert!(e.captures.is_empty());
}

#[test]
fn test_transaction_query() {
    let e = expand(&lex("
            BEGIN TRANSACTION;
            FOR $person IN &persons {
                CREATE type::thing(\"person\", $person.name) CONTENT {
                    name: $person.name,
                    age: $person.age,
                };
            };
            COMMIT TRANSACTION;
            SELECT * FROM person;
        "), true).unwrap();
    assert!(e.query.starts_with("BEGIN TRANSACTION;\nFOR $person IN $persons_"));
    assert!(e.query.ends_with("COMMIT TRANSACTION;\nSELECT * FROM person;"));
    assert_eq!(e.captures.len(), 1);
    assert_eq!(e.captures[0].ident, "persons");
}
