use declarative::diag::Fault;
use declarative::model::{BindMode, Content, Expr, Item, Piece, Root, Roots};
use declarative::read::read_roots;
use declarative::token::{Delim, Tok};
use declarative::view::block;
use proc_macro2::{Delimiter, Spacing, TokenStream, TokenTree};
use std::str::FromStr;

/// The library's tokens of some source text, each with a span of its own.
fn tokens(src: &str) -> Vec<Tok> {
    fn push(stream: TokenStream, next: &mut u64, out: &mut Vec<Tok>) {
        for tree in stream {
            *next += 1;
            let span = *next;
            match tree {
                TokenTree::Group(g) => {
                    let delim = match g.delimiter() {
                        Delimiter::Parenthesis => Delim::Paren,
                        Delimiter::Brace => Delim::Brace,
                        Delimiter::Bracket => Delim::Bracket,
                        Delimiter::None => Delim::Invisible,
                    };
                    out.push(Tok::Open { delim, span });
                    push(g.stream(), next, out);
                    out.push(Tok::Close { delim, span });
                }
                TokenTree::Ident(i) => out.push(Tok::Ident { text: i.to_string(), span }),
                TokenTree::Punct(p) => {
                    out.push(Tok::Punct { ch: p.as_char(), joint: p.spacing() == Spacing::Joint, span })
                }
                TokenTree::Literal(l) => out.push(Tok::Lit { text: l.to_string(), span }),
            }
        }
    }
    let mut out = vec![];
    let mut next = 0;
    push(TokenStream::from_str(src).unwrap(), &mut next, &mut out);
    out
}

/// Splits each expression at its `_` tokens, as the macros' reader does
/// for a `_` in expression position.
fn split_expr(e: &mut Expr) {
    let mut pieces = vec![];
    for p in std::mem::take(&mut e.pieces) {
        match p {
            Piece::Toks(t) => {
                let mut cur = vec![];
                for k in t {
                    match k {
                        Tok::Ident { ref text, span } if text == "_" => {
                            if !cur.is_empty() {
                                pieces.push(Piece::Toks(std::mem::take(&mut cur)));
                            }
                            pieces.push(Piece::Infer { span });
                        }
                        other => cur.push(other),
                    }
                }
                if !cur.is_empty() {
                    pieces.push(Piece::Toks(cur));
                }
            }
            other => pieces.push(other),
        }
    }
    e.pieces = pieces;
}

fn split_body(body: &mut [Content]) {
    for c in body {
        split_content(c);
    }
}

fn split_item(item: &mut Item) {
    split_body(&mut item.body);
}

fn split_content(c: &mut Content) {
    match c {
        Content::Bind(b) => match &mut b.mode {
            BindMode::Unbraced(inner) => split_content(inner),
            BindMode::Braced { body, .. } => split_body(body),
        },
        Content::BindColon(b) => split_body(&mut b.body),
        Content::Construct(k) => {
            split_content(&mut k.penult);
            split_body(&mut k.rest);
        }
        Content::Consume(k) => split_expr(&mut k.expr),
        Content::Edit(e) => split_body(&mut e.body),
        Content::If(chain) => chain.branches.iter_mut().for_each(|b| split_body(&mut b.body)),
        Content::Match(m) => m.arms.iter_mut().for_each(|a| split_body(&mut a.body)),
        Content::Property(p) => {
            p.args.iter_mut().for_each(split_expr);
            p.items.iter_mut().for_each(split_item);
            if let Some(b) = &mut p.back {
                split_body(&mut b.body);
            }
        }
    }
}

fn read(src: &str) -> Roots {
    let mut counter = 0;
    let mut roots = read_roots(&tokens(src), &mut counter).unwrap();
    for r in &mut roots.roots {
        if let Root::Item(it) = r {
            split_item(it);
        }
    }
    roots
}

/// The text of tokens, spans left out; a joint punctuation is glued to
/// the next token.
fn text(ts: &[Tok]) -> String {
    let mut out = String::new();
    for t in ts {
        let (piece, glue) = match t {
            Tok::Ident { text, .. } | Tok::Lit { text, .. } => (text.clone(), false),
            Tok::Punct { ch, joint, .. } => (ch.to_string(), *joint),
            Tok::Open { delim, .. } => (
                match delim {
                    Delim::Paren => "(",
                    Delim::Brace => "{",
                    Delim::Bracket => "[",
                    Delim::Invisible => "",
                }
                .to_string(),
                false,
            ),
            Tok::Close { delim, .. } => (
                match delim {
                    Delim::Paren => ")",
                    Delim::Brace => "}",
                    Delim::Bracket => "]",
                    Delim::Invisible => "",
                }
                .to_string(),
                false,
            ),
            Tok::Fail { fault, .. } => (format!("<{fault:?}>"), false),
        };
        out.push_str(&piece);
        if !glue {
            out.push(' ');
        }
    }
    out.trim_end().to_string()
}

fn fault_of(src: &str) -> Fault {
    let mut counter = 0;
    read_roots(&tokens(src), &mut counter).err().unwrap().fault
}

#[test]
fn construct() {
    let roots = read(
        "Test default_1 { method; method; }!
        Test::default() default_2 { method; method; }

        Test::builder() end_1 { ~~build; }!
        Test end_2 { ~~build; method; }
        Test end_3 { building; ~~build; }

        Test::builder() auto_1 { ~building; }!
        Test auto_2 { ~building; method; }
        Test auto_3 { building; }

        Test struct_1 { field: None }?
        Test struct_2 { ~field: None }?
        Test struct_3 { ~field: None; method; }?
        Test struct_4 { ~~field: None }?
        Test struct_5 { ~~field: None; method; }?

        Test inter_1 { field: Some(_.into()) @ Test { } }?
        Test inter_2 { ~field: Some(_.into()) @ Test { } }?
        Test inter_3 { ~field: Some(_.into()) @ Test { } method; }?
        Test inter_4 { ~~field: Some(_.into()) @ Test { } }?
        Test inter_5 { ~~field: Some(_.into()) @ Test { } method; }?",
    );
    assert_eq!(roots.roots.len(), 18);
    let out = text(&block(&roots));
    assert!(!out.contains('<'), "{out}");
    let head: String = out.chars().take(700).collect();
    let expected = [
        "let default_1 = construct ! ( ? Test ) ;",
        "let default_2 = Test :: default ( ) ;",
        "let end_1 = construct ! ( ~ Test :: builder ( ) . build ( ) ) ;",
        "let end_2 = construct ! ( ~ Test => . build ( ) ) ;",
        "let end_3 = construct ! ( ~ Test => . building ( ) . build ( ) ) ;",
        "let auto_1 = construct ! ( Test :: builder ( ) . building ( ) ) ;",
        "let auto_2 = construct ! ( Test => . building ( ) ) ;",
        "let auto_3 = construct ! ( Test => . building ( ) ) ;",
        "let struct_1 = construct ! ( ? Test { field : None , } ) ;",
        "let struct_2 = construct ! ( ? Test { field : None , } ) ;",
        "let struct_3 = construct ! ( ? Test { field : None , } ) ;",
        "let struct_4 = construct ! ( ? ~ Test { field : None , } ) ;",
        "let struct_5 = construct ! ( ? ~ Test { field : None , } ) ;",
        "let test_0 = construct ! ( Test => ) ; let inter_1 = construct ! ( ? Test { field : Some ( test_0 . into ( ) ) , } ) ;",
        "let test_1 = construct ! ( Test => ) ; let inter_2 = construct ! ( ? Test { field : Some ( test_1 . into ( ) ) , } ) ;",
        "let test_2 = construct ! ( Test => ) ; let inter_3 = construct ! ( ? Test { field : Some ( test_2 . into ( ) ) , } ) ;",
        "let test_3 = construct ! ( Test => ) ; let inter_4 = construct ! ( ? ~ Test { field : Some ( test_3 . into ( ) ) , } ) ;",
        "let test_4 = construct ! ( Test => ) ; let inter_5 = construct ! ( ? ~ Test { field : Some ( test_4 . into ( ) ) , } ) ;",
    ];
    for line in expected {
        assert!(out.contains(line), "missing `{line}` in: {head}");
    }
    assert!(out.ends_with(
        "default_1 . method ( ) ; default_1 . method ( ) ; default_2 . method ( ) ; default_2 . method ( ) ; \
         end_2 . method ( ) ; auto_2 . method ( ) ; struct_3 . method ( ) ; struct_5 . method ( ) ; \
         inter_3 . method ( ) ; inter_5 . method ( ) ;"
    ));
}

#[test]
fn reads_a_property_with_arguments() {
    let roots = read("String::new() mut greeting { push_str: \"Hello world!\" }");
    let out = text(&block(&roots));
    assert_eq!(out, "let mut greeting = String :: new ( ) ; greeting . push_str ( \"Hello world!\" ) ;");
}

#[test]
fn closing_a_construction_early_is_written_either_way() {
    let a = text(&block(&read("Test x { ~> field: None; method; }?")));
    let b = text(&block(&read("Test x { ~/ field: None; method; }?")));
    assert_eq!(a, b);
}

#[test]
fn reader_reports_faults() {
    assert_eq!(fault_of("Test x { 'foo a: 1 }"), Fault::UnexpectedLifetime);
    assert_eq!(fault_of("Test x"), Fault::ExpectedBraces);
    assert_eq!(fault_of("Test x { 'consume y 1 }"), Fault::ExpectedEq);
    assert_eq!(fault_of("pub struct S;"), Fault::StructNeedsBraces);
    assert_eq!(fault_of("Test x { a: }"), Fault::ExpectedExpr);
}

#[test]
fn made_up_names_go_on_counting() {
    let t = tokens("Test { } Test { }");
    let mut counter = 7;
    let roots = read_roots(&t, &mut counter).unwrap();
    assert_eq!(counter, 9);
    let out = text(&block(&roots));
    assert_eq!(out, "let test_8 = construct ! ( Test => ) ; let test_7 = construct ! ( Test => ) ;");
}

#[test]
fn reads_names_joined_by_dots() {
    let t = tokens("a.b.c x");
    let (access, end) = declarative::read::read_access(&t, 0, t.len()).ok().unwrap();
    let names: Vec<&str> = access.names.iter().map(|n| n.text.as_str()).collect();
    assert_eq!(names, vec!["a", "b", "c"]);
    assert_eq!(access.dots, vec![2, 4]);
    assert_eq!(end, 5);
    let t = tokens("a.b. 1");
    let d = declarative::read::read_access(&t, 0, t.len()).err().unwrap();
    assert_eq!((d.fault, d.start), (Fault::ExpectedIdent, 5));
}

#[test]
fn attributes_end_before_the_content() {
    let t = tokens("#[a] #[b(c)] x: 1");
    assert_eq!(declarative::read::read_attrs(&t, 0, t.len()), Ok(11));
    let t = tokens("x: 1");
    assert_eq!(declarative::read::read_attrs(&t, 0, t.len()), Ok(0));
}

#[test]
fn unknown_lifetime_error_names_it() {
    let t = tokens("Test x { 'foo a: 1 }");
    let mut counter = 0;
    let d = read_roots(&t, &mut counter).err().unwrap();
    assert_eq!(d.fault, Fault::UnexpectedLifetime);
    assert_eq!(
        declarative::read::error_message(&t, &d),
        "expected 'bind, 'consume or maybe 'back, found 'foo"
    );
}

#[test]
fn struct_without_braces_is_refused() {
    assert_eq!(fault_of("struct S(u8);"), Fault::StructNeedsBraces);
    assert_eq!(fault_of("#[a] pub struct S;"), Fault::StructNeedsBraces);
}

#[test]
fn property_arguments_keep_their_order() {
    let out = text(&block(&read("String::new() s { push_two: \"a\", \"b\" }")));
    assert!(out.contains("s . push_two ( \"a\" , \"b\" )"), "{out}");
}
