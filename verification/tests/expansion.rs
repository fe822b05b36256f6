use declarative::diag::Fault;
use declarative::model::{
    Attributes, Content, Consume, Expr, Field, Item, Mode, Object, PathObject, Piece, PropMode,
    Property, Root, Roots, StructDef,
};
use declarative::path::{Name, Path, Segment, TypePath};
use declarative::property::builds;
use declarative::state::Out;
use declarative::token::{Delim, Tok};
use declarative::view::{block, place, view, Expansion, Head, Pending, ViewSrc};
use declarative::expand::consume;

fn render(ts: &[Tok]) -> String {
    ts.iter()
        .map(|t| match t {
            Tok::Ident { text, span } => format!("{text}@{span}"),
            Tok::Punct { ch, joint, span } => {
                format!("{ch}{}@{span}", if *joint { "~" } else { "" })
            }
            Tok::Lit { text, span } => format!("{text}@{span}"),
            Tok::Open { delim, span } => format!("{}@{span}", open_char(*delim)),
            Tok::Close { delim, span } => format!("{}@{span}", close_char(*delim)),
            Tok::Fail { fault, start, end } => format!("<{fault:?} {start}-{end}>"),
        })
        .collect::<Vec<_>>()
        .join(" ")
}

fn open_char(d: Delim) -> char {
    match d {
        Delim::Paren => '(',
        Delim::Brace => '{',
        Delim::Bracket => '[',
        Delim::Invisible => '<',
    }
}

fn close_char(d: Delim) -> char {
    match d {
        Delim::Paren => ')',
        Delim::Brace => '}',
        Delim::Bracket => ']',
        Delim::Invisible => '>',
    }
}

fn name(text: &str, span: u64) -> Name {
    Name { text: text.to_string(), span }
}

fn ident(text: &str, span: u64) -> Tok {
    Tok::Ident { text: text.to_string(), span }
}

fn lit(text: &str, span: u64) -> Tok {
    Tok::Lit { text: text.to_string(), span }
}

fn punct(ch: char, span: u64) -> Tok {
    Tok::Punct { ch, joint: false, span }
}

fn type_path(segs: &[(&str, u64)]) -> TypePath {
    let n = segs.len();
    let segs = segs
        .iter()
        .enumerate()
        .map(|(i, (t, s))| Segment {
            ident: name(t, *s),
            args: vec![],
            sep: if i + 1 < n {
                vec![Tok::Punct { ch: ':', joint: true, span: *s }, punct(':', *s)]
            } else {
                vec![]
            },
        })
        .collect();
    TypePath { qself: false, leading_colon: false, leading: vec![], segs }
}

fn unit_group(span: u64) -> Vec<Tok> {
    vec![Tok::Open { delim: Delim::Paren, span }, Tok::Close { delim: Delim::Paren, span }]
}

fn field(text: &str, span: u64, mut_: Option<u64>) -> Field {
    Field { vis: None, mut_, name: name(text, span), ty: None, auto: false }
}

fn method(path: &str, path_span: u64, colon: u64, args: Vec<Expr>) -> Content {
    Content::Property(Box::new(Property {
        attrs: vec![],
        path: Path::Type(type_path(&[(path, path_span)])),
        by_ref: None,
        mut_: None,
        mode: PropMode::Method,
        mode_span: colon,
        args,
        commas: vec![],
        items: vec![],
        back: None,
    }))
}

fn toks_expr(ts: Vec<Tok>) -> Expr {
    Expr { pieces: vec![Piece::Toks(ts)] }
}

/// `String::new() mut greeting { push_str: "Hello world!" }`
fn greeting() -> Item {
    Item {
        attrs: Some(vec![]),
        at_span: 0,
        object: Object::Path(Box::new(PathObject {
            path: Path::Type(type_path(&[("String", 1), ("new", 4)])),
            group: Some(unit_group(5)),
            field: field("greeting", 7, Some(6)),
        })),
        mode: Mode::Normal(8),
        body: vec![method("push_str", 9, 10, vec![toks_expr(vec![lit("\"Hello world!\"", 11)])])],
    }
}

#[test]
fn block_of_the_basic_example() {
    let roots = Roots { roots: vec![Root::Item(greeting())] };
    assert_eq!(
        render(&block(&roots)),
        "let@0 mut@6 greeting@7 =@0 String@1 :~@1 :@1 new@4 (@5 )@5 ;@0 \
         greeting@10 .@10 push_str@9 (@9 \"Hello world!\"@11 )@9 ;@0"
    );
}

#[test]
fn empty_block_is_an_error() {
    let roots = Roots { roots: vec![] };
    assert_eq!(render(&block(&roots)), "<NoContent 0-0>");
}

fn a_struct() -> StructDef {
    StructDef { head: vec![ident("struct", 20), ident("Widgets", 21)], brace_span: 22, fields: vec![] }
}

#[test]
fn struct_must_be_followed_by_an_item() {
    let roots = Roots { roots: vec![Root::Struct(a_struct())] };
    assert_eq!(render(&block(&roots)), "<StructsFollowedByItems 20-22>");
    let roots = Roots { roots: vec![Root::Struct(a_struct()), Root::Struct(a_struct()), Root::Item(greeting())] };
    assert_eq!(render(&block(&roots)), "<StructsFollowedByItems 20-22>");
}

#[test]
fn structs_come_after_the_statements() {
    let mut item = greeting();
    if let Object::Path(p) = &mut item.object {
        p.field.vis = Some(vec![ident("pub", 30)]);
        p.field.ty = Some(type_path(&[("String", 31)]));
    }
    let roots = Roots { roots: vec![Root::Struct(a_struct()), Root::Item(item)] };
    let out = render(&block(&roots));
    assert!(out.ends_with(
        "struct@20 Widgets@21 {@22 pub@30 greeting@7 :@0 String@31 }@22"
    ), "{out}");
}

#[test]
fn visibility_needs_a_struct() {
    let mut item = greeting();
    if let Object::Path(p) = &mut item.object {
        p.field.vis = Some(vec![ident("pub", 30)]);
    }
    let roots = Roots { roots: vec![Root::Item(item)] };
    assert_eq!(render(&block(&roots)), "<NoField 30-30>");
}

#[test]
fn missing_type_is_reported() {
    let mut item = greeting();
    if let Object::Path(p) = &mut item.object {
        p.field.vis = Some(vec![ident("pub", 30)]);
        p.path = Path::Type(type_path(&[("new", 4)]));
    }
    let roots = Roots { roots: vec![Root::Struct(a_struct()), Root::Item(item)] };
    assert_eq!(render(&block(&roots)), "<NoType 4-5>");
}

/// `gtk::Box bx { append: &_ @ gtk::Label label { } }`
#[test]
fn children_are_built_before_their_parent() {
    let label = Item {
        attrs: None,
        at_span: 12,
        object: Object::Path(Box::new(PathObject {
            path: Path::Type(type_path(&[("gtk", 13), ("Label", 14)])),
            group: None,
            field: field("label", 15, None),
        })),
        mode: Mode::Builder(16),
        body: vec![],
    };
    let append = Content::Property(Box::new(Property {
        attrs: vec![],
        path: Path::Type(type_path(&[("append", 9)])),
        by_ref: None,
        mut_: None,
        mode: PropMode::Method,
        mode_span: 10,
        args: vec![Expr { pieces: vec![Piece::Toks(vec![punct('&', 11)]), Piece::Infer { span: 17 }] }],
        commas: vec![],
        items: vec![label],
        back: None,
    }));
    let bx = Item {
        attrs: Some(vec![]),
        at_span: 0,
        object: Object::Path(Box::new(PathObject {
            path: Path::Type(type_path(&[("gtk", 1), ("Box", 2)])),
            group: None,
            field: field("bx", 3, None),
        })),
        mode: Mode::Builder(8),
        body: vec![append],
    };
    let roots = Roots { roots: vec![Root::Item(bx)] };
    assert_eq!(
        render(&block(&roots)),
        "let@12 label@15 =@0 construct@16 !@16 (@16 gtk@13 :~@13 :@13 Label@14 =~@16 >@16 )@16 ;@0 \
         let@0 bx@3 =@0 construct@8 !@8 (@8 gtk@1 :~@1 :@1 Box@2 =~@8 >@8 .@8 append@9 (@8 &@11 label@17 )@8 )@8 ;@0"
    );
}

#[test]
fn consume_without_bindings_is_an_error() {
    let k = Consume {
        attrs: vec![],
        token_span: 40,
        mut_: None,
        name: name("refresh", 41),
        equal_span: 42,
        expr: toks_expr(vec![lit("1", 43)]),
    };
    let mut out = Out::new();
    out.settings = vec![ident("kept", 1)];
    out.objects = vec![ident("made", 2)];
    let r = consume(&k, &mut out, &Attributes::Given(vec![]));
    assert_eq!(r.map_err(|d| (d.fault, d.start, d.end)), Err((Fault::NoBindingsToConsume, 40, 40)));
    assert_eq!(render(&out.settings), "kept@1");
    assert_eq!(render(&out.objects), "made@2");
    assert!(out.spans.is_empty() && out.stream.is_empty() && out.constrs.is_empty());
}

#[test]
fn second_construction_is_an_error_that_changes_nothing() {
    let k = declarative::model::Construct {
        object: false,
        tilde_span: 30,
        last: None,
        penult: semi_method("build", 31, 32),
        rest: vec![],
    };
    let mut out = Out::new();
    out.settings = vec![ident("kept", 1)];
    out.spans = vec![5];
    let asg = declarative::model::Assignee { parts: vec![] };
    let r = declarative::expand::construct(&k, &mut out, &Attributes::Given(vec![]), &asg, None);
    assert_eq!(r.map_err(|d| (d.fault, d.start, d.end)), Err((Fault::ConstrOnlyOnce, 30, 30)));
    assert_eq!(render(&out.settings), "kept@1");
    assert_eq!(out.spans, vec![5]);
    assert!(out.objects.is_empty() && out.stream.is_empty() && out.constrs.is_empty());
}

#[test]
fn builds_decides_by_the_content() {
    assert!(builds(None));
    let p = method("x", 1, 2, vec![]);
    assert!(builds(Some(&p)));
    let e = Content::Edit(Box::new(declarative::model::Edit {
        attrs: vec![],
        edit: declarative::path::Access { names: vec![name("a", 1)], dots: vec![] },
        body: vec![],
    }));
    assert!(!builds(Some(&e)));
}

fn mac(stmt: bool, text: &str, span: u64, empty: bool) -> Piece {
    let mut toks = vec![ident(text, span), punct('!', span + 1)];
    toks.extend(unit_group(span + 2));
    if stmt {
        toks.push(punct(';', span + 3));
    }
    Piece::Mac { stmt, name: text.to_string(), name_span: span, bang_span: span + 1, empty, toks }
}

fn fn_item(body: Vec<Piece>) -> Expr {
    let mut pieces = vec![Piece::Toks(vec![
        ident("fn", 50),
        ident("f", 51),
        Tok::Open { delim: Delim::Paren, span: 52 },
        Tok::Close { delim: Delim::Paren, span: 52 },
        Tok::Open { delim: Delim::Brace, span: 53 },
    ])];
    pieces.extend(body);
    pieces.push(Piece::Toks(vec![Tok::Close { delim: Delim::Brace, span: 53 }]));
    Expr { pieces }
}

fn pending(stream: Vec<Tok>, spans: Vec<u64>, bindings: Vec<Tok>) -> Pending {
    Pending { range: (60, 61), x: Expansion { stream, spans, bindings } }
}

#[test]
fn view_is_placed_at_its_placeholder() {
    let item = fn_item(vec![mac(true, "expand_view_here", 70, true)]);
    let x = pending(vec![ident("stmt", 80), punct(';', 81)], vec![], vec![]);
    let (placed, errs) = place(&item, &x).ok().unwrap();
    let mut t = vec![];
    placed.to_tokens(&mut t);
    assert_eq!(render(&t), "fn@50 f@51 (@52 )@52 {@53 stmt@80 ;@81 }@53");
    assert!(errs.is_empty());
}

#[test]
fn view_without_placeholder_is_an_error() {
    let item = fn_item(vec![]);
    let x = pending(vec![ident("stmt", 80)], vec![], vec![]);
    let r = place(&item, &x).map(|_| ()).map_err(|d| (d.fault, d.start, d.end));
    assert_eq!(r, Err((Fault::ViewNotConsumed, 60, 61)));
}

#[test]
fn placeholder_with_content_is_an_error() {
    let item = fn_item(vec![mac(true, "expand_view_here", 70, false)]);
    let x = pending(vec![ident("stmt", 80)], vec![], vec![]);
    let r = place(&item, &x).map(|_| ()).map_err(|d| (d.fault, d.start, d.end));
    assert_eq!(r, Err((Fault::PlaceholderContent, 70, 71)));
}

#[test]
fn unconsumed_bindings_are_reported_before_the_item() {
    let item = fn_item(vec![mac(true, "expand_view_here", 70, true)]);
    let x = pending(vec![ident("stmt", 80)], vec![90, 91], vec![ident("b", 92)]);
    let (_, errs) = place(&item, &x).ok().unwrap();
    assert_eq!(render(&errs), "<BindingsNotConsumed 90-90> <BindingsNotConsumed 91-91>");
    let item = fn_item(vec![
        mac(true, "expand_view_here", 70, true),
        mac(false, "bindings", 75, true),
    ]);
    let (placed, errs) = place(&item, &x).ok().unwrap();
    assert!(errs.is_empty());
    let mut t = vec![];
    placed.to_tokens(&mut t);
    assert_eq!(render(&t), "fn@50 f@51 (@52 )@52 {@53 stmt@80 {@0 b@92 }@0 }@53");
}

#[test]
fn attribute_without_views_is_an_error() {
    let item = fn_item(vec![]);
    let out = view(&Head::Views(None), &item, false, &vec![]);
    assert_eq!(render(&out), "<NoView 0-0>");
}

#[test]
fn attribute_with_an_empty_view_is_an_error() {
    let item = fn_item(vec![]);
    let views = vec![ViewSrc { name_span: 3, bang_span: 4, body: Ok(Roots { roots: vec![] }) }];
    let out = view(&Head::Views(None), &item, false, &views);
    assert_eq!(render(&out), "<ViewNoContent 3-4>");
}

#[test]
fn attribute_places_each_view() {
    let item = fn_item(vec![mac(true, "expand_view_here", 70, true)]);
    let views = vec![ViewSrc { name_span: 3, bang_span: 4, body: Ok(Roots { roots: vec![Root::Item(greeting())] }) }];
    let out = view(&Head::Views(None), &item, false, &views);
    assert_eq!(
        render(&out),
        "fn@50 f@51 (@52 )@52 {@53 let@0 mut@6 greeting@7 =@0 String@1 :~@1 :@1 new@4 (@5 )@5 ;@0 \
         greeting@10 .@10 push_str@9 (@9 \"Hello world!\"@11 )@9 ;@0 }@53"
    );
}

#[test]
fn structs_go_inside_a_module_body() {
    let item = fn_item(vec![mac(true, "expand_view_here", 70, true)]);
    let head = Head::Views(Some(a_struct()));
    let views = vec![ViewSrc { name_span: 3, bang_span: 4, body: Ok(Roots { roots: vec![Root::Item(greeting())] }) }];
    let out = render(&view(&head, &item, true, &views));
    assert!(out.ends_with("struct@20 Widgets@21 {@22 }@22 }@53"), "{out}");
    let out = render(&view(&head, &item, false, &views));
    assert!(out.starts_with("struct@20 Widgets@21 {@22 }@22 fn@50"), "{out}");
}

fn item_with(body: Vec<Content>) -> Item {
    let mut it = greeting();
    it.body = body;
    it
}

const GREETING: &str = "let@0 mut@6 greeting@7 =@0 String@1 :~@1 :@1 new@4 (@5 )@5 ;@0";

fn bind_push_str() -> Content {
    Content::Bind(Box::new(declarative::model::Bind {
        token_span: 20,
        init: false,
        mode: declarative::model::BindMode::Unbraced(method("push_str", 23, 21, vec![toks_expr(vec![ident("x", 22)])])),
    }))
}

#[test]
fn bindings_are_consumed_where_asked() {
    let consume = Content::Consume(Box::new(Consume {
        attrs: vec![],
        token_span: 30,
        mut_: None,
        name: name("refresh", 31),
        equal_span: 32,
        expr: Expr {
            pieces: vec![
                Piece::Toks(vec![ident("move", 33), punct('|', 34), ident("x", 35), punct('|', 36)]),
                mac(false, "bindings", 37, true),
            ],
        },
    }));
    let roots = Roots { roots: vec![Root::Item(item_with(vec![bind_push_str(), consume]))] };
    assert_eq!(
        render(&block(&roots)),
        format!(
            "{GREETING} let@30 refresh@31 =@32 move@33 |@34 x@35 |@36 {{@0 greeting@21 .@21 push_str@23 (@23 x@22 )@23 ;@0 }}@0 ;@0"
        )
    );
}

#[test]
fn bindings_left_are_reported() {
    let roots = Roots { roots: vec![Root::Item(item_with(vec![bind_push_str()]))] };
    assert_eq!(render(&block(&roots)), format!("{GREETING} <BindingsNotConsumed 20-20>"));
}

#[test]
fn struct_literal_takes_its_fields() {
    let p = Item {
        attrs: Some(vec![]),
        at_span: 0,
        object: Object::Path(Box::new(PathObject {
            path: Path::Type(type_path(&[("Point", 1)])),
            group: None,
            field: field("p", 2, None),
        })),
        mode: Mode::StructLiteral(9),
        body: vec![method("x", 3, 4, vec![toks_expr(vec![lit("1", 5)])])],
    };
    let roots = Roots { roots: vec![Root::Item(p)] };
    assert_eq!(
        render(&block(&roots)),
        "let@0 p@2 =@0 construct@9 !@9 (@9 ?@9 Point@1 {@9 x@3 :@9 1@5 ,@9 }@9 )@9 ;@0"
    );
}

#[test]
fn field_assignment_on_an_existing_object() {
    let title = Content::Property(Box::new(Property {
        attrs: vec![],
        path: Path::Type(type_path(&[("title", 2)])),
        by_ref: None,
        mut_: None,
        mode: PropMode::Field,
        mode_span: 3,
        args: vec![toks_expr(vec![lit("\"x\"", 4)])],
        commas: vec![],
        items: vec![],
        back: None,
    }));
    let window = Item {
        attrs: Some(vec![]),
        at_span: 0,
        object: Object::Ref(declarative::path::Access { names: vec![name("window", 1)], dots: vec![] }),
        mode: Mode::Builder(8),
        body: vec![title],
    };
    let roots = Roots { roots: vec![Root::Item(window)] };
    assert_eq!(
        render(&block(&roots)),
        "let@0 _@0 =@0 window@1 ;@0 window@3 .@3 title@2 =@3 \"x\"@4 ;@3"
    );
}

#[test]
fn tilde_closes_the_construction_early() {
    let construct = Content::Construct(Box::new(declarative::model::Construct {
        object: true,
        tilde_span: 10,
        last: None,
        penult: method("a", 11, 19, vec![toks_expr(vec![lit("1", 12)])]),
        rest: vec![method("rest", 14, 13, vec![toks_expr(vec![lit("2", 15)])])],
    }));
    let b = Item {
        attrs: Some(vec![]),
        at_span: 0,
        object: Object::Path(Box::new(PathObject {
            path: Path::Type(type_path(&[("Builder", 1), ("new", 2)])),
            group: Some(unit_group(4)),
            field: field("b", 3, None),
        })),
        mode: Mode::Builder(9),
        body: vec![construct],
    };
    let roots = Roots { roots: vec![Root::Item(b)] };
    assert_eq!(
        render(&block(&roots)),
        "let@0 b@3 =@0 construct@10 !@10 (@10 Builder@1 :~@1 :@1 new@2 (@4 )@4 .@10 a@11 (@10 1@12 )@10 )@10 ;@0 \
         b@13 .@13 rest@14 (@14 2@15 )@14 ;@0"
    );
}

fn builder_b(body: Vec<Content>) -> Item {
    Item {
        attrs: Some(vec![]),
        at_span: 0,
        object: Object::Path(Box::new(PathObject {
            path: Path::Type(type_path(&[("Builder", 1), ("new", 2)])),
            group: Some(unit_group(4)),
            field: field("b", 3, None),
        })),
        mode: Mode::Builder(9),
        body,
    }
}

#[test]
fn tilde_needs_a_construction() {
    let construct = Content::Construct(Box::new(declarative::model::Construct {
        object: true,
        tilde_span: 10,
        last: None,
        penult: method("a", 11, 19, vec![]),
        rest: vec![],
    }));
    let roots = Roots { roots: vec![Root::Item(item_with(vec![construct]))] };
    assert_eq!(render(&block(&roots)), "<ConstrOnlyOnce 10-10>");
}

#[test]
fn second_tilde_is_refused() {
    let inner = Content::Construct(Box::new(declarative::model::Construct {
        object: false,
        tilde_span: 16,
        last: None,
        penult: method("c", 17, 18, vec![]),
        rest: vec![],
    }));
    let construct = Content::Construct(Box::new(declarative::model::Construct {
        object: true,
        tilde_span: 10,
        last: None,
        penult: method("a", 11, 19, vec![]),
        rest: vec![inner],
    }));
    let roots = Roots { roots: vec![Root::Item(builder_b(vec![construct]))] };
    assert_eq!(render(&block(&roots)), "<ConstrOnlyOnce 16-16>");
}

#[test]
fn long_path_cannot_join_a_construction() {
    let long = Content::Property(Box::new(Property {
        attrs: vec![],
        path: Path::Type(type_path(&[("Self", 11), ("set", 12)])),
        by_ref: None,
        mut_: None,
        mode: PropMode::Method,
        mode_span: 13,
        args: vec![],
        commas: vec![],
        items: vec![],
        back: None,
    }));
    let roots = Roots { roots: vec![Root::Item(builder_b(vec![long]))] };
    let out = render(&block(&roots));
    assert!(out.starts_with("<ConstrLongPath 11-12>"), "{out}");
}

#[test]
fn back_object_gets_its_own_settings() {
    let back = declarative::model::Back {
        token_span: 20,
        field: field("it", 21, None),
        body: vec![Content::Property(Box::new(Property {
            attrs: vec![],
            path: Path::Type(type_path(&[("count", 22)])),
            by_ref: None,
            mut_: None,
            mode: PropMode::Method,
            mode_span: 23,
            args: vec![],
            commas: vec![],
            items: vec![],
            back: None,
        }))],
        build: None,
    };
    let chars = Content::Property(Box::new(Property {
        attrs: vec![],
        path: Path::Type(type_path(&[("chars", 9)])),
        by_ref: None,
        mut_: None,
        mode: PropMode::Method,
        mode_span: 10,
        args: vec![],
        commas: vec![],
        items: vec![],
        back: Some(Box::new(back)),
    }));
    let s = Item {
        attrs: Some(vec![]),
        at_span: 0,
        object: Object::Path(Box::new(PathObject {
            path: Path::Type(type_path(&[("String", 1), ("new", 4)])),
            group: Some(unit_group(5)),
            field: field("s", 6, None),
        })),
        mode: Mode::Normal(8),
        body: vec![chars],
    };
    let roots = Roots { roots: vec![Root::Item(s)] };
    assert_eq!(
        render(&block(&roots)),
        "let@0 s@6 =@0 String@1 :~@1 :@1 new@4 (@5 )@5 ;@0 \
         let@20 it@21 =@0 s@10 .@10 chars@9 (@9 )@9 ;@0 it@23 .@23 count@22 (@22 )@22 ;@0"
    );
}

fn append(args: Vec<Expr>, items: Vec<Item>) -> Content {
    Content::Property(Box::new(Property {
        attrs: vec![],
        path: Path::Type(type_path(&[("append", 9)])),
        by_ref: None,
        mut_: None,
        mode: PropMode::Method,
        mode_span: 10,
        args,
        commas: vec![],
        items,
        back: None,
    }))
}

fn label_item() -> Item {
    Item {
        attrs: None,
        at_span: 12,
        object: Object::Path(Box::new(PathObject {
            path: Path::Type(type_path(&[("Label", 14)])),
            group: None,
            field: field("label", 15, None),
        })),
        mode: Mode::Normal(16),
        body: vec![],
    }
}

#[test]
fn underscore_takes_the_assignee_when_no_item_is_left() {
    let arg = Expr { pieces: vec![Piece::Toks(vec![punct('&', 11)]), Piece::Infer { span: 17 }] };
    let roots = Roots { roots: vec![Root::Item(item_with(vec![append(vec![arg], vec![])]))] };
    assert_eq!(render(&block(&roots)), format!("{GREETING} append@9 (@10 &@11 greeting@17 )@10 ;@0"));
}

#[test]
fn too_many_underscores_are_reported() {
    let a = Expr { pieces: vec![Piece::Infer { span: 17 }] };
    let b = Expr { pieces: vec![Piece::Infer { span: 18 }] };
    let mut prop = append(vec![a, b], vec![]);
    if let Content::Property(p) = &mut prop {
        p.commas = vec![19];
    }
    let roots = Roots { roots: vec![Root::Item(item_with(vec![prop]))] };
    let out = render(&block(&roots));
    assert!(out.contains("<NotEnoughItems 18-18>"), "{out}");
    assert!(out.ends_with("append@9 (@10 greeting@17 ,@19 _@18 )@10 ;@0"), "{out}");
}

#[test]
fn item_without_underscore_is_reported() {
    let arg = toks_expr(vec![ident("x", 11)]);
    let roots = Roots { roots: vec![Root::Item(item_with(vec![append(vec![arg], vec![label_item()])]))] };
    let out = render(&block(&roots));
    assert!(out.contains("<UnderscoreMissing 15-15>"), "{out}");
    assert!(out.contains("let@12 label@15 =@16 construct@16 !@16 (@16 ?@16 Label@14 )@16 ;@0"), "{out}");
}

fn prop(path: TypePath, mode: PropMode, args: Vec<Expr>) -> Property {
    Property {
        attrs: vec![],
        path: Path::Type(path),
        by_ref: None,
        mut_: None,
        mode,
        mode_span: 10,
        args,
        commas: vec![],
        items: vec![],
        back: None,
    }
}

fn infer(span: u64) -> Expr {
    Expr { pieces: vec![Piece::Infer { span }] }
}

fn render_block(item: Item) -> String {
    render(&block(&Roots { roots: vec![Root::Item(item)] }))
}

#[test]
fn equal_sign_with_underscore_is_reported() {
    let p = prop(type_path(&[("x", 9)]), PropMode::Field, vec![infer(17)]);
    let out = render_block(item_with(vec![Content::Property(Box::new(p))]));
    assert!(out.contains("<UseColon 10-10>"), "{out}");
    assert!(out.ends_with("x@9 (@10 greeting@17 )@10 ;@0"), "{out}");
}

#[test]
fn reference_with_underscore_is_reported() {
    let mut p = prop(type_path(&[("Self", 8), ("f", 9)]), PropMode::Method, vec![infer(17)]);
    p.by_ref = Some(6);
    p.mut_ = Some(7);
    let out = render_block(item_with(vec![Content::Property(Box::new(p))]));
    assert!(out.contains("<RefMutUnderscore 6-7>"), "{out}");
    let mut p = prop(type_path(&[("Self", 8), ("f", 9)]), PropMode::Method, vec![infer(17)]);
    p.by_ref = Some(6);
    let out = render_block(item_with(vec![Content::Property(Box::new(p))]));
    assert!(out.contains("<RefUnderscore 6-6>"), "{out}");
    assert!(out.ends_with("Self@8 :~@8 :@8 f@9 (@10 &@6 greeting@10 ,@10 greeting@17 )@10 ;@0"), "{out}");
}

fn point(body: Vec<Content>) -> Item {
    Item {
        attrs: Some(vec![]),
        at_span: 0,
        object: Object::Path(Box::new(PathObject {
            path: Path::Type(type_path(&[("Point", 1)])),
            group: None,
            field: field("p", 2, None),
        })),
        mode: Mode::StructLiteral(19),
        body,
    }
}

#[test]
fn struct_literal_field_errors() {
    let mut p = prop(type_path(&[("x", 3)]), PropMode::Method, vec![toks_expr(vec![lit("1", 5)]), toks_expr(vec![lit("2", 7)])]);
    p.commas = vec![6];
    let out = render_block(point(vec![Content::Property(Box::new(p))]));
    assert!(out.starts_with("<MultipleArgs 5-7>"), "{out}");
    let mut generic = type_path(&[("x", 3)]);
    generic.segs[0].args = vec![punct('<', 4), ident("T", 5), punct('>', 6)];
    let p = prop(generic, PropMode::Method, vec![toks_expr(vec![lit("1", 7)])]);
    let out = render_block(point(vec![Content::Property(Box::new(p))]));
    assert!(out.starts_with("<FieldGenerics 3-6>"), "{out}");
}

#[test]
fn builder_content_errors() {
    let mut p = prop(type_path(&[("a", 11)]), PropMode::Method, vec![]);
    p.attrs = vec![punct('#', 20), Tok::Open { delim: Delim::Bracket, span: 21 }, ident("cfg", 22), Tok::Close { delim: Delim::Bracket, span: 21 }];
    let out = render_block(builder_b(vec![Content::Property(Box::new(p))]));
    assert!(out.starts_with("<ConstrAttributes 20-21>"), "{out}");
    let mut p = prop(type_path(&[("a", 11)]), PropMode::Method, vec![]);
    p.back = Some(Box::new(declarative::model::Back { token_span: 30, field: field("r", 31, None), body: vec![], build: None }));
    let out = render_block(builder_b(vec![Content::Property(Box::new(p))]));
    assert!(out.starts_with("<ConstrBack 30-30>"), "{out}");
    let p = prop(type_path(&[("a", 11)]), PropMode::Field, vec![toks_expr(vec![lit("1", 12)])]);
    let out = render_block(builder_b(vec![Content::Property(Box::new(p))]));
    assert!(out.starts_with("<ConstrColonOrSemicolon 10-10>"), "{out}");
}

#[test]
fn empty_view_changes_nothing() {
    let item = fn_item(vec![mac(true, "expand_view_here", 70, true)]);
    let x = pending(vec![], vec![], vec![]);
    let (placed, errs) = place(&item, &x).ok().unwrap();
    let (mut a, mut b) = (vec![], vec![]);
    placed.to_tokens(&mut a);
    item.to_tokens(&mut b);
    assert_eq!(render(&a), render(&b));
    assert!(errs.is_empty());
}

#[test]
fn view_goes_to_the_first_placeholder_only() {
    let item = fn_item(vec![mac(true, "expand_view_here", 70, true), mac(true, "expand_view_here", 74, true)]);
    let x = pending(vec![ident("stmt", 80)], vec![], vec![]);
    let (placed, _) = place(&item, &x).ok().unwrap();
    let mut t = vec![];
    placed.to_tokens(&mut t);
    assert_eq!(
        render(&t),
        "fn@50 f@51 (@52 )@52 {@53 stmt@80 expand_view_here@74 !@75 (@76 )@76 ;@77 }@53"
    );
}

fn semi_method(path: &str, path_span: u64, semi: u64) -> Content {
    let mut p = prop(type_path(&[(path, path_span)]), PropMode::Method, vec![]);
    p.mode_span = semi;
    Content::Property(Box::new(p))
}

/// `Test default_1 { method; method; }!`
#[test]
fn construct_default_then_call() {
    let it = Item {
        attrs: Some(vec![]),
        at_span: 0,
        object: Object::Path(Box::new(PathObject {
            path: Path::Type(type_path(&[("Test", 1)])),
            group: None,
            field: field("default_1", 2, None),
        })),
        mode: Mode::Normal(9),
        body: vec![semi_method("method", 3, 4), semi_method("method", 5, 6)],
    };
    assert_eq!(
        render_block(it),
        "let@0 default_1@2 =@9 construct@9 !@9 (@9 ?@9 Test@1 )@9 ;@0 \
         default_1@4 .@4 method@3 (@3 )@3 ;@0 default_1@6 .@6 method@5 (@5 )@5 ;@0"
    );
}

/// `Test::builder() end_1 { ~~build; }!`
#[test]
fn construct_builder_left_open() {
    let construct = Content::Construct(Box::new(declarative::model::Construct {
        object: false,
        tilde_span: 10,
        last: Some(11),
        penult: semi_method("build", 12, 13),
        rest: vec![],
    }));
    let it = Item {
        attrs: Some(vec![]),
        at_span: 0,
        object: Object::Path(Box::new(PathObject {
            path: Path::Type(type_path(&[("Test", 1), ("builder", 2)])),
            group: Some(unit_group(3)),
            field: field("end_1", 4, None),
        })),
        mode: Mode::Builder(9),
        body: vec![construct],
    };
    assert_eq!(
        render_block(it),
        "let@0 end_1@4 =@0 construct@10 !@10 (@10 ~@11 Test@1 :~@1 :@1 builder@2 (@3 )@3 .@10 build@12 (@10 )@10 )@10 ;@0"
    );
}
