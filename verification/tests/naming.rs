use declarative::diag::Fault;
use declarative::naming::{auto_name, count, display_ty, Display};
use declarative::path::{Access, Name, Path, Segment, TypePath};
use declarative::token::Tok;

fn name(text: &str, span: u64) -> Name {
    Name { text: text.to_string(), span }
}

fn seg(text: &str, span: u64, last: bool) -> Segment {
    let sep = if last {
        vec![]
    } else {
        vec![
            Tok::Punct { ch: ':', joint: true, span },
            Tok::Punct { ch: ':', joint: false, span },
        ]
    };
    Segment { ident: name(text, span), args: vec![], sep }
}

fn gtk_box() -> TypePath {
    TypePath {
        qself: false,
        leading_colon: false,
        leading: vec![],
        segs: vec![seg("gtk", 1, false), seg("Box", 2, true)],
    }
}

#[test]
fn count_names_follow_the_counter() {
    let mut c: usize = 0;
    assert_eq!(count(&mut c), "_declarative_0");
    assert_eq!(c, 1);
    let mut c: usize = 12;
    assert_eq!(count(&mut c), "_declarative_12");
    assert_eq!(c, 13);
    let mut c: usize = 1905;
    assert_eq!(count(&mut c), "_declarative_1905");
}

#[test]
fn count_wraps_around() {
    let mut c: usize = usize::MAX;
    let n = count(&mut c);
    assert_eq!(n, format!("_declarative_{}", usize::MAX));
    assert_eq!(c, 0);
}

#[test]
fn count_names_never_repeat() {
    let mut c: usize = 0;
    let mut seen: Vec<String> = vec![];
    for _ in 0..100 {
        let n = count(&mut c);
        assert!(!seen.contains(&n));
        seen.push(n);
    }
}

#[test]
fn type_display_is_lower_case_segments() {
    let mut s = String::new();
    display_ty(&gtk_box(), &mut s);
    assert_eq!(s, "gtk_box_");
    let mut q = gtk_box();
    q.qself = true;
    let mut s = String::new();
    display_ty(&q, &mut s);
    assert_eq!(s, "qualified_gtk_box_");
}

#[test]
fn auto_names() {
    let mut c: usize = 3;
    let p = Path::Type(gtk_box());
    assert_eq!(auto_name(Display::Path(&p), &mut c), "gtk_box_3");
    assert_eq!(c, 4);
    assert_eq!(auto_name(Display::Back, &mut c), "back_4");
    let field = Path::Field {
        access: Access { names: vec![name("self", 1), name("Widget", 2)], dots: vec![3] },
        gens: None,
    };
    assert_eq!(auto_name(Display::Path(&field), &mut c), "self_Widget_5");
    let t = gtk_box();
    assert_eq!(auto_name(Display::Type(&t), &mut c), "gtk_box_6");
    assert_eq!(c, 7);
}

#[test]
fn construction_errors_carry_their_context() {
    let m = Fault::ConstrOnlyOnce.message();
    assert_eq!(
        m,
        "only allowed once in the initial content of an item whose definition should be expanded in a builder pattern or a struct literal"
    );
    assert_eq!(Fault::NoContent.message(), "this view block has no content");
    assert_eq!(
        Fault::BindingsNotConsumed.message(),
        "bindings must be consumed with the `bindings!` placeholder macro"
    );
}
