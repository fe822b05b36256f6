use declarative::grammar::{
    content_kind, item_mode, lifetime_message, name_object, setter, Kind, Lead, Punct,
};
use declarative::model::{Mode, PropMode};
use declarative::naming::Display;
use declarative::path::Name;

fn p(ch: char, joint: bool, span: u64) -> Option<Punct> {
    Some(Punct { ch, joint, span })
}

#[test]
fn content_kinds() {
    assert_eq!(content_kind(&Lead::Tilde, false), Ok(Kind::Construct));
    let bind = Lead::Lifetime { name: "bind".to_string(), span: 4 };
    assert_eq!(content_kind(&bind, false), Ok(Kind::Bind));
    assert_eq!(content_kind(&bind, true), Ok(Kind::BindColon));
    let consume = Lead::Lifetime { name: "consume".to_string(), span: 4 };
    assert_eq!(content_kind(&consume, false), Ok(Kind::Consume));
    let other = Lead::Lifetime { name: "back".to_string(), span: 9 };
    assert_eq!(content_kind(&other, false), Err(9));
    assert_eq!(content_kind(&Lead::If, false), Ok(Kind::If));
    assert_eq!(content_kind(&Lead::Match, false), Ok(Kind::Match));
    assert_eq!(content_kind(&Lead::Ref, false), Ok(Kind::Edit));
    assert_eq!(content_kind(&Lead::Other, false), Ok(Kind::Property));
}

#[test]
fn lifetime_error_text() {
    assert_eq!(
        lifetime_message(&"bound".to_string()),
        "expected 'bind, 'consume or maybe 'back, found 'bound"
    );
}

#[test]
fn setters() {
    let s = setter(p('=', false, 3), None);
    assert_eq!((s.mode, s.span, s.taken, s.args, s.back), (PropMode::Field, 3, 1, true, false));
    let s = setter(p(':', true, 3), p('=', false, 4));
    assert_eq!((s.mode, s.span, s.taken, s.args, s.back), (PropMode::FnField, 4, 2, true, true));
    let s = setter(p(':', false, 3), p('=', false, 4));
    assert_eq!((s.mode, s.span, s.taken, s.args, s.back), (PropMode::Method, 3, 1, true, true));
    let s = setter(p(';', true, 3), p(';', false, 4));
    assert_eq!((s.mode, s.span, s.taken, s.args, s.back), (PropMode::FnField, 4, 2, false, true));
    let s = setter(p(';', false, 3), None);
    assert_eq!((s.mode, s.span, s.taken, s.args, s.back), (PropMode::Method, 3, 1, false, true));
    let s = setter(p('@', false, 3), None);
    assert_eq!((s.mode, s.span, s.taken), (PropMode::Auto, 0, 0));
    let s = setter(None, None);
    assert_eq!((s.mode, s.taken), (PropMode::Auto, 0));
}

#[test]
fn item_modes() {
    assert_eq!(item_mode(true, false, p('?', false, 5), 9), (Mode::StructLiteral(5), true));
    assert_eq!(item_mode(true, true, p('?', false, 5), 9), (Mode::Normal(9), false));
    assert_eq!(item_mode(true, true, p('!', false, 5), 9), (Mode::Builder(5), true));
    assert_eq!(item_mode(true, false, p('!', false, 5), 9), (Mode::Normal(5), true));
    assert_eq!(item_mode(false, false, p('!', false, 5), 9), (Mode::Normal(5), true));
    assert_eq!(item_mode(true, true, None, 9), (Mode::Normal(9), false));
    assert_eq!(item_mode(true, false, None, 9), (Mode::Builder(9), false));
    assert_eq!(item_mode(false, false, p('?', false, 5), 9), (Mode::Builder(9), false));
}

#[test]
fn object_names() {
    let mut c: usize = 2;
    let written = Name { text: "window".to_string(), span: 7 };
    let (n, auto) = name_object(Some(&written), Display::Back, &mut c, 30);
    assert_eq!((n.text.as_str(), n.span, auto, c), ("window", 7, false, 2));
    let (n, auto) = name_object(None, Display::Back, &mut c, 30);
    assert_eq!((n.text.as_str(), n.span, auto, c), ("back_2", 30, true, 3));
}
