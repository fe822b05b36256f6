//! The decisions the reader of a view takes from the tokens in front of it:
//! what kind of content starts, how a property is set, how an item's object
//! is made, and what an unnamed object is called.
use vstd::prelude::*;

use crate::model::{Mode, PropMode};
use crate::naming::{auto_name, decimal, display_text, next_count, Display};
use crate::path::{Name, NameV};
use crate::token::CALL_SITE;

verus! {

/// The token a content starts with, as far as the choice of its kind goes.
#[derive(Debug)]
pub enum Lead {
    /// `~`
    Tilde,
    /// A lifetime such as `'bind`, by its name without the quote.
    Lifetime { name: String, span: u64 },
    /// The keyword `if`.
    If,
    /// The keyword `match`.
    Match,
    /// The keyword `ref`.
    Ref,
    /// Anything else.
    Other,
}

/// The kinds of content.
#[derive(Clone, Copy, Debug, PartialEq, Eq, Structural)]
pub enum Kind {
    Construct,
    BindColon,
    Bind,
    Consume,
    If,
    Match,
    Edit,
    Property,
}

/// The kind of content that starts with `lead`; `colon_next` tells whether
/// a `:` follows a lifetime. A lifetime other than `'bind` and `'consume` is
/// refused, at its span.
pub open spec fn spec_content_kind(lead: Lead, colon_next: bool) -> Result<Kind, u64> {
    match lead {
        Lead::Tilde => Ok(Kind::Construct),
        Lead::Lifetime { name, span } => if name@ == "bind"@ {
            if colon_next {
                Ok(Kind::BindColon)
            } else {
                Ok(Kind::Bind)
            }
        } else if name@ == "consume"@ {
            Ok(Kind::Consume)
        } else {
            Err(span)
        },
        Lead::If => Ok(Kind::If),
        Lead::Match => Ok(Kind::Match),
        Lead::Ref => Ok(Kind::Edit),
        Lead::Other => Ok(Kind::Property),
    }
}

/// The kind of content that starts with `lead` (see [`spec_content_kind`]).
pub fn content_kind(lead: &Lead, colon_next: bool) -> (r: Result<Kind, u64>)
    ensures
        r == spec_content_kind(*lead, colon_next),
{
    match lead {
        Lead::Tilde => Ok(Kind::Construct),
        Lead::Lifetime { name, span } => {
            let bind = String::from_str("bind");
            let consume = String::from_str("consume");
            if *name == bind {
                if colon_next {
                    Ok(Kind::BindColon)
                } else {
                    Ok(Kind::Bind)
                }
            } else if *name == consume {
                Ok(Kind::Consume)
            } else {
                Err(*span)
            }
        },
        Lead::If => Ok(Kind::If),
        Lead::Match => Ok(Kind::Match),
        Lead::Ref => Ok(Kind::Edit),
        Lead::Other => Ok(Kind::Property),
    }
}

/// The text of the error for a lifetime that starts no content.
pub open spec fn lifetime_text(name: Seq<char>) -> Seq<char> {
    "expected 'bind, 'consume or maybe 'back, found '"@ + name
}

/// The text of the error for a lifetime that starts no content.
pub fn lifetime_message(name: &String) -> (r: String)
    ensures
        r@ == lifetime_text(name@),
{
    let mut r = String::from_str("expected 'bind, 'consume or maybe 'back, found '");
    r.append(name.as_str());
    r
}

/// A punctuation character in front of the reader, with its span and
/// whether it is glued to the next one.
#[derive(Clone, Copy, Debug, PartialEq, Eq, Structural)]
pub struct Punct {
    pub ch: char,
    pub joint: bool,
    pub span: u64,
}

/// How a property is set, read from the punctuation after its path.
#[derive(Clone, Copy, Debug, PartialEq, Eq, Structural)]
pub struct Setter {
    /// The way it is set.
    pub mode: PropMode,
    /// The span it is reported at.
    pub span: u64,
    /// How many punctuation characters it takes.
    pub taken: usize,
    /// Whether arguments follow (a list for a call, one expression for `=`).
    pub args: bool,
    /// Whether a `'back` object may follow.
    pub back: bool,
}

/// How a property is set: `=` sets a field; `:=` calls a function held in a
/// field, `:` calls a method, both with arguments; `;;` and `;` do the same
/// with no arguments; with none of these the property is named alone. The
/// span of `:=` and `;;` is that of their second character.
pub open spec fn spec_setter(first: Option<Punct>, second: Option<Punct>) -> Setter {
    match first {
        Some(a) => if a.ch == '=' {
            Setter { mode: PropMode::Field, span: a.span, taken: 1, args: true, back: false }
        } else if a.ch == ':' && a.joint && second is Some && second->0.ch == '=' {
            Setter { mode: PropMode::FnField, span: second->0.span, taken: 2, args: true, back: true }
        } else if a.ch == ':' {
            Setter { mode: PropMode::Method, span: a.span, taken: 1, args: true, back: true }
        } else if a.ch == ';' && a.joint && second is Some && second->0.ch == ';' {
            Setter { mode: PropMode::FnField, span: second->0.span, taken: 2, args: false, back: true }
        } else if a.ch == ';' {
            Setter { mode: PropMode::Method, span: a.span, taken: 1, args: false, back: true }
        } else {
            Setter { mode: PropMode::Auto, span: CALL_SITE, taken: 0, args: false, back: false }
        },
        None => Setter { mode: PropMode::Auto, span: CALL_SITE, taken: 0, args: false, back: false },
    }
}

/// Whether the punctuation is the given character.
fn is_char(p: Option<Punct>, c: char) -> (r: bool)
    ensures
        r == (p is Some && p->0.ch == c),
{
    match p {
        Some(b) => b.ch == c,
        None => false,
    }
}

/// How a property is set (see [`spec_setter`]).
pub fn setter(first: Option<Punct>, second: Option<Punct>) -> (r: Setter)
    ensures
        r == spec_setter(first, second),
{
    let second_is_eq = is_char(second, '=');
    let second_is_semi = is_char(second, ';');
    let second_span = match second {
        Some(b) => b.span,
        None => CALL_SITE,
    };
    match first {
        Some(a) => if a.ch == '=' {
            Setter { mode: PropMode::Field, span: a.span, taken: 1, args: true, back: false }
        } else if a.ch == ':' && a.joint && second_is_eq {
            Setter { mode: PropMode::FnField, span: second_span, taken: 2, args: true, back: true }
        } else if a.ch == ':' {
            Setter { mode: PropMode::Method, span: a.span, taken: 1, args: true, back: true }
        } else if a.ch == ';' && a.joint && second_is_semi {
            Setter { mode: PropMode::FnField, span: second_span, taken: 2, args: false, back: true }
        } else if a.ch == ';' {
            Setter { mode: PropMode::Method, span: a.span, taken: 1, args: false, back: true }
        } else {
            Setter { mode: PropMode::Auto, span: CALL_SITE, taken: 0, args: false, back: false }
        },
        None => Setter { mode: PropMode::Auto, span: CALL_SITE, taken: 0, args: false, back: false },
    }
}

/// How an item's object is made, read after its braces. An object built
/// from a path with no group of arguments may be a struct literal (`?`);
/// `!` asks for the other way than the default (a path with arguments is
/// built by a builder, one without is made directly), and a `ref` item or
/// a path without arguments defaults to the builder pattern, reported at the
/// braces. Also tells whether the `?` or `!` was taken.
pub open spec fn spec_item_mode(
    is_path: bool,
    has_group: bool,
    next: Option<Punct>,
    brace_span: u64,
) -> (Mode, bool) {
    let literable = is_path && !has_group;
    match next {
        Some(p) if literable && p.ch == '?' => (Mode::StructLiteral(p.span), true),
        Some(p) if p.ch == '!' => if is_path && has_group {
            (Mode::Builder(p.span), true)
        } else {
            (Mode::Normal(p.span), true)
        },
        _ => if is_path && has_group {
            (Mode::Normal(brace_span), false)
        } else {
            (Mode::Builder(brace_span), false)
        },
    }
}

/// How an item's object is made (see [`spec_item_mode`]).
pub fn item_mode(is_path: bool, has_group: bool, next: Option<Punct>, brace_span: u64) -> (r: (Mode, bool))
    ensures
        r == spec_item_mode(is_path, has_group, next, brace_span),
{
    let literable = is_path && !has_group;
    match next {
        Some(p) => {
            if literable && p.ch == '?' {
                return (Mode::StructLiteral(p.span), true);
            }
            if p.ch == '!' {
                if is_path && has_group {
                    return (Mode::Builder(p.span), true);
                } else {
                    return (Mode::Normal(p.span), true);
                }
            }
        },
        None => {},
    }
    if is_path && has_group {
        (Mode::Normal(brace_span), false)
    } else {
        (Mode::Builder(brace_span), false)
    }
}

/// The name of an object: the one written, or else a name made from what
/// the object is named after and the counter, at the span of the braces
/// that follow. Also tells whether the name was made up.
pub fn name_object(written: Option<&Name>, d: Display, counter: &mut usize, brace_span: u64) -> (r: (
    Name,
    bool,
))
    ensures
        match written {
            Some(n) => r.0@ == n@ && !r.1 && *final(counter) == *old(counter),
            None => r.0@ == (NameV {
                text: display_text(d) + decimal(*old(counter) as nat),
                span: brace_span,
            }) && r.1 && *final(counter) == next_count(*old(counter)),
        },
{
    match written {
        Some(n) => (n.dup(), false),
        None => {
            let text = auto_name(d, counter);
            (Name { text, span: brace_span }, true)
        },
    }
}

} // verus!
