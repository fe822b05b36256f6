//! The compile errors that an expansion can report.
use vstd::prelude::*;

verus! {

/// What went wrong.
#[derive(Clone, Copy, Debug, PartialEq, Eq, Structural)]
pub enum Fault {
    /// `block!` was called with no tokens.
    NoContent,
    /// A `view!` inside an item has no tokens.
    ViewNoContent,
    /// `#[view]` found no view to expand.
    NoView,
    /// Bindings were declared and never consumed.
    BindingsNotConsumed,
    /// A view was never placed with `expand_view_here!`.
    ViewNotConsumed,
    /// A root struct is not followed by an item.
    StructsFollowedByItems,
    /// More `_` placeholders than items to put there.
    NotEnoughItems,
    /// A placeholder macro was given tokens.
    PlaceholderContent,
    /// An item of a property has no `_` to stand in.
    UnderscoreMissing,
    /// A property whose assignee went to a `_` uses `=` or `:=`.
    UseColon,
    /// `&mut` before a property whose assignee went to a `_`.
    RefMutUnderscore,
    /// `&` before a property whose assignee went to a `_`.
    RefUnderscore,
    /// A struct-literal field with more than one argument.
    MultipleArgs,
    /// A struct-literal field with generics.
    FieldGenerics,
    /// A second `~` construction in one item.
    ConstrOnlyOnce,
    /// A long path in the initial content of a construction.
    ConstrLongPath,
    /// Attributes in the initial content of a construction.
    ConstrAttributes,
    /// `'back` in the initial content of a construction.
    ConstrBack,
    /// `=`, `:=` or `;;` in the initial content of a construction.
    ConstrColonOrSemicolon,
    /// `'consume` with nothing to consume.
    NoBindingsToConsume,
    /// A visibility with no struct to hold the field.
    NoField,
    /// A field whose type cannot be told from its path.
    NoType,
    /// The reader could not read a view; the reader's own message tells why.
    Syntax,
    /// No expression where one must stand.
    ExpectedExpr,
    /// No type where one must stand.
    ExpectedType,
    /// No pattern where one must stand.
    ExpectedPattern,
    /// Attributes that cannot be read.
    ExpectedAttributes,
    /// No identifier where one must stand.
    ExpectedIdent,
    /// No braces where a body must stand.
    ExpectedBraces,
    /// No `if` after `'bind:`.
    ExpectedIf,
    /// No `=` in a `'consume`.
    ExpectedEq,
    /// No `=>` in a `match` arm.
    ExpectedArrow,
    /// No `:` after a struct field's name.
    ExpectedColon,
    /// No `@` before an item of a property.
    ExpectedAt,
    /// A root struct that cannot be read.
    ExpectedStruct,
    /// A root struct without named fields.
    StructNeedsBraces,
    /// A lifetime that starts no content; its name follows in the message.
    UnexpectedLifetime,
}

/// A compile error and the span range it covers.
#[derive(Clone, Copy, Debug, PartialEq, Eq, Structural)]
pub struct Diag {
    pub fault: Fault,
    pub start: u64,
    pub end: u64,
}

/// A span range, from the first span to the second.
#[derive(Clone, Copy, Debug, PartialEq, Eq, Structural)]
pub struct Range(pub u64, pub u64);

impl Range {
    /// A compile error covering this range.
    pub fn error(self, fault: Fault) -> (r: Diag)
        ensures
            r == (Diag { fault, start: self.0, end: self.1 }),
    {
        Diag { fault, start: self.0, end: self.1 }
    }
}

/// The words that follow each construction error.
pub open spec fn constr_suffix() -> Seq<char> {
    " in the initial content of an item whose definition should be expanded in a builder pattern or a struct literal"@
}

/// The text of each error.
pub open spec fn fault_text(f: Fault) -> Seq<char> {
    match f {
        Fault::NoContent => "this view block has no content"@,
        Fault::ViewNoContent => "this view has no content"@,
        Fault::NoView => "if no view code is written as the content of this attribute, at least one view must be created with `view!` in the scope of a `mod`, `impl` or `trait`"@,
        Fault::BindingsNotConsumed => "bindings must be consumed with the `bindings!` placeholder macro"@,
        Fault::ViewNotConsumed => "views must be consumed with the `expand_view_here!` placeholder macro"@,
        Fault::StructsFollowedByItems => "structs must be followed by items"@,
        Fault::NotEnoughItems => "not enough items for as many placeholders as this one"@,
        Fault::PlaceholderContent => "this placeholder must have no content"@,
        Fault::UnderscoreMissing => "an underscore is missing for this item"@,
        Fault::UseColon => "use `:` instead of `=` or `:=`"@,
        Fault::RefMutUnderscore => "cannot use `&mut` with an extra underscore"@,
        Fault::RefUnderscore => "cannot use `&` with an extra underscore"@,
        Fault::MultipleArgs => "cannot give multiple arguments"@,
        Fault::FieldGenerics => "cannot give generics to struct fields"@,
        Fault::ConstrOnlyOnce => "only allowed once"@ + constr_suffix(),
        Fault::ConstrLongPath => "cannot use long path"@ + constr_suffix(),
        Fault::ConstrAttributes => "cannot use attributes"@ + constr_suffix(),
        Fault::ConstrBack => "cannot use 'back"@ + constr_suffix(),
        Fault::ConstrColonOrSemicolon => "can only use colon or single semicolon"@ + constr_suffix(),
        Fault::NoBindingsToConsume => "there are no bindings to consume or you are trying from an inner binding or conditional scope"@,
        Fault::NoField => "a visibility cannot be specified if a struct has not been declared before the root item or within a binding or conditional scope"@,
        Fault::NoType => "a type must be specified after the name (e.g. `some_name as SomeType`)"@,
        Fault::Syntax => "this view could not be read"@,
        Fault::ExpectedExpr => "expected an expression"@,
        Fault::ExpectedType => "expected a type"@,
        Fault::ExpectedPattern => "expected a pattern"@,
        Fault::ExpectedAttributes => "expected attributes"@,
        Fault::ExpectedIdent => "expected an identifier"@,
        Fault::ExpectedBraces => "expected braces"@,
        Fault::ExpectedIf => "expected `if`"@,
        Fault::ExpectedEq => "expected `=`"@,
        Fault::ExpectedArrow => "expected `=>`"@,
        Fault::ExpectedColon => "expected `:`"@,
        Fault::ExpectedAt => "expected `@`"@,
        Fault::ExpectedStruct => "expected a struct"@,
        Fault::StructNeedsBraces => "must be a struct with braces (named fields)"@,
        Fault::UnexpectedLifetime => "expected 'bind, 'consume or maybe 'back"@,
    }
}

impl Fault {
    /// The text of this error.
    pub fn message(&self) -> (r: String)
        ensures
            r@ == fault_text(*self),
    {
        let mut r = match self {
            Fault::NoContent => String::from_str("this view block has no content"),
            Fault::ViewNoContent => String::from_str("this view has no content"),
            Fault::NoView => String::from_str("if no view code is written as the content of this attribute, at least one view must be created with `view!` in the scope of a `mod`, `impl` or `trait`"),
            Fault::BindingsNotConsumed => String::from_str("bindings must be consumed with the `bindings!` placeholder macro"),
            Fault::ViewNotConsumed => String::from_str("views must be consumed with the `expand_view_here!` placeholder macro"),
            Fault::StructsFollowedByItems => String::from_str("structs must be followed by items"),
            Fault::NotEnoughItems => String::from_str("not enough items for as many placeholders as this one"),
            Fault::PlaceholderContent => String::from_str("this placeholder must have no content"),
            Fault::UnderscoreMissing => String::from_str("an underscore is missing for this item"),
            Fault::UseColon => String::from_str("use `:` instead of `=` or `:=`"),
            Fault::RefMutUnderscore => String::from_str("cannot use `&mut` with an extra underscore"),
            Fault::RefUnderscore => String::from_str("cannot use `&` with an extra underscore"),
            Fault::MultipleArgs => String::from_str("cannot give multiple arguments"),
            Fault::FieldGenerics => String::from_str("cannot give generics to struct fields"),
            Fault::ConstrOnlyOnce => String::from_str("only allowed once"),
            Fault::ConstrLongPath => String::from_str("cannot use long path"),
            Fault::ConstrAttributes => String::from_str("cannot use attributes"),
            Fault::ConstrBack => String::from_str("cannot use 'back"),
            Fault::ConstrColonOrSemicolon => String::from_str("can only use colon or single semicolon"),
            Fault::NoBindingsToConsume => String::from_str("there are no bindings to consume or you are trying from an inner binding or conditional scope"),
            Fault::NoField => String::from_str("a visibility cannot be specified if a struct has not been declared before the root item or within a binding or conditional scope"),
            Fault::NoType => String::from_str("a type must be specified after the name (e.g. `some_name as SomeType`)"),
            Fault::Syntax => String::from_str("this view could not be read"),
            Fault::ExpectedExpr => String::from_str("expected an expression"),
            Fault::ExpectedType => String::from_str("expected a type"),
            Fault::ExpectedPattern => String::from_str("expected a pattern"),
            Fault::ExpectedAttributes => String::from_str("expected attributes"),
            Fault::ExpectedIdent => String::from_str("expected an identifier"),
            Fault::ExpectedBraces => String::from_str("expected braces"),
            Fault::ExpectedIf => String::from_str("expected `if`"),
            Fault::ExpectedEq => String::from_str("expected `=`"),
            Fault::ExpectedArrow => String::from_str("expected `=>`"),
            Fault::ExpectedColon => String::from_str("expected `:`"),
            Fault::ExpectedAt => String::from_str("expected `@`"),
            Fault::ExpectedStruct => String::from_str("expected a struct"),
            Fault::StructNeedsBraces => String::from_str("must be a struct with braces (named fields)"),
            Fault::UnexpectedLifetime => String::from_str("expected 'bind, 'consume or maybe 'back"),
        };
        match self {
            Fault::ConstrOnlyOnce | Fault::ConstrLongPath | Fault::ConstrAttributes
            | Fault::ConstrBack | Fault::ConstrColonOrSemicolon => {
                r.append(" in the initial content of an item whose definition should be expanded in a builder pattern or a struct literal");
            },
            _ => {},
        }
        r
    }
}

} // verus!
