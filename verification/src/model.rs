//! The parsed view: roots, items, their content and properties.
//!
//! Rust fragments that the view only carries through (attributes, types,
//! conditions, patterns) are kept as tokens. Expressions in which `_` and
//! placeholder macros are replaced are kept as [`Expr`]: their tokens, split
//! where the syntax tree holds an inferred `_`, a macro invocation with a
//! one-identifier path, or a statement.
use vstd::prelude::*;

use crate::path::{Access, AccessV, Name, Path, TypePath};
use crate::token::{sv, Tok, TokV};

verus! {

/// A piece of an expression.
#[derive(Debug)]
pub enum Piece {
    /// Tokens that are left as they are.
    Toks(Vec<Tok>),
    /// A `_` in expression position.
    Infer { span: u64 },
    /// A macro invocation whose path is one identifier, in expression
    /// position (`stmt` false) or as a whole statement (`stmt` true);
    /// `toks` is the whole node, `empty` whether the macro has no tokens.
    Mac { stmt: bool, name: String, name_span: u64, bang_span: u64, empty: bool, toks: Vec<Tok> },
    /// The start of a statement that is not a macro statement.
    StmtOpen,
    /// The end of the statement started by the matching `StmtOpen`.
    StmtClose,
}

/// An expression split into pieces.
#[derive(Debug)]
pub struct Expr {
    pub pieces: Vec<Piece>,
}

/// The value of a piece.
pub enum PieceV {
    Toks(Seq<TokV>),
    Infer { span: u64 },
    Mac { stmt: bool, name: Seq<char>, name_span: u64, bang_span: u64, empty: bool, toks: Seq<TokV> },
    StmtOpen,
    StmtClose,
}

impl View for Piece {
    type V = PieceV;

    open spec fn view(&self) -> PieceV {
        match self {
            Piece::Toks(t) => PieceV::Toks(sv(t@)),
            Piece::Infer { span } => PieceV::Infer { span: *span },
            Piece::Mac { stmt, name, name_span, bang_span, empty, toks } => PieceV::Mac {
                stmt: *stmt,
                name: name@,
                name_span: *name_span,
                bang_span: *bang_span,
                empty: *empty,
                toks: sv(toks@),
            },
            Piece::StmtOpen => PieceV::StmtOpen,
            Piece::StmtClose => PieceV::StmtClose,
        }
    }
}

/// The values of pieces.
pub open spec fn pvs(v: Seq<Piece>) -> Seq<PieceV> {
    Seq::new(v.len(), |i: int| v[i]@)
}

impl View for Expr {
    type V = Seq<PieceV>;

    open spec fn view(&self) -> Seq<PieceV> {
        pvs(self.pieces@)
    }
}

impl Piece {
    /// A copy of this piece.
    pub fn dup(&self) -> (r: Piece)
        ensures
            r@ == self@,
    {
        match self {
            Piece::Toks(t) => Piece::Toks(crate::token::copy(t)),
            Piece::Infer { span } => Piece::Infer { span: *span },
            Piece::Mac { stmt, name, name_span, bang_span, empty, toks } => Piece::Mac {
                stmt: *stmt,
                name: name.clone(),
                name_span: *name_span,
                bang_span: *bang_span,
                empty: *empty,
                toks: crate::token::copy(toks),
            },
            Piece::StmtOpen => Piece::StmtOpen,
            Piece::StmtClose => Piece::StmtClose,
        }
    }
}

/// The name given to an object: visibility (when it becomes a struct field;
/// `ref` gives the empty visibility), `mut`, the name, an optional type, and
/// whether the name was made up.
#[derive(Debug)]
pub struct Field {
    pub vis: Option<Vec<Tok>>,
    pub mut_: Option<u64>,
    pub name: Name,
    pub ty: Option<TypePath>,
    pub auto: bool,
}

/// An object built from a path, optionally called with a group of arguments.
#[derive(Debug)]
pub struct PathObject {
    pub path: Path,
    pub group: Option<Vec<Tok>>,
    pub field: Field,
}

/// What an item stands for: a new object, or an existing one (`ref a.b`).
#[derive(Debug)]
pub enum Object {
    Path(Box<PathObject>),
    Ref(Access),
}

/// How an item's object is made, with the span the construction is
/// reported at.
#[derive(Clone, Copy, Debug, PartialEq, Eq, Structural)]
pub enum Mode {
    Builder(u64),
    Normal(u64),
    StructLiteral(u64),
}

/// An item of the view.
#[derive(Debug)]
pub struct Item {
    pub attrs: Option<Vec<Tok>>,
    pub at_span: u64,
    pub object: Object,
    pub mode: Mode,
    pub body: Vec<Content>,
}

/// The object that a method call returns (`'back`).
#[derive(Debug)]
pub struct Back {
    pub token_span: u64,
    pub field: Field,
    pub body: Vec<Content>,
    pub build: Option<u64>,
}

/// How a property is set.
#[derive(Clone, Copy, Debug, PartialEq, Eq, Structural)]
pub enum PropMode {
    /// `name = value`
    Field,
    /// `name: args`
    Method,
    /// `name := args`, a call of a function held in a field
    FnField,
    /// `name` alone
    Auto,
}

/// A property of an item.
#[derive(Debug)]
pub struct Property {
    pub attrs: Vec<Tok>,
    pub path: Path,
    pub by_ref: Option<u64>,
    pub mut_: Option<u64>,
    pub mode: PropMode,
    pub mode_span: u64,
    pub args: Vec<Expr>,
    pub commas: Vec<u64>,
    pub items: Vec<Item>,
    pub back: Option<Box<Back>>,
}

/// `'bind`, braced or not.
#[derive(Debug)]
pub enum BindMode {
    Unbraced(Content),
    Braced { attrs: Vec<Tok>, brace_span: u64, body: Vec<Content> },
}

/// `'bind` (with `#` when also set at the start).
#[derive(Debug)]
pub struct Bind {
    pub token_span: u64,
    pub init: bool,
    pub mode: BindMode,
}

/// `'bind: if cond { .. }`; `cond` holds the `if` and the condition.
#[derive(Debug)]
pub struct BindColon {
    pub attrs: Vec<Tok>,
    pub token_span: u64,
    pub cond: Vec<Tok>,
    pub brace_span: u64,
    pub body: Vec<Content>,
}

/// `~` with the property that follows and the rest of the body.
#[derive(Debug)]
pub struct Construct {
    pub object: bool,
    pub tilde_span: u64,
    pub last: Option<u64>,
    pub penult: Content,
    pub rest: Vec<Content>,
}

/// `'consume name = expr`.
#[derive(Debug)]
pub struct Consume {
    pub attrs: Vec<Tok>,
    pub token_span: u64,
    pub mut_: Option<u64>,
    pub name: Name,
    pub equal_span: u64,
    pub expr: Expr,
}

/// `ref a.b { .. }`: edits a field of the assignee.
#[derive(Debug)]
pub struct Edit {
    pub attrs: Vec<Tok>,
    pub edit: Access,
    pub body: Vec<Content>,
}

/// One branch of an `if` chain; `head` holds `else`, `if` and the condition
/// as written.
#[derive(Debug)]
pub struct If {
    pub head: Vec<Tok>,
    pub brace_span: u64,
    pub body: Vec<Content>,
}

/// An `if` chain.
#[derive(Debug)]
pub struct IfChain {
    pub attrs: Vec<Tok>,
    pub branches: Vec<If>,
}

/// One arm of a `match`; `guard` holds `if` and the guard, `arrow` the `=>`.
#[derive(Debug)]
pub struct Arm {
    pub attrs: Vec<Tok>,
    pub pat: Vec<Tok>,
    pub guard: Vec<Tok>,
    pub arrow: Vec<Tok>,
    pub brace_span: Option<u64>,
    pub body: Vec<Content>,
}

/// A `match`; `head` holds `match` and the scrutinee.
#[derive(Debug)]
pub struct Match {
    pub attrs: Vec<Tok>,
    pub head: Vec<Tok>,
    pub brace_span: u64,
    pub arms: Vec<Arm>,
}

/// One element of an item's body.
#[derive(Debug)]
pub enum Content {
    Bind(Box<Bind>),
    BindColon(Box<BindColon>),
    Construct(Box<Construct>),
    Consume(Box<Consume>),
    Edit(Box<Edit>),
    If(Box<IfChain>),
    Match(Box<Match>),
    Property(Box<Property>),
}

/// A struct field declared by the view or written by the user; `colon` and
/// `comma` are the spans of the colon after its name and of the comma after
/// it.
#[derive(Debug)]
pub struct FieldDef {
    pub attrs: Vec<Tok>,
    pub vis: Vec<Tok>,
    pub name: Name,
    pub colon: u64,
    pub ty: Vec<Tok>,
    pub comma: Option<u64>,
}

/// A struct with named fields: the tokens before its brace, the brace's
/// span, and the fields.
#[derive(Debug)]
pub struct StructDef {
    pub head: Vec<Tok>,
    pub brace_span: u64,
    pub fields: Vec<FieldDef>,
}

/// One root of a view.
#[derive(Debug)]
pub enum Root {
    Struct(StructDef),
    Item(Item),
}

/// The roots of a view.
#[derive(Debug)]
pub struct Roots {
    pub roots: Vec<Root>,
}

/// The object that properties are set on: a chain of field accesses.
#[derive(Debug)]
pub struct Assignee {
    pub parts: Vec<Access>,
}

/// The value of an assignee.
pub type AssigneeV = Seq<AccessV>;

impl View for Assignee {
    type V = Seq<AccessV>;

    open spec fn view(&self) -> Seq<AccessV> {
        Seq::new(self.parts@.len(), |i: int| self.parts@[i]@)
    }
}

/// The attributes that content inherits from its item: given, or those of
/// the struct field at an index.
#[derive(Debug)]
pub enum Attributes {
    Given(Vec<Tok>),
    Field(usize),
}

/// The value of inherited attributes.
pub enum AttributesV {
    Given(Seq<crate::token::TokV>),
    Field(nat),
}

impl View for Attributes {
    type V = AttributesV;

    open spec fn view(&self) -> AttributesV {
        match self {
            Attributes::Given(a) => AttributesV::Given(crate::token::sv(a@)),
            Attributes::Field(i) => AttributesV::Field(*i as nat),
        }
    }
}

/// The assignee an item stands for.
pub open spec fn item_assignee(it: Item) -> AssigneeV {
    match it.object {
        Object::Ref(a) => seq![a@],
        Object::Path(p) => seq![AccessV { names: seq![p.field.name@], dots: Seq::empty() }],
    }
}

impl Item {
    /// Gives the item its attributes.
    pub fn set_attrs(&mut self, attrs: Vec<Tok>)
        ensures
            final(self).attrs == Some(attrs),
            final(self).at_span == old(self).at_span,
            final(self).object == old(self).object,
            final(self).mode == old(self).mode,
            final(self).body == old(self).body,
    {
        self.attrs = Some(attrs);
    }

    /// The assignee the item stands for.
    pub fn as_assignee(&self) -> (r: Assignee)
        ensures
            r@ == item_assignee(*self),
    {
        let part = match &self.object {
            Object::Ref(a) => a.dup(),
            Object::Path(p) => Access::single(&p.field.name),
        };
        let mut parts: Vec<Access> = Vec::new();
        parts.push(part);
        let r = Assignee { parts };
        assert(r@ =~= item_assignee(*self));
        r
    }
}

impl Assignee {
    /// A copy of this assignee.
    pub fn dup(&self) -> (r: Assignee)
        ensures
            r@ == self@,
    {
        let mut parts: Vec<Access> = Vec::new();
        let mut i: usize = 0;
        while i < self.parts.len()
            invariant
                i <= self.parts@.len(),
                parts@.len() == i,
                forall|k: int| 0 <= k < i ==> #[trigger] parts@[k]@ == self.parts@[k]@,
            decreases self.parts@.len() - i,
        {
            parts.push(self.parts[i].dup());
            i = i + 1;
        }
        let r = Assignee { parts };
        assert(r@ =~= self@);
        r
    }

    /// This assignee followed by a field access.
    pub fn with_field(&self, a: &Access) -> (r: Assignee)
        ensures
            r@ == self@.push(a@),
    {
        let mut r = self.dup();
        r.parts.push(a.dup());
        assert(r@ =~= self@.push(a@));
        r
    }

    /// The assignee made of one name.
    pub fn ident(n: &Name) -> (r: Assignee)
        ensures
            r@ == seq![AccessV { names: seq![n@], dots: Seq::empty() }],
    {
        let mut parts: Vec<Access> = Vec::new();
        parts.push(Access::single(n));
        let r = Assignee { parts };
        assert(r@ =~= seq![AccessV { names: seq![n@], dots: Seq::<u64>::empty() }]);
        r
    }
}

} // verus!
