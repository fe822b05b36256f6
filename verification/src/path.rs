//! Names, type paths and field accesses, and the text they are displayed as.
use vstd::prelude::*;

use crate::token::{extend, id, pn, push, punct, sv, Tok, TokV, CALL_SITE};

verus! {

/// An identifier of the input, with its span.
#[derive(Debug)]
pub struct Name {
    pub text: String,
    pub span: u64,
}

/// One segment of a type path: its identifier, its generic arguments, and
/// the `::` that follows it (empty for the last segment).
#[derive(Debug)]
pub struct Segment {
    pub ident: Name,
    pub args: Vec<Tok>,
    pub sep: Vec<Tok>,
}

/// A type path. For a qualified path (`<T as Trait>::Item`) `leading` holds
/// the qualified prefix and `segs` the segments after it; otherwise `leading`
/// holds the leading `::`, if any.
#[derive(Debug)]
pub struct TypePath {
    pub qself: bool,
    pub leading_colon: bool,
    pub leading: Vec<Tok>,
    pub segs: Vec<Segment>,
}

/// A chain of identifiers joined by dots (`a.b.c`); `dots` holds the span of
/// each dot, one fewer than the names.
#[derive(Debug)]
pub struct Access {
    pub names: Vec<Name>,
    pub dots: Vec<u64>,
}

/// What an item of the view is built from: a type path, or a field access
/// with optional turbofish generics.
#[derive(Debug)]
pub enum Path {
    Type(TypePath),
    Field { access: Access, gens: Option<Vec<Tok>> },
}

/// The value of a name: its text and span.
pub struct NameV {
    pub text: Seq<char>,
    pub span: u64,
}

impl View for Name {
    type V = NameV;

    open spec fn view(&self) -> NameV {
        NameV { text: self.text@, span: self.span }
    }
}

/// The value of a field access.
pub struct AccessV {
    pub names: Seq<NameV>,
    pub dots: Seq<u64>,
}

impl View for Access {
    type V = AccessV;

    open spec fn view(&self) -> AccessV {
        AccessV { names: Seq::new(self.names@.len(), |i: int| self.names@[i]@), dots: self.dots@ }
    }
}

/// The token of a name.
pub open spec fn name_tok(n: NameV) -> TokV {
    id(n.text, n.span)
}

/// The tokens of a path segment.
pub open spec fn seg_toks(s: Segment) -> Seq<TokV> {
    seq![name_tok(s.ident@)] + sv(s.args@) + sv(s.sep@)
}

/// The tokens of the segments `segs[i..]`.
pub open spec fn segs_toks(segs: Seq<Segment>, i: int) -> Seq<TokV>
    decreases segs.len() - i,
{
    if i >= segs.len() || i < 0 {
        Seq::empty()
    } else {
        seg_toks(segs[i]) + segs_toks(segs, i + 1)
    }
}

/// The tokens of a type path.
pub open spec fn type_path_toks(t: TypePath) -> Seq<TokV> {
    sv(t.leading@) + segs_toks(t.segs@, 0)
}

/// The tokens of `names[i..]` joined by their dots.
pub open spec fn access_toks_from(a: AccessV, i: int) -> Seq<TokV>
    decreases a.names.len() - i,
{
    if i >= a.names.len() || i < 0 {
        Seq::empty()
    } else if i == 0 {
        seq![name_tok(a.names[0])] + access_toks_from(a, 1)
    } else {
        seq![pn('.', dot_span(a, i - 1)), name_tok(a.names[i])] + access_toks_from(a, i + 1)
    }
}

/// The span of the dot before name `i + 1`.
pub open spec fn dot_span(a: AccessV, i: int) -> u64 {
    if 0 <= i < a.dots.len() {
        a.dots[i]
    } else {
        CALL_SITE
    }
}

/// The tokens of a field access.
pub open spec fn access_toks(a: AccessV) -> Seq<TokV> {
    access_toks_from(a, 0)
}

/// The tokens of a path.
pub open spec fn path_toks(p: Path) -> Seq<TokV> {
    match p {
        Path::Type(t) => type_path_toks(t),
        Path::Field { access, gens } => access_toks(access@) + match gens {
            Some(g) => sv(g@),
            None => Seq::empty(),
        },
    }
}

/// A path is long when it has more than one segment or a qualified prefix.
pub open spec fn spec_is_long(p: Path) -> bool {
    match p {
        Path::Type(t) => t.segs@.len() > 1 || t.qself,
        Path::Field { .. } => false,
    }
}

/// The span of the last identifier of a path.
pub open spec fn spec_path_span(p: Path) -> u64 {
    match p {
        Path::Type(t) => if t.segs@.len() == 0 {
            CALL_SITE
        } else {
            t.segs@[t.segs@.len() - 1].ident.span
        },
        Path::Field { access, .. } => if access.names@.len() == 0 {
            CALL_SITE
        } else {
            access.names@[access.names@.len() - 1].span
        },
    }
}

/// A type path is a single plain identifier.
pub open spec fn spec_type_is_ident(t: TypePath) -> bool {
    !t.leading_colon && t.segs@.len() == 1 && t.segs@[0].args@.len() == 0
}

impl Name {
    /// A copy of this name.
    pub fn dup(&self) -> (r: Name)
        ensures
            r@ == self@,
    {
        Name { text: self.text.clone(), span: self.span }
    }

    /// The token of this name, at another span.
    pub fn tok_at(&self, span: u64) -> (r: Tok)
        ensures
            r@ == id(self.text@, span),
    {
        Tok::Ident { text: self.text.clone(), span }
    }

    /// The token of this name.
    pub fn tok(&self) -> (r: Tok)
        ensures
            r@ == name_tok(self@),
    {
        self.tok_at(self.span)
    }
}

/// Appends the tokens of `segs[i..]`.
fn extend_segs(dst: &mut Vec<Tok>, segs: &Vec<Segment>, i: usize)
    requires
        i <= segs.len(),
    ensures
        sv(final(dst)@) == sv(old(dst)@) + segs_toks(segs@, i as int),
    decreases segs.len() - i,
{
    if i < segs.len() {
        let ghost before = sv(dst@);
        push(dst, segs[i].ident.tok());
        extend(dst, &segs[i].args);
        extend(dst, &segs[i].sep);
        assert(sv(dst@) == before + seg_toks(segs@[i as int]));
        extend_segs(dst, segs, i + 1);
    } else {
        assert(segs_toks(segs@, i as int) == Seq::<TokV>::empty());
        assert(sv(dst@) == sv(old(dst)@) + segs_toks(segs@, i as int));
    }
}

impl TypePath {
    /// Appends the tokens of this type path.
    pub fn to_tokens(&self, dst: &mut Vec<Tok>)
        ensures
            sv(final(dst)@) == sv(old(dst)@) + type_path_toks(*self),
    {
        extend(dst, &self.leading);
        extend_segs(dst, &self.segs, 0);
    }

    /// Whether this type path is a single plain identifier.
    pub fn is_ident(&self) -> (r: bool)
        ensures
            r == spec_type_is_ident(*self),
    {
        !self.leading_colon && self.segs.len() == 1 && self.segs[0].args.len() == 0
    }
}

impl Access {
    /// A copy of this access.
    pub fn dup(&self) -> (r: Access)
        ensures
            r@ == self@,
    {
        let mut names: Vec<Name> = Vec::new();
        let mut i: usize = 0;
        while i < self.names.len()
            invariant
                i <= self.names@.len(),
                names@.len() == i,
                forall|k: int| 0 <= k < i ==> #[trigger] names@[k]@ == self.names@[k]@,
            decreases self.names@.len() - i,
        {
            names.push(self.names[i].dup());
            i = i + 1;
        }
        let r = Access { names, dots: self.dots.clone() };
        assert(r@.names =~= self@.names);
        r
    }

    /// An access made of one name.
    pub fn single(n: &Name) -> (r: Access)
        ensures
            r@ == (AccessV { names: seq![n@], dots: Seq::empty() }),
    {
        let mut names: Vec<Name> = Vec::new();
        names.push(n.dup());
        let r = Access { names, dots: Vec::new() };
        assert(r@.names =~= seq![n@]);
        r
    }

    /// Appends the tokens of `names[i..]`.
    fn extend_from(&self, dst: &mut Vec<Tok>, i: usize)
        requires
            i <= self.names@.len(),
        ensures
            sv(final(dst)@) == sv(old(dst)@) + access_toks_from(self@, i as int),
        decreases self.names@.len() - i,
    {
        if i < self.names.len() {
            let ghost before = sv(dst@);
            if i > 0 {
                let d = if i - 1 < self.dots.len() {
                    self.dots[i - 1]
                } else {
                    CALL_SITE
                };
                punct(dst, '.', d);
            }
            push(dst, self.names[i].tok());
            self.extend_from(dst, i + 1);
        } else {
            assert(sv(dst@) == sv(old(dst)@) + access_toks_from(self@, i as int));
        }
    }

    /// Appends the tokens of this access.
    pub fn to_tokens(&self, dst: &mut Vec<Tok>)
        ensures
            sv(final(dst)@) == sv(old(dst)@) + access_toks(self@),
    {
        self.extend_from(dst, 0);
    }
}

impl Path {
    /// Appends the tokens of this path.
    pub fn to_tokens(&self, dst: &mut Vec<Tok>)
        ensures
            sv(final(dst)@) == sv(old(dst)@) + path_toks(*self),
    {
        match self {
            Path::Type(t) => t.to_tokens(dst),
            Path::Field { access, gens } => {
                access.to_tokens(dst);
                match gens {
                    Some(g) => extend(dst, g),
                    None => {},
                }
            },
        }
    }

    /// Whether the path has more than one segment or a qualified prefix.
    pub fn is_long(&self) -> (r: bool)
        ensures
            r == spec_is_long(*self),
    {
        match self {
            Path::Type(t) => t.segs.len() > 1 || t.qself,
            Path::Field { .. } => false,
        }
    }

    /// The span of the last identifier of the path.
    pub fn span(&self) -> (r: u64)
        ensures
            r == spec_path_span(*self),
    {
        match self {
            Path::Type(t) => if t.segs.len() == 0 {
                CALL_SITE
            } else {
                t.segs[t.segs.len() - 1].ident.span
            },
            Path::Field { access, .. } => if access.names.len() == 0 {
                CALL_SITE
            } else {
                access.names[access.names.len() - 1].span
            },
        }
    }
}

} // verus!
