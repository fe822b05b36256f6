//! The state an expansion threads through the view, in its exec form.
use vstd::prelude::*;

use crate::diag::{Diag, Fault};
use crate::model::{Attributes, Assignee, FieldDef, StructDef};

use crate::spec::{
    attrs_get, bindings_errors, constr_toks, constrs_rev, diag_at, dotted, dotted_access,
    dotted_from, empty_st, fail, field_toks, fields_toks, mut_toks, push_field, scope_out,
    spanned_diag, struct_toks, tilde_toks, ConstrV, FieldV, St, StructV,
};
use crate::token::{
    close, extend, extend_group, ident, open, punct, push, span_range, sv, Delim, Tok, TokV,
    CALL_SITE,
};

verus! {

/// A construction waiting to be closed.
#[derive(Debug)]
pub enum Construction {
    BuilderPattern { left: Vec<Tok>, right: Vec<Tok>, span: u64, tilde: Option<u64> },
    StructLiteral { left: Vec<Tok>, ty: Vec<Tok>, fields: Vec<Tok>, span: u64, tilde: Option<u64> },
}

impl View for Construction {
    type V = ConstrV;

    open spec fn view(&self) -> ConstrV {
        match self {
            Construction::BuilderPattern { left, right, span, tilde } => ConstrV::Builder {
                left: sv(left@),
                right: sv(right@),
                span: *span,
                tilde: *tilde,
            },
            Construction::StructLiteral { left, ty, fields, span, tilde } => ConstrV::StructLit {
                left: sv(left@),
                ty: sv(ty@),
                fields: sv(fields@),
                span: *span,
                tilde: *tilde,
            },
        }
    }
}

impl View for FieldDef {
    type V = FieldV;

    open spec fn view(&self) -> FieldV {
        FieldV {
            attrs: sv(self.attrs@),
            vis: sv(self.vis@),
            name: self.name@,
            colon: self.colon,
            ty: sv(self.ty@),
            comma: self.comma,
        }
    }
}

/// The values of constructions.
pub open spec fn cv(v: Seq<Construction>) -> Seq<ConstrV> {
    Seq::new(v.len(), |i: int| v[i]@)
}

/// The values of fields.
pub open spec fn fv(v: Seq<FieldDef>) -> Seq<FieldV> {
    Seq::new(v.len(), |i: int| v[i]@)
}

/// The value of optional fields.
pub open spec fn ofv(o: Option<Vec<FieldDef>>) -> Option<Seq<FieldV>> {
    match o {
        Some(v) => Some(fv(v@)),
        None => None,
    }
}

/// The values of token vectors.
pub open spec fn svs(v: Seq<Vec<Tok>>) -> Seq<Seq<TokV>> {
    Seq::new(v.len(), |i: int| sv(v[i]@))
}

/// The state of an expansion.
#[derive(Debug)]
pub struct Out {
    pub objects: Vec<Tok>,
    pub constrs: Vec<Construction>,
    pub settings: Vec<Tok>,
    pub spans: Vec<u64>,
    pub stream: Vec<Tok>,
    pub fields: Option<Vec<FieldDef>>,
}

impl View for Out {
    type V = St;

    open spec fn view(&self) -> St {
        St {
            objects: sv(self.objects@),
            constrs: cv(self.constrs@),
            settings: sv(self.settings@),
            spans: self.spans@,
            stream: sv(self.stream@),
            fields: ofv(self.fields),
        }
    }
}

impl Out {
    /// The state a new scope starts from.
    pub fn new() -> (r: Out)
        ensures
            r@ == empty_st(),
    {
        let r = Out {
            objects: Vec::new(),
            constrs: Vec::new(),
            settings: Vec::new(),
            spans: Vec::new(),
            stream: Vec::new(),
            fields: None,
        };
        assert(r@ =~= empty_st());
        r
    }

    /// Writes the scope out: objects, constructions closed last first,
    /// settings, and an error for each binding left.
    pub fn finish(&self) -> (r: Vec<Tok>)
        ensures
            sv(r@) == scope_out(self@),
    {
        let mut r = self.statements();
        push_bindings_errors(&mut r, &self.spans);
        r
    }

    /// The statements of the expansion: objects, constructions closed last
    /// first, then settings.
    pub fn statements(&self) -> (r: Vec<Tok>)
        ensures
            sv(r@) == sv(self.objects@) + constrs_rev(cv(self.constrs@), self.constrs@.len() as int)
                + sv(self.settings@),
    {
        let mut r = crate::token::copy(&self.objects);
        let mut n = self.constrs.len();
        while n > 0
            invariant
                n <= self.constrs@.len(),
                sv(r@) + constrs_rev(cv(self.constrs@), n as int) == sv(self.objects@) + constrs_rev(
                    cv(self.constrs@),
                    self.constrs@.len() as int,
                ),
            decreases n,
        {
            let ghost before = sv(r@);
            self.constrs[n - 1].extend_into(&mut r);
            assert(cv(self.constrs@)[n - 1] == self.constrs@[n - 1]@);
            n = n - 1;
            assert(before + constrs_rev(cv(self.constrs@), n + 1) == before + constr_toks(
                cv(self.constrs@)[n as int],
            ) + constrs_rev(cv(self.constrs@), n as int));
        }
        extend(&mut r, &self.settings);
        r
    }
}

/// Appends an error for each span.
pub fn push_bindings_errors(out: &mut Vec<Tok>, spans: &Vec<u64>)
    ensures
        sv(final(out)@) == sv(old(out)@) + bindings_errors(spans@),
{
    let mut i: usize = 0;
    while i < spans.len()
        invariant
            i <= spans@.len(),
            sv(out@) == sv(old(out)@) + bindings_errors(spans@.take(i as int)),
        decreases spans@.len() - i,
    {
        push(out, fail_tok(Diag { fault: Fault::BindingsNotConsumed, start: spans[i], end: spans[i] }));
        i = i + 1;
        assert(bindings_errors(spans@.take(i as int)) =~= bindings_errors(spans@.take(i - 1)).push(
            fail(diag_at(Fault::BindingsNotConsumed, spans@[i - 1])),
        ));
    }
    assert(spans@.take(i as int) =~= spans@);
}

/// The token that reports an error.
pub fn fail_tok(d: Diag) -> (r: Tok)
    ensures
        r@ == fail(d),
{
    Tok::Fail { fault: d.fault, start: d.start, end: d.end }
}

/// An error covering the given tokens.
pub fn diag_over(fault: Fault, toks: &Vec<Tok>) -> (r: Diag)
    ensures
        r == spanned_diag(fault, sv(toks@)),
{
    let (start, end) = span_range(toks);
    Diag { fault, start, end }
}

impl Construction {
    /// Appends the statement that closes this construction.
    pub fn extend_into(&self, objects: &mut Vec<Tok>)
        ensures
            sv(final(objects)@) == sv(old(objects)@) + constr_toks(self@),
    {
        match self {
            Construction::BuilderPattern { left, right, span, tilde } => {
                extend(objects, left);
                push(objects, ident("construct", *span));
                punct(objects, '!', *span);
                let mut inner: Vec<Tok> = Vec::new();
                push_tilde(&mut inner, *tilde);
                extend(&mut inner, right);
                extend_group(objects, Delim::Paren, *span, &inner);
            },
            Construction::StructLiteral { left, ty, fields, span, tilde } => {
                extend(objects, left);
                push(objects, ident("construct", *span));
                punct(objects, '!', *span);
                let mut inner: Vec<Tok> = Vec::new();
                punct(&mut inner, '?', *span);
                push_tilde(&mut inner, *tilde);
                extend(&mut inner, ty);
                extend_group(&mut inner, Delim::Brace, *span, fields);
                extend_group(objects, Delim::Paren, *span, &inner);
            },
        }
        punct(objects, ';', CALL_SITE);
        assert(sv(objects@) =~= sv(old(objects)@) + constr_toks(self@));
    }

    /// The construction reported at another span, with another `~`.
    pub fn retilde(self, span: u64, tilde: Option<u64>) -> (r: Construction)
        ensures
            r@ == match self@ {
                ConstrV::Builder { left, right, .. } => ConstrV::Builder { left, right, span, tilde },
                ConstrV::StructLit { left, ty, fields, .. } => ConstrV::StructLit {
                    left,
                    ty,
                    fields,
                    span,
                    tilde,
                },
            },
    {
        match self {
            Construction::BuilderPattern { left, right, .. } => Construction::BuilderPattern {
                left,
                right,
                span,
                tilde,
            },
            Construction::StructLiteral { left, ty, fields, .. } => Construction::StructLiteral {
                left,
                ty,
                fields,
                span,
                tilde,
            },
        }
    }
}

/// Appends the `~` token, if any.
pub fn push_tilde(out: &mut Vec<Tok>, t: Option<u64>)
    ensures
        sv(final(out)@) == sv(old(out)@) + tilde_toks(t),
{
    match t {
        Some(s) => punct(out, '~', s),
        None => {
            assert(sv(out@) =~= sv(old(out)@) + tilde_toks(t));
        },
    }
}

/// Appends the `mut` keyword, if any.
pub fn push_mut(out: &mut Vec<Tok>, m: Option<u64>)
    ensures
        sv(final(out)@) == sv(old(out)@) + mut_toks(m),
{
    match m {
        Some(s) => push(out, ident("mut", s)),
        None => {
            assert(sv(out@) =~= sv(old(out)@) + mut_toks(m));
        },
    }
}

impl Attributes {
    /// The same inherited attributes, as another value to hand down.
    pub fn as_slice(&self) -> (r: Attributes)
        ensures
            r@ == self@,
    {
        match self {
            Attributes::Given(t) => Attributes::Given(crate::token::copy(t)),
            Attributes::Field(i) => Attributes::Field(*i),
        }
    }

    /// A copy of the inherited attributes: those given, or those of the
    /// struct field at the index (none when there is no such field).
    pub fn get(&self, fields: &Option<Vec<FieldDef>>) -> (r: Vec<Tok>)
        ensures
            sv(r@) == attrs_get(self@, ofv(*fields)),
    {
        match self {
            Attributes::Given(t) => crate::token::copy(t),
            Attributes::Field(i) => match fields {
                Some(f) => if *i < f.len() {
                    crate::token::copy(&f[*i].attrs)
                } else {
                    let r: Vec<Tok> = Vec::new();
                    assert(sv(r@) =~= Seq::<TokV>::empty());
                    r
                },
                None => {
                    let r: Vec<Tok> = Vec::new();
                    assert(sv(r@) =~= Seq::<TokV>::empty());
                    r
                },
            },
        }
    }
}

/// Adds a field at the end, giving the previous last field a comma.
pub fn add_field(fs: &mut Vec<FieldDef>, f: FieldDef)
    ensures
        fv(final(fs)@) == push_field(fv(old(fs)@), f@),
{
    let n = fs.len();
    if n > 0 && fs[n - 1].comma.is_none() {
        let mut last = fs.pop().unwrap();
        last.comma = Some(CALL_SITE);
        fs.push(last);
        assert(fv(fs@) =~= fv(old(fs)@).update(n - 1, FieldV { comma: Some(CALL_SITE), ..fv(old(fs)@).last() }));
    }
    fs.push(f);
    assert(fv(fs@) =~= push_field(fv(old(fs)@), f@));
}

impl FieldDef {
    /// A copy of this field.
    pub fn dup(&self) -> (r: FieldDef)
        ensures
            r@ == self@,
    {
        FieldDef {
            attrs: crate::token::copy(&self.attrs),
            vis: crate::token::copy(&self.vis),
            name: self.name.dup(),
            colon: self.colon,
            ty: crate::token::copy(&self.ty),
            comma: self.comma,
        }
    }

    /// Appends the tokens of this field.
    pub fn to_tokens(&self, out: &mut Vec<Tok>)
        ensures
            sv(final(out)@) == sv(old(out)@) + field_toks(self@),
    {
        extend(out, &self.attrs);
        extend(out, &self.vis);
        push(out, self.name.tok());
        punct(out, ':', self.colon);
        extend(out, &self.ty);
        match self.comma {
            Some(c) => punct(out, ',', c),
            None => {},
        }
        assert(sv(out@) =~= sv(old(out)@) + field_toks(self@));
    }
}

/// Appends the tokens of fields `fs[i..]`.
pub fn fields_to_tokens(fs: &Vec<FieldDef>, i: usize, out: &mut Vec<Tok>)
    requires
        i <= fs@.len(),
    ensures
        sv(final(out)@) == sv(old(out)@) + fields_toks(fv(fs@), i as int),
    decreases fs@.len() - i,
{
    if i < fs.len() {
        fs[i].to_tokens(out);
        fields_to_tokens(fs, i + 1, out);
        assert(fv(fs@)[i as int] == fs@[i as int]@);
    } else {
        assert(sv(out@) =~= sv(old(out)@) + fields_toks(fv(fs@), i as int));
    }
}

/// A copy of fields.
pub fn dup_fields(fs: &Vec<FieldDef>) -> (r: Vec<FieldDef>)
    ensures
        fv(r@) == fv(fs@),
{
    let mut r: Vec<FieldDef> = Vec::new();
    let mut i: usize = 0;
    while i < fs.len()
        invariant
            i <= fs@.len(),
            fv(r@) == fv(fs@).take(i as int),
        decreases fs@.len() - i,
    {
        let ghost prev = r@;
        let d = fs[i].dup();
        r.push(d);
        assert(fv(r@) =~= fv(prev).push(fs@[i as int]@));
        i = i + 1;
        assert(fv(r@) =~= fv(fs@).take(i as int));
    }
    assert(fv(fs@).take(i as int) =~= fv(fs@));
    r
}

impl View for StructDef {
    type V = StructV;

    open spec fn view(&self) -> StructV {
        StructV { head: sv(self.head@), brace_span: self.brace_span, fields: fv(self.fields@) }
    }
}

impl StructDef {
    /// Appends the tokens of this struct.
    pub fn to_tokens(&self, out: &mut Vec<Tok>)
        ensures
            sv(final(out)@) == sv(old(out)@) + struct_toks(self@),
    {
        extend(out, &self.head);
        open(out, Delim::Brace, self.brace_span);
        fields_to_tokens(&self.fields, 0, out);
        close(out, Delim::Brace, self.brace_span);
        assert(sv(out@) =~= sv(old(out)@) + struct_toks(self@));
    }

    /// A copy of this struct.
    pub fn dup(&self) -> (r: StructDef)
        ensures
            r@ == self@,
    {
        StructDef { head: crate::token::copy(&self.head), brace_span: self.brace_span, fields: dup_fields(&self.fields) }
    }
}

impl Assignee {
    /// Appends the names of `x.names[j..]` at `span`, each followed by a dot
    /// at `dot`.
    fn dotted_access(x: &crate::path::Access, span: u64, dot: u64, j: usize, out: &mut Vec<Tok>)
        requires
            j <= x.names@.len(),
        ensures
            sv(final(out)@) == sv(old(out)@) + dotted_access(x@, span, dot, j as int),
        decreases x.names@.len() - j,
    {
        if j < x.names.len() {
            push(out, x.names[j].tok_at(span));
            punct(out, '.', dot);
            Self::dotted_access(x, span, dot, j + 1, out);
        } else {
            assert(sv(out@) =~= sv(old(out)@) + dotted_access(x@, span, dot, j as int));
        }
    }

    /// Appends the names of the parts `parts[i..]`.
    fn dotted_from(&self, span: u64, dot: u64, i: usize, out: &mut Vec<Tok>)
        requires
            i <= self.parts@.len(),
        ensures
            sv(final(out)@) == sv(old(out)@) + dotted_from(self@, span, dot, i as int),
        decreases self.parts@.len() - i,
    {
        if i < self.parts.len() {
            Self::dotted_access(&self.parts[i], span, dot, 0, out);
            self.dotted_from(span, dot, i + 1, out);
        } else {
            assert(sv(out@) =~= sv(old(out)@) + dotted_from(self@, span, dot, i as int));
        }
    }

    /// Appends every name of the assignee at `span`, each followed by a dot
    /// at `dot`.
    pub fn dotted(&self, span: u64, dot: u64, out: &mut Vec<Tok>)
        ensures
            sv(final(out)@) == sv(old(out)@) + dotted(self@, span, dot),
    {
        self.dotted_from(span, dot, 0, out);
    }
}

} // verus!
