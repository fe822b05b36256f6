//! What an expansion writes, stated as functions over the values of the
//! parsed view.
//!
//! An expansion threads a state through the view: `objects` (statements that
//! create objects), `constrs` (constructions waiting to be closed),
//! `settings` (statements that set properties), the spans and stream of the
//! pending bindings, and the fields of the struct being declared, if any.
use vstd::prelude::*;

use crate::diag::{Diag, Fault};
use crate::model::{
    Arm, AssigneeV, AttributesV, Back, Bind, BindColon, BindMode, Consume, Construct, Content, Edit,
    Expr, Field, If, IfChain, Item, Match, Mode, Object, PathObject, PropMode, Property,
    item_assignee,
};
use crate::path::{
    access_toks, path_toks, segs_toks, spec_is_long, spec_path_span, spec_type_is_ident,
    type_path_toks, AccessV, NameV, Path, name_tok,
};
use crate::token::{first_span, group, id, last_span, pj, pn, sv, Delim, TokV, CALL_SITE};
use crate::visit::{asg_toks, spanned, visit, VisitV};

verus! {

/// The value of a struct field.
#[verifier::ext_equal]
pub struct FieldV {
    pub attrs: Seq<TokV>,
    pub vis: Seq<TokV>,
    pub name: NameV,
    pub colon: u64,
    pub ty: Seq<TokV>,
    pub comma: Option<u64>,
}

/// The value of a struct declared by the view: the tokens before its brace,
/// the brace's span, and its fields.
#[verifier::ext_equal]
pub struct StructV {
    pub head: Seq<TokV>,
    pub brace_span: u64,
    pub fields: Seq<FieldV>,
}

/// The tokens of a struct.
pub open spec fn struct_toks(s: StructV) -> Seq<TokV> {
    s.head + group(Delim::Brace, s.brace_span, fields_toks(s.fields, 0))
}

/// A construction waiting to be closed: a builder pattern (`left` then the
/// builder and its calls in `right`) or a struct literal (`left`, the type,
/// and the fields).
#[verifier::ext_equal]
pub enum ConstrV {
    Builder { left: Seq<TokV>, right: Seq<TokV>, span: u64, tilde: Option<u64> },
    StructLit { left: Seq<TokV>, ty: Seq<TokV>, fields: Seq<TokV>, span: u64, tilde: Option<u64> },
}

/// The state an expansion threads through the view.
#[verifier::ext_equal]
pub struct St {
    pub objects: Seq<TokV>,
    pub constrs: Seq<ConstrV>,
    pub settings: Seq<TokV>,
    pub spans: Seq<u64>,
    pub stream: Seq<TokV>,
    pub fields: Option<Seq<FieldV>>,
}

/// The state a new scope starts from.
pub open spec fn empty_st() -> St {
    St {
        objects: Seq::empty(),
        constrs: Seq::empty(),
        settings: Seq::empty(),
        spans: Seq::empty(),
        stream: Seq::empty(),
        fields: None,
    }
}

/// A compile error covering the given tokens.
pub open spec fn spanned_diag(fault: Fault, toks: Seq<TokV>) -> Diag {
    Diag { fault, start: first_span(toks), end: last_span(toks) }
}

/// A compile error at one span.
pub open spec fn diag_at(fault: Fault, span: u64) -> Diag {
    Diag { fault, start: span, end: span }
}

/// The token that reports an error.
pub open spec fn fail(d: Diag) -> TokV {
    TokV::Fail { fault: d.fault, start: d.start, end: d.end }
}

/// The `mut` keyword, if present.
pub open spec fn mut_toks(m: Option<u64>) -> Seq<TokV> {
    match m {
        Some(s) => seq![id("mut"@, s)],
        None => Seq::empty(),
    }
}

/// The `~` token, if present.
pub open spec fn tilde_toks(t: Option<u64>) -> Seq<TokV> {
    match t {
        Some(s) => seq![pn('~', s)],
        None => Seq::empty(),
    }
}

/// Optional tokens.
pub open spec fn opt_toks(o: Option<Seq<TokV>>) -> Seq<TokV> {
    match o {
        Some(t) => t,
        None => Seq::empty(),
    }
}

/// The inherited attributes.
pub open spec fn attrs_get(a: AttributesV, fields: Option<Seq<FieldV>>) -> Seq<TokV> {
    match a {
        AttributesV::Given(t) => t,
        AttributesV::Field(i) => match fields {
            Some(f) => if i < f.len() {
                f[i as int].attrs
            } else {
                Seq::empty()
            },
            None => Seq::empty(),
        },
    }
}

/// The statement that closes a construction.
pub open spec fn constr_toks(c: ConstrV) -> Seq<TokV> {
    match c {
        ConstrV::Builder { left, right, span, tilde } => left + seq![
            id("construct"@, span),
            pn('!', span),
        ] + group(Delim::Paren, span, tilde_toks(tilde) + right) + seq![pn(';', CALL_SITE)],
        ConstrV::StructLit { left, ty, fields, span, tilde } => left + seq![
            id("construct"@, span),
            pn('!', span),
        ] + group(
            Delim::Paren,
            span,
            seq![pn('?', span)] + tilde_toks(tilde) + ty + group(Delim::Brace, span, fields),
        ) + seq![pn(';', CALL_SITE)],
    }
}

/// The statements that close `cs[..n]`, the last one first.
pub open spec fn constrs_rev(cs: Seq<ConstrV>, n: int) -> Seq<TokV>
    decreases n,
{
    if n <= 0 || n > cs.len() {
        Seq::empty()
    } else {
        constr_toks(cs[n - 1]) + constrs_rev(cs, n - 1)
    }
}

/// One error for each binding that was never consumed.
pub open spec fn bindings_errors(spans: Seq<u64>) -> Seq<TokV> {
    Seq::new(spans.len(), |i: int| fail(diag_at(Fault::BindingsNotConsumed, spans[i])))
}

/// What a scope writes once its content is expanded: the objects, the
/// constructions closed in reverse order, the settings, and an error for each
/// binding left.
pub open spec fn scope_out(st: St) -> Seq<TokV> {
    st.objects + constrs_rev(st.constrs, st.constrs.len() as int) + st.settings + bindings_errors(
        st.spans,
    )
}

/// The tokens of a struct field.
pub open spec fn field_toks(f: FieldV) -> Seq<TokV> {
    f.attrs + f.vis + seq![name_tok(f.name), pn(':', f.colon)] + f.ty + match f.comma {
        Some(c) => seq![pn(',', c)],
        None => Seq::empty(),
    }
}

/// The tokens of `fs[i..]`.
pub open spec fn fields_toks(fs: Seq<FieldV>, i: int) -> Seq<TokV>
    decreases fs.len() - i,
{
    if i < 0 || i >= fs.len() {
        Seq::empty()
    } else {
        field_toks(fs[i]) + fields_toks(fs, i + 1)
    }
}

/// Adds a field at the end, giving the previous last field a comma.
pub open spec fn push_field(fs: Seq<FieldV>, f: FieldV) -> Seq<FieldV> {
    if fs.len() > 0 && fs.last().comma is None {
        fs.update(fs.len() - 1, FieldV { comma: Some(CALL_SITE), ..fs.last() }).push(f)
    } else {
        fs.push(f)
    }
}

/// Whether content may close its construction with no name given
/// (`'back` objects whose body starts and ends with such content need no
/// `let`).
pub open spec fn spec_builds(c: Option<Content>) -> bool {
    match c {
        None => true,
        Some(c) => match c {
            Content::Bind(_) | Content::BindColon(_) | Content::Edit(_) | Content::If(_)
            | Content::Match(_) => false,
            Content::Consume(_) | Content::Property(_) => true,
            Content::Construct(b) => b.rest@.len() == 0,
        },
    }
}

/// The assignee made of one name.
pub open spec fn name_asg(n: NameV) -> AssigneeV {
    seq![AccessV { names: seq![n], dots: Seq::empty() }]
}

/// The tokens of a type path without its last segment.
pub open spec fn popped_toks(t: crate::path::TypePath) -> Seq<TokV> {
    sv(t.leading@) + segs_toks(t.segs@.drop_last(), 0)
}

/// The type a new struct field gets: the one given, else the path of a type
/// made with no arguments, else that path without its last segment (the
/// name of a constructor); an error when neither applies.
pub open spec fn field_type(po: PathObject) -> Result<Seq<TokV>, Diag> {
    match po.field.ty {
        Some(t) => Ok(type_path_toks(t)),
        None => match po.path {
            Path::Type(t) => if po.group is None {
                Ok(type_path_toks(t))
            } else if t.segs@.len() > 1 {
                Ok(popped_toks(t))
            } else {
                Err(spanned_diag(Fault::NoType, path_toks(po.path) + opt_toks(opt_sv(po.group))))
            },
            Path::Field { .. } => Err(
                spanned_diag(Fault::NoType, path_toks(po.path) + opt_toks(opt_sv(po.group))),
            ),
        },
    }
}

/// The value of optional tokens.
pub open spec fn opt_sv(o: Option<Vec<crate::token::Tok>>) -> Option<Seq<TokV>> {
    match o {
        Some(v) => Some(sv(v@)),
        None => None,
    }
}

/// The tokens of an optional type.
pub open spec fn opt_ty_toks(t: Option<crate::path::TypePath>) -> Seq<TokV> {
    match t {
        Some(t) => type_path_toks(t),
        None => Seq::empty(),
    }
}

/// What the `let` of an object starts with.
pub open spec fn let_left(attrs: Seq<TokV>, let_span: u64, f: Field) -> Seq<TokV> {
    attrs + seq![id("let"@, let_span)] + mut_toks(f.mut_) + seq![name_tok(f.name@), pn('=', CALL_SITE)]
}

/// What creating an item's object adds: a construction to close later (for
/// a builder or a struct literal), or a `let` statement; with the index of
/// the construction.
#[verifier::opaque]
pub open spec fn item_start(po: PathObject, mode: Mode, at_span: u64, attrs: Seq<TokV>, st: St) -> (
    St,
    Option<nat>,
) {
    let f = po.field;
    let left = let_left(attrs, at_span, f);
    match mode {
        Mode::Builder(span) => (
            St {
                constrs: st.constrs.push(
                    ConstrV::Builder {
                        left,
                        right: match po.group {
                            Some(g) => path_toks(po.path) + sv(g@),
                            None => path_toks(po.path) + seq![pj('=', span), pn('>', span)],
                        },
                        span,
                        tilde: None,
                    },
                ),
                ..st
            },
            Some(st.constrs.len()),
        ),
        Mode::StructLiteral(q) => (
            St {
                constrs: st.constrs.push(
                    ConstrV::StructLit {
                        left,
                        ty: path_toks(po.path),
                        fields: Seq::empty(),
                        span: q,
                        tilde: None,
                    },
                ),
                ..st
            },
            Some(st.constrs.len()),
        ),
        Mode::Normal(span) => (
            St {
                objects: st.objects + match po.group {
                    None => attrs + seq![id("let"@, at_span)] + mut_toks(f.mut_) + seq![
                        name_tok(f.name@),
                        pn('=', span),
                        id("construct"@, span),
                        pn('!', span),
                    ] + group(Delim::Paren, span, seq![pn('?', span)] + path_toks(po.path)),
                    Some(g) => left + path_toks(po.path) + sv(g@),
                } + seq![pn(';', CALL_SITE)],
                ..st
            },
            None,
        ),
    }
}

/// An item: creates its object (or names an existing one), declares it as a
/// struct field when it has a visibility, then expands its body with the
/// object as assignee. `own` is the item's own attributes.
pub open spec fn spec_item(it: Item, own: Seq<TokV>, st: St, pattrs: AttributesV) -> Result<St, Diag>
    decreases it, 1nat,
{
    let attrs = attrs_get(pattrs, st.fields) + own;
    match it.object {
        Object::Path(po) => {
            let f = po.field;
            let (st1, constr) = item_start(*po, it.mode, it.at_span, attrs, st);
            let asg = name_asg(f.name@);
            match f.vis {
                Some(vis) => match st1.fields {
                    None => Err(spanned_diag(Fault::NoField, sv(vis@) + opt_ty_toks(f.ty))),
                    Some(fs) => match field_type(*po) {
                        Err(e) => Err(e),
                        Ok(ty) => spec_body(
                            it.body@,
                            0,
                            St {
                                fields: Some(
                                    push_field(
                                        fs,
                                        FieldV { attrs, vis: sv(vis@), name: f.name@, colon: CALL_SITE, ty, comma: None },
                                    ),
                                ),
                                ..st1
                            },
                            AttributesV::Field(fs.len()),
                            asg,
                            constr,
                        ),
                    },
                },
                None => spec_body(it.body@, 0, st1, AttributesV::Given(attrs), asg, constr),
            }
        },
        Object::Ref(a) => spec_body(
            it.body@,
            0,
            St {
                settings: st.settings + attrs + seq![
                    id("let"@, it.at_span),
                    id("_"@, CALL_SITE),
                    pn('=', CALL_SITE),
                ] + access_toks(a@) + seq![pn(';', CALL_SITE)],
                ..st
            },
            AttributesV::Given(attrs),
            seq![a@],
            None,
        ),
    }
}

/// The items `items[i..]` of a property, each with the property's attributes.
pub open spec fn spec_items(items: Seq<Item>, i: int, own: Seq<TokV>, st: St, pattrs: AttributesV) -> Result<
    St,
    Diag,
>
    decreases items, items.len() - i,
{
    if i < 0 || i >= items.len() {
        Ok(st)
    } else {
        match spec_item(items[i], own, st, pattrs) {
            Ok(s) => spec_items(items, i + 1, own, s, pattrs),
            Err(e) => Err(e),
        }
    }
}

/// The content `body[i..]`, in order; the first error stops it.
pub open spec fn spec_body(
    body: Seq<Content>,
    i: int,
    st: St,
    pattrs: AttributesV,
    asg: AssigneeV,
    constr: Option<nat>,
) -> Result<St, Diag>
    decreases body, body.len() - i,
{
    if i < 0 || i >= body.len() {
        Ok(st)
    } else {
        match spec_content(body[i], st, pattrs, asg, constr) {
            Ok(s) => spec_body(body, i + 1, s, pattrs, asg, constr),
            Err(e) => Err(e),
        }
    }
}

/// A scope over `body`: expanded from a fresh state with the given
/// attributes, and written out as a whole.
pub open spec fn spec_scope(body: Seq<Content>, attrs: Seq<TokV>, asg: AssigneeV) -> Result<
    Seq<TokV>,
    Diag,
>
    decreases body, body.len() + 1,
{
    match spec_body(body, 0, empty_st(), AttributesV::Given(attrs), asg, None) {
        Ok(s) => Ok(scope_out(s)),
        Err(e) => Err(e),
    }
}

/// A scope over one content.
pub open spec fn spec_scope1(c: Content, attrs: Seq<TokV>, asg: AssigneeV) -> Result<
    Seq<TokV>,
    Diag,
>
    decreases c, 2nat,
{
    match spec_content(c, empty_st(), AttributesV::Given(attrs), asg, None) {
        Ok(s) => Ok(scope_out(s)),
        Err(e) => Err(e),
    }
}

/// The branches `bs[i..]` of an `if` chain, each with its body in a scope.
pub open spec fn spec_ifs(bs: Seq<If>, i: int, settings: Seq<TokV>, asg: AssigneeV) -> Result<
    Seq<TokV>,
    Diag,
>
    decreases bs, bs.len() - i,
{
    if i < 0 || i >= bs.len() {
        Ok(settings)
    } else {
        match spec_scope(bs[i].body@, Seq::empty(), asg) {
            Ok(inner) => spec_ifs(
                bs,
                i + 1,
                settings + sv(bs[i].head@) + group(Delim::Brace, bs[i].brace_span, inner),
                asg,
            ),
            Err(e) => Err(e),
        }
    }
}

/// The arms `arms[i..]` of a `match`, each with its body in a scope.
pub open spec fn spec_arms(arms: Seq<Arm>, i: int, acc: Seq<TokV>, asg: AssigneeV) -> Result<
    Seq<TokV>,
    Diag,
>
    decreases arms, arms.len() - i,
{
    if i < 0 || i >= arms.len() {
        Ok(acc)
    } else {
        let a = arms[i];
        match spec_scope(a.body@, Seq::empty(), asg) {
            Ok(inner) => spec_arms(
                arms,
                i + 1,
                acc + sv(a.attrs@) + sv(a.pat@) + sv(a.guard@) + sv(a.arrow@) + group(
                    Delim::Brace,
                    match a.brace_span {
                        Some(s) => s,
                        None => CALL_SITE,
                    },
                    inner,
                ),
                asg,
            ),
            Err(e) => Err(e),
        }
    }
}

/// One content of a body.
pub open spec fn spec_content(
    c: Content,
    st: St,
    pattrs: AttributesV,
    asg: AssigneeV,
    constr: Option<nat>,
) -> Result<St, Diag>
    decreases c, 1nat,
{
    match c {
        Content::Bind(b) => spec_bind(*b, st, pattrs, asg),
        Content::BindColon(b) => spec_bind_colon(*b, st, pattrs, asg),
        Content::Construct(k) => spec_construct(*k, st, pattrs, asg, constr),
        Content::Consume(k) => spec_consume(*k, st, pattrs),
        Content::Edit(e) => spec_edit(*e, st, pattrs, asg),
        Content::If(chain) => spec_if(*chain, st, pattrs, asg),
        Content::Match(m) => spec_match(*m, st, pattrs, asg),
        Content::Property(p) => spec_property(*p, st, pattrs, asg, constr),
    }
}

/// `'bind`: a scope added to the bindings' stream (and to the settings too
/// when marked with `#`), its span recorded until consumed.
pub open spec fn spec_bind(b: Bind, st: St, pattrs: AttributesV, asg: AssigneeV) -> Result<St, Diag>
    decreases b, 0nat,
{
    let pa = attrs_get(pattrs, st.fields);
    let spans = st.spans.push(b.token_span);
    match b.mode {
        BindMode::Braced { attrs, brace_span, body } => match spec_scope(body@, Seq::empty(), asg) {
            Ok(inner) => {
                let toks = pa + sv(attrs@) + group(Delim::Brace, brace_span, inner);
                Ok(
                    St {
                        spans,
                        settings: if b.init {
                            st.settings + toks
                        } else {
                            st.settings
                        },
                        stream: st.stream + toks,
                        ..st
                    },
                )
            },
            Err(e) => Err(e),
        },
        BindMode::Unbraced(inner_c) => match spec_scope1(inner_c, pa, asg) {
            Ok(inner) => Ok(
                St {
                    spans,
                    settings: if b.init {
                        st.settings + inner
                    } else {
                        st.settings
                    },
                    stream: st.stream + inner,
                    ..st
                },
            ),
            Err(e) => Err(e),
        },
    }
}

/// `'bind: if cond { .. }`: the conditional scope goes to the bindings'
/// stream, the scope alone to the settings.
pub open spec fn spec_bind_colon(b: BindColon, st: St, pattrs: AttributesV, asg: AssigneeV) -> Result<
    St,
    Diag,
>
    decreases b, 0nat,
{
    let pa = attrs_get(pattrs, st.fields);
    match spec_scope(b.body@, Seq::empty(), asg) {
        Ok(inner) => {
            let body = group(Delim::Brace, b.brace_span, inner);
            Ok(
                St {
                    spans: st.spans.push(b.token_span),
                    stream: st.stream + pa + sv(b.attrs@) + sv(b.cond@) + body,
                    settings: st.settings + pa + sv(b.attrs@) + body,
                    ..st
                },
            )
        },
        Err(e) => Err(e),
    }
}

/// A construction with its `~` (and the second `~`, if any) moved to the
/// given span.
pub open spec fn retilde(c: ConstrV, span: u64, tilde: Option<u64>) -> ConstrV {
    match c {
        ConstrV::Builder { left, right, .. } => ConstrV::Builder { left, right, span, tilde },
        ConstrV::StructLit { left, ty, fields, .. } => ConstrV::StructLit {
            left,
            ty,
            fields,
            span,
            tilde,
        },
    }
}

/// `~`: allowed once, in an item that is constructed. The construction is
/// reported at the `~`; the property after it is part of the construction;
/// with `/` the construction is closed at once; the rest of the body is no
/// longer part of it.
pub open spec fn spec_construct(
    k: Construct,
    st: St,
    pattrs: AttributesV,
    asg: AssigneeV,
    constr: Option<nat>,
) -> Result<St, Diag>
    decreases k, 0nat,
{
    match constr {
        Some(idx) if idx < st.constrs.len() => {
            let st1 = St {
                constrs: st.constrs.update(
                    idx as int,
                    retilde(st.constrs[idx as int], k.tilde_span, k.last),
                ),
                ..st
            };
            match spec_content(k.penult, st1, pattrs, asg, constr) {
                Ok(st2) => {
                    let st3 = if k.object && idx < st2.constrs.len() {
                        St {
                            objects: st2.objects + constr_toks(st2.constrs[idx as int]),
                            constrs: st2.constrs.remove(idx as int),
                            ..st2
                        }
                    } else {
                        st2
                    };
                    spec_body(k.rest@, 0, st3, pattrs, asg, None)
                },
                Err(e) => Err(e),
            }
        },
        _ => Err(diag_at(Fault::ConstrOnlyOnce, k.tilde_span)),
    }
}

/// The walk that fills the `bindings!` placeholder of an expression with the
/// pending stream.
pub open spec fn consume_walk(e: Expr, stream: Seq<TokV>) -> VisitV {
    visit(
        e@,
        VisitV { out: Seq::empty(), pos: 0, assignee: None, stream, err: None, skip: 0 },
        Seq::empty(),
        false,
        "bindings"@,
    )
}

/// `'consume name = expr`: the expression must take the pending stream at
/// its `bindings!` placeholder; the result is bound with a `let`.
#[verifier::opaque]
pub open spec fn spec_consume(k: Consume, st: St, pattrs: AttributesV) -> Result<St, Diag> {
    let pa = attrs_get(pattrs, st.fields);
    if st.spans.len() == 0 {
        Err(diag_at(Fault::NoBindingsToConsume, k.token_span))
    } else {
        let v = consume_walk(k.expr, st.stream);
        match v.err {
            Some(e) => Err(e),
            None => if v.stream.len() != 0 {
                Err(spanned_diag(Fault::BindingsNotConsumed, v.out))
            } else {
                Ok(
                    St {
                        spans: Seq::empty(),
                        stream: v.stream,
                        settings: st.settings + pa + sv(k.attrs@) + seq![id("let"@, k.token_span)]
                            + mut_toks(k.mut_) + seq![name_tok(k.name@), pn('=', k.equal_span)] + v.out
                            + seq![pn(';', CALL_SITE)],
                        ..st
                    },
                )
            },
        }
    }
}

/// `ref a.b { .. }`: names the field and expands the body with it as
/// assignee.
pub open spec fn spec_edit(e: Edit, st: St, pattrs: AttributesV, asg: AssigneeV) -> Result<St, Diag>
    decreases e, 0nat,
{
    let attrs = attrs_get(pattrs, st.fields) + sv(e.attrs@);
    let asg2 = asg.push(e.edit@);
    spec_body(
        e.body@,
        0,
        St {
            settings: st.settings + attrs + seq![
                id("let"@, CALL_SITE),
                id("_"@, CALL_SITE),
                pn('=', CALL_SITE),
            ] + asg_toks(asg2) + seq![pn(';', CALL_SITE)],
            ..st
        },
        AttributesV::Given(attrs),
        asg2,
        None,
    )
}

/// An `if` chain: each branch's body in a scope.
pub open spec fn spec_if(chain: IfChain, st: St, pattrs: AttributesV, asg: AssigneeV) -> Result<St, Diag>
    decreases chain, 0nat,
{
    let pa = attrs_get(pattrs, st.fields);
    match spec_ifs(chain.branches@, 0, st.settings + pa + sv(chain.attrs@), asg) {
        Ok(settings) => Ok(St { settings, ..st }),
        Err(e) => Err(e),
    }
}

/// A `match`: each arm's body in a scope.
pub open spec fn spec_match(m: Match, st: St, pattrs: AttributesV, asg: AssigneeV) -> Result<St, Diag>
    decreases m, 0nat,
{
    let pa = attrs_get(pattrs, st.fields);
    match spec_arms(m.arms@, 0, Seq::empty(), asg) {
        Ok(body) => Ok(
            St {
                settings: st.settings + pa + sv(m.attrs@) + sv(m.head@) + group(
                    Delim::Brace,
                    m.brace_span,
                    body,
                ),
                ..st
            },
        ),
        Err(e) => Err(e),
    }
}

/// The state of the walk over a property's arguments.
#[verifier::ext_equal]
pub struct ArgsV {
    /// The arguments as rewritten so far.
    pub outs: Seq<Seq<TokV>>,
    /// How many items have taken a `_`.
    pub pos: nat,
    /// The assignee, until a `_` takes it.
    pub assignee: Option<AssigneeV>,
    pub stream: Seq<TokV>,
    pub spans: Seq<u64>,
    pub objects: Seq<TokV>,
}

/// The walk over the arguments `args[k..]`: each `_` takes the next item,
/// then the assignee; each argument is walked on its own, an error being
/// written to the objects; the bindings' spans are dropped after any
/// argument that leaves the stream empty.
pub open spec fn walk_args(args: Seq<Expr>, k: int, a: ArgsV, items: Seq<AssigneeV>) -> ArgsV
    decreases args.len() - k,
{
    if k < 0 || k >= args.len() {
        a
    } else {
        let v = visit(
            args[k]@,
            VisitV {
                out: Seq::empty(),
                pos: a.pos,
                assignee: a.assignee,
                stream: a.stream,
                err: None,
                skip: 0,
            },
            items,
            true,
            "bindings"@,
        );
        walk_args(
            args,
            k + 1,
            ArgsV {
                outs: a.outs.push(v.out),
                pos: v.pos,
                assignee: v.assignee,
                stream: v.stream,
                spans: if v.err is None && v.stream.len() == 0 {
                    Seq::empty()
                } else {
                    a.spans
                },
                objects: match v.err {
                    Some(e) => a.objects + seq![fail(e)],
                    None => a.objects,
                },
            },
            items,
        )
    }
}

/// The arguments joined by their commas.
pub open spec fn args_toks(outs: Seq<Seq<TokV>>, commas: Seq<u64>, k: int) -> Seq<TokV>
    decreases outs.len() - k,
{
    if k < 0 || k >= outs.len() {
        Seq::empty()
    } else {
        (if k > 0 {
            seq![pn(',', if k - 1 < commas.len() { commas[k - 1] } else { CALL_SITE })]
        } else {
            Seq::empty()
        }) + outs[k] + args_toks(outs, commas, k + 1)
    }
}

/// Each argument after a colon, as the value of a struct-literal field.
pub open spec fn colon_args(outs: Seq<Seq<TokV>>, span: u64, k: int) -> Seq<TokV>
    decreases outs.len() - k,
{
    if k < 0 || k >= outs.len() {
        Seq::empty()
    } else {
        seq![pn(':', span)] + outs[k] + colon_args(outs, span, k + 1)
    }
}

/// The names of `x.names[j..]` at `span`, each followed by a dot at `dot`.
pub open spec fn dotted_access(x: AccessV, span: u64, dot: u64, j: int) -> Seq<TokV>
    decreases x.names.len() - j,
{
    if j < 0 || j >= x.names.len() {
        Seq::empty()
    } else {
        seq![id(x.names[j].text, span), pn('.', dot)] + dotted_access(x, span, dot, j + 1)
    }
}

/// The names of the parts `a[i..]` at `span`, each followed by a dot at `dot`.
pub open spec fn dotted_from(a: AssigneeV, span: u64, dot: u64, i: int) -> Seq<TokV>
    decreases a.len() - i,
{
    if i < 0 || i >= a.len() {
        Seq::empty()
    } else {
        dotted_access(a[i], span, dot, 0) + dotted_from(a, span, dot, i + 1)
    }
}

/// The names of an assignee at `span`, each followed by a dot at `dot`.
pub open spec fn dotted(a: AssigneeV, span: u64, dot: u64) -> Seq<TokV> {
    dotted_from(a, span, dot, 0)
}

/// Why a property cannot be part of the initial content of a construction,
/// if it cannot. `attrs` is `None` for a struct literal, whose fields take
/// no generics.
pub open spec fn spec_check_property(
    attrs: Option<Seq<TokV>>,
    path: Path,
    mode: PropMode,
    mode_span: u64,
    back: Option<u64>,
) -> Result<(), Diag> {
    if spec_is_long(path) {
        Err(spanned_diag(Fault::ConstrLongPath, path_toks(path)))
    } else if attrs is Some && attrs->0.len() > 0 {
        Err(spanned_diag(Fault::ConstrAttributes, attrs->0))
    } else if attrs is None && match path {
        Path::Type(t) => !spec_type_is_ident(t),
        Path::Field { gens, .. } => gens is Some,
    } {
        Err(spanned_diag(Fault::FieldGenerics, path_toks(path)))
    } else if back is Some {
        Err(diag_at(Fault::ConstrBack, back->0))
    } else if mode == PropMode::Field || mode == PropMode::FnField {
        Err(diag_at(Fault::ConstrColonOrSemicolon, mode_span))
    } else {
        Ok(())
    }
}

/// The span of a property's `'back`, if it has one.
pub open spec fn back_span(b: Option<Box<Back>>) -> Option<u64> {
    match b {
        Some(b) => Some(b.token_span),
        None => None,
    }
}

/// The `&` token, if present.
pub open spec fn ref_toks(r: Option<u64>) -> Seq<TokV> {
    match r {
        Some(s) => seq![pn('&', s)],
        None => Seq::empty(),
    }
}

/// The errors reported when the assignee went to a `_` of the arguments:
/// `=` and `:=` cannot be used, nor `&` or `&mut`.
pub open spec fn underscore_errors(p: Property) -> Seq<TokV> {
    (if p.mode == PropMode::Field || p.mode == PropMode::FnField {
        seq![fail(diag_at(Fault::UseColon, p.mode_span))]
    } else {
        Seq::empty()
    }) + match p.mut_ {
        Some(m) => seq![
            fail(
                Diag {
                    fault: Fault::RefMutUnderscore,
                    start: match p.by_ref {
                        Some(r) => r,
                        None => m,
                    },
                    end: m,
                },
            ),
        ],
        None => match p.by_ref {
            Some(r) => seq![fail(diag_at(Fault::RefUnderscore, r))],
            None => Seq::empty(),
        },
    }
}

/// A property: its arguments get their placeholders filled, its items are
/// expanded, and then it either becomes part of a construction, or a setting
/// on the assignee (a field assignment, a method call, a call of a function
/// field, or the name alone), possibly returning a `'back` object.
pub open spec fn spec_property(
    p: Property,
    st: St,
    pattrs: AttributesV,
    asg: AssigneeV,
    constr: Option<nat>,
) -> Result<St, Diag>
    decreases p, 1nat,
{
    let items = Seq::new(p.items@.len(), |i: int| item_assignee(p.items@[i]));
    let w = walk_args(
        p.args@,
        0,
        ArgsV {
            outs: Seq::empty(),
            pos: 0,
            assignee: Some(asg),
            stream: st.stream,
            spans: st.spans,
            objects: st.objects,
        },
        items,
    );
    let objects = if w.pos < items.len() {
        w.objects + seq![fail(spanned_diag(Fault::UnderscoreMissing, asg_toks(items[w.pos as int])))]
    } else {
        w.objects
    };
    let no_assignee = w.assignee is None;
    let st0 = St { objects, stream: w.stream, spans: w.spans, ..st };
    match spec_items(p.items@, 0, sv(p.attrs@), st0, pattrs) {
        Err(e) => Err(e),
        Ok(st1) => spec_property_tail(p, st1, pattrs, asg, constr, w.outs, no_assignee),
    }
}

/// The errors a property reports when it joins the construction it is part
/// of, and the construction with the property's call (or field) added.
#[verifier::opaque]
pub open spec fn join_constr(p: Property, c: ConstrV, objects: Seq<TokV>, outs: Seq<Seq<TokV>>) -> (
    Seq<TokV>,
    ConstrV,
) {
    let args = args_toks(outs, p.commas@, 0);
    match c {
        ConstrV::Builder { left, right, span, tilde } => {
            let objects = match spec_check_property(
                Some(sv(p.attrs@)),
                p.path,
                p.mode,
                p.mode_span,
                back_span(p.back),
            ) {
                Err(e) => objects + seq![fail(e)],
                Ok(_) => objects,
            };
            (
                objects,
                ConstrV::Builder {
                    left,
                    right: right + seq![pn('.', span)] + path_toks(p.path) + group(
                        Delim::Paren,
                        span,
                        args,
                    ),
                    span,
                    tilde,
                },
            )
        },
        ConstrV::StructLit { left, ty, fields, span, tilde } => {
            let o1 = match spec_check_property(None, p.path, p.mode, p.mode_span, back_span(p.back)) {
                Err(e) => objects + seq![fail(e)],
                Ok(_) => objects,
            };
            let objects = if outs.len() > 1 {
                o1 + seq![fail(spanned_diag(Fault::MultipleArgs, args))]
            } else {
                o1
            };
            (
                objects,
                ConstrV::StructLit {
                    left,
                    ty,
                    fields: fields + path_toks(p.path) + colon_args(outs, span, 0) + seq![pn(',', span)],
                    span,
                    tilde,
                },
            )
        },
    }
}

/// The call a property makes: `path(args)` when a `_` took the assignee,
/// else a method call on the assignee (a long path gets the assignee as its
/// first argument, after `&` or `&mut` if written), or a call of the
/// function held in the assignee's field.
#[verifier::opaque]
pub open spec fn prop_call(p: Property, asg: AssigneeV, plain: bool, args: Seq<TokV>) -> Seq<TokV> {
    let ms = p.mode_span;
    if plain {
        path_toks(p.path) + group(Delim::Paren, ms, args)
    } else if p.mode == PropMode::Method {
        if spec_is_long(p.path) {
            path_toks(p.path) + group(
                Delim::Paren,
                ms,
                ref_toks(p.by_ref) + mut_toks(p.mut_) + spanned(asg, ms) + seq![pn(',', ms)] + args,
            )
        } else {
            dotted(asg, ms, ms) + path_toks(p.path) + group(Delim::Paren, spec_path_span(p.path), args)
        }
    } else {
        group(Delim::Paren, spec_path_span(p.path), dotted(asg, ms, ms) + path_toks(p.path)) + group(
            Delim::Paren,
            spec_path_span(p.path),
            args,
        )
    }
}

/// The construction a property joins: the one of its item, unless a `_`
/// took the assignee with nothing else written before the property.
pub open spec fn constr_target(constr: Option<nat>, plain: bool, n: nat) -> Option<nat> {
    if plain {
        None
    } else {
        match constr {
            Some(i) => if i < n {
                Some(i)
            } else {
                None
            },
            None => None,
        }
    }
}

/// What a property does once its arguments are rewritten (`outs`) and its
/// items expanded; `no_assignee` tells whether a `_` took the assignee.
pub open spec fn spec_property_tail(
    p: Property,
    st1: St,
    pattrs: AttributesV,
    asg: AssigneeV,
    constr: Option<nat>,
    outs: Seq<Seq<TokV>>,
    no_assignee: bool,
) -> Result<St, Diag>
    decreases p, 0nat,
{
    let args = args_toks(outs, p.commas@, 0);
    let plain = no_assignee && p.mut_ is None && p.by_ref is None;
    let st2 = if no_assignee {
        St { objects: st1.objects + underscore_errors(p), ..st1 }
    } else {
        st1
    };
    match constr_target(constr, plain, st2.constrs.len()) {
        Some(i) => {
            let (objects, c) = join_constr(p, st2.constrs[i as int], st2.objects, outs);
            Ok(St { objects, constrs: st2.constrs.update(i as int, c), ..st2 })
        },
        None => {
            let ms = p.mode_span;
            let pa = attrs_get(pattrs, st2.fields);
            if !plain && p.mode == PropMode::Field {
                Ok(
                    St {
                        settings: st2.settings + pa + sv(p.attrs@) + dotted(asg, ms, ms)
                            + path_toks(p.path) + seq![pn('=', ms)] + args + seq![pn(';', ms)],
                        ..st2
                    },
                )
            } else if !plain && p.mode == PropMode::Auto {
                Ok(
                    St {
                        settings: st2.settings + pa + sv(p.attrs@) + dotted(asg, ms, CALL_SITE)
                            + path_toks(p.path),
                        ..st2
                    },
                )
            } else {
                let right = prop_call(p, asg, plain, args);
                match p.back {
                    None => Ok(
                        St {
                            settings: st2.settings + pa + sv(p.attrs@) + right + seq![
                                pn(';', CALL_SITE),
                            ],
                            ..st2
                        },
                    ),
                    Some(b) => spec_back(*b, st2, AttributesV::Given(pa + sv(p.attrs@)), right),
                }
            }
        },
    }
}

/// What starts a `'back` object's statement: the inherited attributes alone
/// when the object is unnamed and built at once by content that can close
/// it, else also `let`, `mut` and the name.
#[verifier::opaque]
pub open spec fn back_left(b: Back, pattrs: Seq<TokV>) -> Seq<TokV> {
    let first = if b.body@.len() > 0 {
        Some(b.body@[0])
    } else {
        None
    };
    let last = if b.body@.len() > 0 {
        Some(b.body@.last())
    } else {
        None
    };
    if b.field.auto && b.build is Some && spec_builds(first) && spec_builds(last) {
        pattrs
    } else {
        let_left(pattrs, b.token_span, b.field)
    }
}

/// Where a `'back` object goes: a builder to close after its body (with its
/// index), or a statement added to the settings at once.
pub open spec fn back_start(b: Back, st: St, left: Seq<TokV>, right: Seq<TokV>) -> (St, Option<nat>) {
    match b.build {
        Some(span) => (
            St {
                constrs: st.constrs.push(ConstrV::Builder { left, right, span, tilde: None }),
                ..st
            },
            Some(st.constrs.len()),
        ),
        None => (St { settings: st.settings + left + right + seq![pn(';', CALL_SITE)], ..st }, None),
    }
}

/// The struct fields once a `'back` object with a visibility is declared as
/// one; an error when there is no struct or no type.
#[verifier::opaque]
pub open spec fn back_fields(f: Field, attrs: Seq<TokV>, fields: Option<Seq<FieldV>>) -> Result<
    Option<Seq<FieldV>>,
    Diag,
> {
    match f.vis {
        None => Ok(fields),
        Some(vis) => match fields {
            None => Err(spanned_diag(Fault::NoField, sv(vis@) + opt_ty_toks(f.ty))),
            Some(fs) => match f.ty {
                None => Err(spanned_diag(Fault::NoType, seq![name_tok(f.name@)])),
                Some(t) => Ok(
                    Some(
                        push_field(
                            fs,
                            FieldV {
                                attrs,
                                vis: sv(vis@),
                                name: f.name@,
                                colon: CALL_SITE,
                                ty: type_path_toks(t),
                                comma: None,
                            },
                        ),
                    ),
                ),
            },
        },
    }
}

/// The state after a `'back` object's body: its builder (if any) closed onto
/// the settings kept aside, then the body's own settings.
pub open spec fn back_finish(saved: Seq<TokV>, st2: St, index: Option<nat>, fields: Option<Seq<FieldV>>) -> St {
    let (settings, constrs) = match index {
        Some(i) => if i < st2.constrs.len() {
            (saved + constr_toks(st2.constrs[i as int]), st2.constrs.remove(i as int))
        } else {
            (saved, st2.constrs)
        },
        None => (saved, st2.constrs),
    };
    St { fields, settings: settings + st2.settings, constrs, ..st2 }
}

/// The object a method call returns: named with a `let` (unless unnamed and
/// built at once by content that can close it), or kept as a builder to be
/// closed when `build` is set; its body is expanded on its own settings,
/// which follow the statement that creates the object.
pub open spec fn spec_back(b: Back, st: St, attrs: AttributesV, right: Seq<TokV>) -> Result<St, Diag>
    decreases b, 0nat,
{
    let left = back_left(b, attrs_get(attrs, st.fields));
    let (st1, index) = back_start(b, st, left, right);
    match spec_body(b.body@, 0, St { settings: Seq::empty(), ..st1 }, attrs, name_asg(b.field.name@), index) {
        Err(e) => Err(e),
        Ok(st2) => match back_fields(b.field, attrs_get(attrs, st2.fields), st2.fields) {
            Err(e) => Err(e),
            Ok(fields) => Ok(back_finish(st1.settings, st2, index, fields)),
        },
    }
}

} // verus!
