//! The expansion of a parsed view into statements.
use vstd::prelude::*;

use crate::diag::{Diag, Fault};
use crate::model::{
    Arm, Assignee, AssigneeV, Attributes, AttributesV, Bind, BindColon, BindMode, Consume, Construct,
    Content, Edit, If, IfChain, Item, Match, Mode, Object, PathObject, Property,
};
use crate::path::Path;
use crate::spec::{
    attrs_get, field_type, item_start, let_left, name_asg, opt_sv, opt_ty_toks, push_field,
    retilde, spec_arms, spec_bind, spec_bind_colon, spec_body, spec_consume, spec_construct,
    spec_content, spec_if, spec_ifs, spec_item, spec_items, spec_match, spec_scope, spec_scope1,
    ConstrV, St,
};
use crate::state::{add_field, cv, diag_over, push_mut, Construction, Out};
use crate::token::{
    close, copy, extend, extend_group, group, id, ident, open, pj, pn, punct, punct_joint, push,
    sv, Delim, Tok, TokV, CALL_SITE,
};
use crate::visit::{asgs, Walk};
use crate::model::FieldDef;

verus! {

/// What an expansion step returned, against what its statement says.
pub open spec fn outcome(r: Result<(), Diag>, s: Result<St, Diag>, after: St) -> bool {
    match s {
        Ok(st) => r is Ok && after == st,
        Err(e) => r == Err::<(), Diag>(e),
    }
}

/// What a scope returned, against what its statement says.
pub open spec fn outcome_toks(r: Result<Vec<Tok>, Diag>, s: Result<Seq<TokV>, Diag>) -> bool {
    match (r, s) {
        (Ok(v), Ok(t)) => sv(v@) == t,
        (Err(a), Err(b)) => a == b,
        _ => false,
    }
}

/// An optional index as a number.
pub open spec fn onat(o: Option<usize>) -> Option<nat> {
    match o {
        Some(i) => Some(i as nat),
        None => None,
    }
}

/// An object declared as a struct field with no type of its own, made by
/// a path followed by a call group, gets as its type the path without its
/// last segment: what precedes the constructor's name. Made by a path with
/// no call group, it gets the whole path; a one-segment path with a call
/// group gives no type at all.
pub proof fn law_field_type_drops_constructor(po: PathObject)
    requires
        po.field.ty is None,
        po.path is Type,
    ensures
        po.group is Some && po.path->Type_0.segs@.len() > 1 ==> (match field_type(po) {
            Ok(r) => r + crate::path::seg_toks(po.path->Type_0.segs@.last())
                == crate::path::type_path_toks(po.path->Type_0),
            Err(_) => false,
        }),
        po.group is None ==> field_type(po) == Ok::<Seq<TokV>, Diag>(
            crate::path::type_path_toks(po.path->Type_0),
        ),
        po.group is Some && po.path->Type_0.segs@.len() <= 1 ==> field_type(po) is Err,
{
    let t = po.path->Type_0;
    if po.group is Some && t.segs@.len() > 1 {
        let s = t.segs@;
        let d = s.drop_last();
        assert(d.push(s.last()) =~= s);
        crate::read::lemma_segs_push(d, s.last(), 0);
        assert(crate::path::type_path_toks(t) =~= crate::spec::popped_toks(t)
            + crate::path::seg_toks(s.last()));
    }
}

/// `'bind: if cond { .. }` refreshes only under its condition and sets up
/// unconditionally: the bindings' stream grows by the inherited attributes,
/// the content's own attributes, the condition's tokens as written, and a
/// braced scope right after them; the settings grow by the same attributes
/// and the very same braced scope, without the condition. Nothing already
/// in either is changed.
pub proof fn law_bind_colon_refreshes_under_condition(
    b: BindColon,
    st: St,
    pattrs: AttributesV,
    asg: AssigneeV,
)
    requires
        spec_bind_colon(b, st, pattrs, asg) is Ok,
    ensures
        ({
            let r = spec_bind_colon(b, st, pattrs, asg)->Ok_0;
            let a = attrs_get(pattrs, st.fields) + sv(b.attrs@);
            let k: int = sv(b.cond@).len() as int;
            let n: int = (st.stream.len() + a.len()) as int;
            let m: int = (st.settings.len() + a.len()) as int;
            &&& r.stream.subrange(0, st.stream.len() as int) == st.stream
            &&& r.stream.subrange(st.stream.len() as int, n) == a
            &&& r.stream.subrange(n, n + k) == sv(b.cond@)
            &&& r.stream.len() > n + k
            &&& r.stream[n + k] == TokV::Open { delim: Delim::Brace, span: b.brace_span }
            &&& r.settings.subrange(0, st.settings.len() as int) == st.settings
            &&& r.settings.subrange(st.settings.len() as int, m) == a
            &&& r.stream.skip(n + k) == r.settings.skip(m)
            &&& r.stream.last() == TokV::Close { delim: Delim::Brace, span: b.brace_span }
        }),
{
    let r = spec_bind_colon(b, st, pattrs, asg)->Ok_0;
    let pa = attrs_get(pattrs, st.fields);
    let a = pa + sv(b.attrs@);
    let k: int = sv(b.cond@).len() as int;
    let n: int = (st.stream.len() + a.len()) as int;
    let m: int = (st.settings.len() + a.len()) as int;
    let inner = spec_scope(b.body@, Seq::empty(), asg)->Ok_0;
    let body = group(Delim::Brace, b.brace_span, inner);
    assert(r.stream =~= st.stream + a + sv(b.cond@) + body);
    assert(r.settings =~= st.settings + a + body);
    assert(r.stream.subrange(0, st.stream.len() as int) =~= st.stream);
    assert(r.stream.subrange(st.stream.len() as int, n) =~= a);
    assert(r.stream.subrange(n, n + k) =~= sv(b.cond@));
    assert(r.settings.subrange(0, st.settings.len() as int) =~= st.settings);
    assert(r.settings.subrange(st.settings.len() as int, m) =~= a);
    assert(r.stream.skip(n + k) =~= body);
    assert(r.settings.skip(m) =~= body);
}

/// The type a new struct field gets from the object's path.
fn field_type_exec(po: &PathObject) -> (r: Result<Vec<Tok>, Diag>)
    ensures
        outcome_toks(r, field_type(*po)),
{
    match &po.field.ty {
        Some(t) => {
            let mut v: Vec<Tok> = Vec::new();
            t.to_tokens(&mut v);
            assert(sv(v@) =~= crate::path::type_path_toks(*t));
            Ok(v)
        },
        None => {
            match &po.path {
                Path::Type(t) => {
                    if po.group.is_none() {
                        let mut v: Vec<Tok> = Vec::new();
                        t.to_tokens(&mut v);
                        assert(sv(v@) =~= crate::path::type_path_toks(*t));
                        return Ok(v);
                    } else if t.segs.len() > 1 {
                        let mut v: Vec<Tok> = copy(&t.leading);
                        let mut i: usize = 0;
                        let n = t.segs.len() - 1;
                        let ghost segs = t.segs@.drop_last();
                        while i < n
                            invariant
                                n == t.segs@.len() - 1,
                                segs == t.segs@.drop_last(),
                                i <= n,
                                sv(v@) + crate::path::segs_toks(segs, i as int) == crate::spec::popped_toks(*t),
                            decreases n - i,
                        {
                            let ghost before = sv(v@);
                            push(&mut v, t.segs[i].ident.tok());
                            extend(&mut v, &t.segs[i].args);
                            extend(&mut v, &t.segs[i].sep);
                            assert(segs[i as int] == t.segs@[i as int]);
                            assert(sv(v@) == before + crate::path::seg_toks(segs[i as int]));
                            i = i + 1;
                        }
                        return Ok(v);
                    }
                },
                Path::Field { .. } => {},
            }
            let mut v: Vec<Tok> = Vec::new();
            po.path.to_tokens(&mut v);
            match &po.group {
                Some(g) => extend(&mut v, g),
                None => {},
            }
            assert(sv(v@) =~= crate::path::path_toks(po.path) + crate::spec::opt_toks(opt_sv(po.group)));
            Err(diag_over(Fault::NoType, &v))
        },
    }
}

/// Creates an item's object: a construction to close later (for a builder
/// or a struct literal), or a `let` statement. Returns the index of the
/// construction.
fn item_start_exec(po: &PathObject, mode: Mode, at_span: u64, attrs: &Vec<Tok>, out: &mut Out) -> (r:
    Option<usize>)
    ensures
        final(out)@ == item_start(*po, mode, at_span, sv(attrs@), old(out)@).0,
        onat(r) == item_start(*po, mode, at_span, sv(attrs@), old(out)@).1,
{
    reveal(item_start);
    let ghost st = out@;
    let f = &po.field;
    let mut left: Vec<Tok> = copy(attrs);
    push(&mut left, ident("let", at_span));
    push_mut(&mut left, f.mut_);
    push(&mut left, f.name.tok());
    punct(&mut left, '=', CALL_SITE);
    assert(sv(left@) =~= let_left(sv(attrs@), at_span, *f));
    match mode {
        Mode::Builder(span) => {
            let mut right: Vec<Tok> = Vec::new();
            po.path.to_tokens(&mut right);
            match &po.group {
                Some(g) => extend(&mut right, g),
                None => {
                    punct_joint(&mut right, '=', span);
                    punct(&mut right, '>', span);
                },
            }
            assert(sv(right@) =~= match po.group {
                Some(g) => crate::path::path_toks(po.path) + sv(g@),
                None => crate::path::path_toks(po.path) + seq![pj('=', span), pn('>', span)],
            });
            let n = out.constrs.len();
            let c = Construction::BuilderPattern { left, right, span, tilde: None };
            let ghost cval = c@;
            out.constrs.push(c);
            assert(cv(out.constrs@) =~= st.constrs.push(cval));
            assert(out@ =~= item_start(*po, mode, at_span, sv(attrs@), st).0);
            Some(n)
        },
        Mode::StructLiteral(q) => {
            let mut ty: Vec<Tok> = Vec::new();
            po.path.to_tokens(&mut ty);
            let n = out.constrs.len();
            let fields: Vec<Tok> = Vec::new();
            assert(sv(fields@) =~= Seq::<TokV>::empty());
            assert(sv(ty@) == crate::path::path_toks(po.path));
            let c = Construction::StructLiteral { left, ty, fields, span: q, tilde: None };
            let ghost cval = c@;
            assert(cval == (ConstrV::StructLit {
                left: let_left(sv(attrs@), at_span, *f),
                ty: crate::path::path_toks(po.path),
                fields: Seq::empty(),
                span: q,
                tilde: None,
            }));
            out.constrs.push(c);
            assert(cv(out.constrs@) =~= st.constrs.push(cval));
            assert(out@ =~= item_start(*po, mode, at_span, sv(attrs@), st).0);
            Some(n)
        },
        Mode::Normal(span) => {
            match &po.group {
                None => {
                    extend(&mut out.objects, attrs);
                    push(&mut out.objects, ident("let", at_span));
                    push_mut(&mut out.objects, f.mut_);
                    push(&mut out.objects, f.name.tok());
                    punct(&mut out.objects, '=', span);
                    push(&mut out.objects, ident("construct", span));
                    punct(&mut out.objects, '!', span);
                    let mut inner: Vec<Tok> = Vec::new();
                    punct(&mut inner, '?', span);
                    po.path.to_tokens(&mut inner);
                    extend_group(&mut out.objects, Delim::Paren, span, &inner);
                },
                Some(g) => {
                    extend(&mut out.objects, &left);
                    po.path.to_tokens(&mut out.objects);
                    extend(&mut out.objects, g);
                },
            }
            punct(&mut out.objects, ';', CALL_SITE);
            assert(out@ =~= item_start(*po, mode, at_span, sv(attrs@), st).0);
            None
        },
    }
}

/// Expands an item: creates its object (or names an existing one), declares
/// it as a struct field when it has a visibility, then expands its body with
/// the object as assignee. `own` is the item's own attributes.
pub fn item(it: &Item, own: &Vec<Tok>, out: &mut Out, pattrs: &Attributes) -> (r: Result<(), Diag>)
    ensures
        outcome(r, spec_item(*it, sv(own@), old(out)@, pattrs@), final(out)@),
    decreases *it, 1nat,
{
    let ghost st = out@;
    let mut attrs = pattrs.get(&out.fields);
    extend(&mut attrs, own);
    match &it.object {
        Object::Path(po) => {
            let f = &po.field;
            assert(sv(attrs@) == attrs_get(pattrs@, st.fields) + sv(own@));
            let constr = item_start_exec(po, it.mode, it.at_span, &attrs, out);
            let ghost st1 = out@;
            assert(item_start(**po, it.mode, it.at_span, sv(attrs@), st) == (st1, onat(constr)));
            let asg = Assignee::ident(&f.name);
            assert(asg@ == name_asg(f.name@));
            match &f.vis {
                Some(vis) => {
                    if out.fields.is_none() {
                        let mut t = copy(vis);
                        match &f.ty {
                            Some(ty) => ty.to_tokens(&mut t),
                            None => {},
                        }
                        assert(sv(t@) =~= sv(vis@) + opt_ty_toks(f.ty));
                        return Err(diag_over(Fault::NoField, &t));
                    }
                    let ty = match field_type_exec(po) {
                        Ok(v) => v,
                        Err(e) => {
                            return Err(e);
                        },
                    };
                    let mut fs = out.fields.take().unwrap();
                    let idx = fs.len();
                    let fd = FieldDef {
                        attrs: copy(&attrs),
                        vis: copy(vis),
                        name: f.name.dup(),
                        colon: CALL_SITE,
                        ty,
                        comma: None,
                    };
                    let ghost fdv = fd@;
                    add_field(&mut fs, fd);
                    out.fields = Some(fs);
                    assert(out@ =~= St { fields: Some(push_field(st1.fields->0, fdv)), ..st1 });
                    body(&it.body, out, &Attributes::Field(idx), &asg, constr)
                },
                None => body(&it.body, out, &Attributes::Given(attrs), &asg, constr),
            }
        },
        Object::Ref(a) => {
            extend(&mut out.settings, &attrs);
            push(&mut out.settings, ident("let", it.at_span));
            push(&mut out.settings, ident("_", CALL_SITE));
            punct(&mut out.settings, '=', CALL_SITE);
            a.to_tokens(&mut out.settings);
            punct(&mut out.settings, ';', CALL_SITE);
            let mut parts: Vec<crate::path::Access> = Vec::new();
            parts.push(a.dup());
            let asg = Assignee { parts };
            assert(asg@ =~= seq![a@]);
            assert(sv(attrs@) == attrs_get(pattrs@, st.fields) + sv(own@));
            assert(out@ =~= St {
                settings: st.settings + sv(attrs@) + seq![
                    id("let"@, it.at_span),
                    id("_"@, CALL_SITE),
                    pn('=', CALL_SITE),
                ] + crate::path::access_toks(a@) + seq![pn(';', CALL_SITE)],
                ..st
            });
            body(&it.body, out, &Attributes::Given(attrs), &asg, None)
        },
    }
}

/// Expands the items `items[i..]` of a property, each with the property's
/// attributes.
pub fn items(list: &Vec<Item>, own: &Vec<Tok>, out: &mut Out, pattrs: &Attributes) -> (r: Result<(), Diag>)
    ensures
        outcome(r, spec_items(list@, 0, sv(own@), old(out)@, pattrs@), final(out)@),
    decreases list@, list@.len() + 1,
{
    let ghost st = out@;
    let mut i: usize = 0;
    while i < list.len()
        invariant
            st == old(out)@,
            i <= list@.len(),
            spec_items(list@, 0, sv(own@), st, pattrs@) == spec_items(list@, i as int, sv(own@), out@, pattrs@),
        decreases list@.len() - i,
    {
        let ghost prev = out@;
        assert(spec_items(list@, i as int, sv(own@), prev, pattrs@) == match spec_item(list@[i as int], sv(own@), prev, pattrs@) {
            Ok(s) => spec_items(list@, i + 1, sv(own@), s, pattrs@),
            Err(e) => Err(e),
        });
        let r = item(&list[i], own, out, pattrs);
        assert(outcome(r, spec_item(list@[i as int], sv(own@), prev, pattrs@), out@));
        match r {
            Ok(()) => {
                assert(spec_item(list@[i as int], sv(own@), prev, pattrs@) == Ok::<St, Diag>(out@));
                assert(spec_items(list@, i + 1, sv(own@), out@, pattrs@) == spec_items(list@, i as int, sv(own@), prev, pattrs@));
            },
            Err(e) => {
                assert(spec_item(list@[i as int], sv(own@), prev, pattrs@) == Err::<St, Diag>(e));
                assert(spec_items(list@, i as int, sv(own@), prev, pattrs@) == Err::<St, Diag>(e));
                assert(spec_items(list@, 0, sv(own@), st, pattrs@) == Err::<St, Diag>(e));
                return Err(e);
            },
        }
        i = i + 1;
    }
    Ok(())
}

/// Expands the content of a body in order; the first error stops it.
pub fn body(
    list: &Vec<Content>,
    out: &mut Out,
    pattrs: &Attributes,
    asg: &Assignee,
    constr: Option<usize>,
) -> (r: Result<(), Diag>)
    ensures
        outcome(r, spec_body(list@, 0, old(out)@, pattrs@, asg@, onat(constr)), final(out)@),
    decreases list@, list@.len() + 1,
{
    let ghost st = out@;
    let mut i: usize = 0;
    while i < list.len()
        invariant
            st == old(out)@,
            i <= list@.len(),
            spec_body(list@, 0, st, pattrs@, asg@, onat(constr)) == spec_body(
                list@,
                i as int,
                out@,
                pattrs@,
                asg@,
                onat(constr),
            ),
        decreases list@.len() - i,
    {
        match content(&list[i], out, pattrs, asg, constr) {
            Ok(()) => {},
            Err(e) => {
                return Err(e);
            },
        }
        i = i + 1;
    }
    Ok(())
}

/// Expands `body` in a scope of its own, written out as a whole.
pub fn scope(body: &Vec<Content>, attrs: &Vec<Tok>, asg: &Assignee) -> (r: Result<Vec<Tok>, Diag>)
    ensures
        outcome_toks(r, spec_scope(body@, sv(attrs@), asg@)),
    decreases body@, body@.len() + 2,
{
    let mut out = Out::new();
    let a = Attributes::Given(copy(attrs));
    match self::body(body, &mut out, &a, asg, None) {
        Ok(()) => Ok(out.finish()),
        Err(e) => Err(e),
    }
}

/// Expands one content in a scope of its own, written out as a whole.
pub fn scope1(c: &Content, attrs: &Vec<Tok>, asg: &Assignee) -> (r: Result<Vec<Tok>, Diag>)
    ensures
        outcome_toks(r, spec_scope1(*c, sv(attrs@), asg@)),
    decreases *c, 2nat,
{
    let mut out = Out::new();
    let a = Attributes::Given(copy(attrs));
    match content(c, &mut out, &a, asg, None) {
        Ok(()) => Ok(out.finish()),
        Err(e) => Err(e),
    }
}

/// Expands one content of a body.
pub fn content(
    c: &Content,
    out: &mut Out,
    pattrs: &Attributes,
    asg: &Assignee,
    constr: Option<usize>,
) -> (r: Result<(), Diag>)
    ensures
        outcome(r, spec_content(*c, old(out)@, pattrs@, asg@, onat(constr)), final(out)@),
        c is Consume && old(out)@.spans.len() == 0 ==> final(out)@ == old(out)@,
        c is Construct && !(constr matches Some(i) && i < old(out)@.constrs.len()) ==> final(out)@
            == old(out)@,
    decreases *c, 1nat,
{
    match c {
        Content::Bind(b) => bind(b, out, pattrs, asg),
        Content::BindColon(b) => bind_colon(b, out, pattrs, asg),
        Content::Construct(k) => construct(k, out, pattrs, asg, constr),
        Content::Consume(k) => consume(k, out, pattrs),
        Content::Edit(e) => crate::property::expand_edit(e, out, pattrs, asg),
        Content::If(chain) => if_chain(chain, out, pattrs, asg),
        Content::Match(m) => match_(m, out, pattrs, asg),
        Content::Property(p) => crate::property::expand(p, out, pattrs, asg, constr),
    }
}

/// `'bind`: a scope added to the bindings' stream (and to the settings too
/// when marked with `#`), its span recorded until consumed.
pub fn bind(b: &Bind, out: &mut Out, pattrs: &Attributes, asg: &Assignee) -> (r: Result<(), Diag>)
    ensures
        outcome(r, spec_bind(*b, old(out)@, pattrs@, asg@), final(out)@),
    decreases *b, 0nat,
{
    let ghost st = out@;
    let pa = pattrs.get(&out.fields);
    let toks = match &b.mode {
        BindMode::Braced { attrs, brace_span, body } => {
            let none: Vec<Tok> = Vec::new();
            assert(sv(none@) =~= Seq::<TokV>::empty());
            let inner = match scope(body, &none, asg) {
                Ok(v) => v,
                Err(e) => {
                    return Err(e);
                },
            };
            let mut t = pa;
            extend(&mut t, attrs);
            extend_group(&mut t, Delim::Brace, *brace_span, &inner);
            t
        },
        BindMode::Unbraced(inner_c) => match scope1(inner_c, &pa, asg) {
            Ok(v) => v,
            Err(e) => {
                return Err(e);
            },
        },
    };
    out.spans.push(b.token_span);
    if b.init {
        extend(&mut out.settings, &toks);
    }
    extend(&mut out.stream, &toks);
    assert(out@ =~= spec_bind(*b, st, pattrs@, asg@)->Ok_0);
    Ok(())
}

/// `'bind: if cond { .. }`: the conditional scope goes to the bindings'
/// stream, the scope alone to the settings.
pub fn bind_colon(b: &BindColon, out: &mut Out, pattrs: &Attributes, asg: &Assignee) -> (r: Result<(), Diag>)
    ensures
        outcome(r, spec_bind_colon(*b, old(out)@, pattrs@, asg@), final(out)@),
    decreases *b, 0nat,
{
    let ghost st = out@;
    let pa = pattrs.get(&out.fields);
    let none: Vec<Tok> = Vec::new();
    assert(sv(none@) =~= Seq::<TokV>::empty());
    let inner = match scope(&b.body, &none, asg) {
        Ok(v) => v,
        Err(e) => {
            return Err(e);
        },
    };
    let mut body: Vec<Tok> = Vec::new();
    extend_group(&mut body, Delim::Brace, b.brace_span, &inner);
    out.spans.push(b.token_span);
    extend(&mut out.stream, &pa);
    extend(&mut out.stream, &b.attrs);
    extend(&mut out.stream, &b.cond);
    extend(&mut out.stream, &body);
    extend(&mut out.settings, &pa);
    extend(&mut out.settings, &b.attrs);
    extend(&mut out.settings, &body);
    assert(out@ =~= spec_bind_colon(*b, st, pattrs@, asg@)->Ok_0);
    Ok(())
}

/// `~`: the construction is reported at the `~`, the property after it is
/// part of it, with `/` it is closed at once, and the rest of the body is
/// no longer part of it.
pub fn construct(
    k: &Construct,
    out: &mut Out,
    pattrs: &Attributes,
    asg: &Assignee,
    constr: Option<usize>,
) -> (r: Result<(), Diag>)
    ensures
        outcome(r, spec_construct(*k, old(out)@, pattrs@, asg@, onat(constr)), final(out)@),
        !(constr matches Some(i) && i < old(out)@.constrs.len()) ==> final(out)@ == old(out)@,
    decreases *k, 0nat,
{
    let ghost st = out@;
    let idx = match constr {
        Some(i) => {
            if i < out.constrs.len() {
                i
            } else {
                return Err(Diag { fault: Fault::ConstrOnlyOnce, start: k.tilde_span, end: k.tilde_span });
            }
        },
        None => {
            return Err(Diag { fault: Fault::ConstrOnlyOnce, start: k.tilde_span, end: k.tilde_span });
        },
    };
    let c = out.constrs.remove(idx);
    let c2 = c.retilde(k.tilde_span, k.last);
    let ghost c2v = c2@;
    out.constrs.insert(idx, c2);
    assert(cv(out.constrs@) =~= st.constrs.update(idx as int, retilde(st.constrs[idx as int], k.tilde_span, k.last)));
    match content(&k.penult, out, pattrs, asg, constr) {
        Ok(()) => {},
        Err(e) => {
            return Err(e);
        },
    }
    if k.object && idx < out.constrs.len() {
        let ghost st2 = out@;
        let c = out.constrs.remove(idx);
        c.extend_into(&mut out.objects);
        assert(cv(out.constrs@) =~= st2.constrs.remove(idx as int));
    }
    self::body(&k.rest, out, pattrs, asg, None)
}

/// `'consume name = expr`: the expression must take the pending stream at
/// its `bindings!` placeholder; the result is bound with a `let`.
pub fn consume(k: &Consume, out: &mut Out, pattrs: &Attributes) -> (r: Result<(), Diag>)
    ensures
        outcome(r, spec_consume(*k, old(out)@, pattrs@), final(out)@),
        old(out)@.spans.len() == 0 ==> final(out)@ == old(out)@,
{
    reveal(spec_consume);
    let ghost st = out@;
    if out.spans.len() == 0 {
        return Err(Diag { fault: Fault::NoBindingsToConsume, start: k.token_span, end: k.token_span });
    }
    let pa = pattrs.get(&out.fields);
    let no_items: Vec<Assignee> = Vec::new();
    let ph = String::from_str("bindings");
    let walk = Walk { items: &no_items, with_items: false, placeholder: &ph };
    let mut expr: Vec<Tok> = Vec::new();
    let mut pos: usize = 0;
    let mut assignee: Option<Assignee> = None;
    assert(asgs(no_items@) =~= Seq::<crate::model::AssigneeV>::empty());
    assert(sv(expr@) =~= Seq::<TokV>::empty());
    let mut walked: Vec<crate::model::Piece> = Vec::new();
    let err = walk.expr(&k.expr, &mut expr, &mut pos, &mut assignee, &mut out.stream, &mut walked);
    match err {
        Some(e) => {
            return Err(e);
        },
        None => {},
    }
    if out.stream.len() != 0 {
        return Err(diag_over(Fault::BindingsNotConsumed, &expr));
    }
    out.spans = Vec::new();
    extend(&mut out.settings, &pa);
    extend(&mut out.settings, &k.attrs);
    push(&mut out.settings, ident("let", k.token_span));
    push_mut(&mut out.settings, k.mut_);
    push(&mut out.settings, k.name.tok());
    punct(&mut out.settings, '=', k.equal_span);
    extend(&mut out.settings, &expr);
    punct(&mut out.settings, ';', CALL_SITE);
    assert(out@ =~= spec_consume(*k, st, pattrs@)->Ok_0);
    Ok(())
}

/// An `if` chain: each branch's body in a scope.
pub fn if_chain(chain: &IfChain, out: &mut Out, pattrs: &Attributes, asg: &Assignee) -> (r: Result<(), Diag>)
    ensures
        outcome(r, spec_if(*chain, old(out)@, pattrs@, asg@), final(out)@),
    decreases *chain, 0nat,
{
    let ghost st = out@;
    let pa = pattrs.get(&out.fields);
    let mut settings = copy(&out.settings);
    extend(&mut settings, &pa);
    extend(&mut settings, &chain.attrs);
    let ghost s0 = sv(settings@);
    assert(s0 == st.settings + attrs_get(pattrs@, st.fields) + sv(chain.attrs@));
    let mut i: usize = 0;
    while i < chain.branches.len()
        invariant
            st == old(out)@,
            out@ == st,
            s0 == st.settings + attrs_get(pattrs@, st.fields) + sv(chain.attrs@),
            i <= chain.branches@.len(),
            spec_ifs(chain.branches@, 0, s0, asg@) == spec_ifs(chain.branches@, i as int, sv(settings@), asg@),
        decreases chain.branches@.len() - i,
    {
        let none: Vec<Tok> = Vec::new();
        assert(sv(none@) =~= Seq::<TokV>::empty());
        proof {
            assert(decreases_to!(*chain => chain.branches));
            assert(decreases_to!(chain.branches => chain.branches@));
            assert(decreases_to!(chain.branches@ => chain.branches@[i as int]));
            assert(decreases_to!(chain.branches@[i as int] => chain.branches@[i as int].body));
            assert(decreases_to!(chain.branches@[i as int].body => chain.branches@[i as int].body@));
        }
        let inner = match scope(&chain.branches[i].body, &none, asg) {
            Ok(v) => v,
            Err(e) => {
                return Err(e);
            },
        };
        extend(&mut settings, &chain.branches[i].head);
        extend_group(&mut settings, Delim::Brace, chain.branches[i].brace_span, &inner);
        i = i + 1;
    }
    out.settings = settings;
    assert(out@ =~= spec_if(*chain, st, pattrs@, asg@)->Ok_0);
    Ok(())
}

/// A `match`: each arm's body in a scope.
pub fn match_(m: &Match, out: &mut Out, pattrs: &Attributes, asg: &Assignee) -> (r: Result<(), Diag>)
    ensures
        outcome(r, spec_match(*m, old(out)@, pattrs@, asg@), final(out)@),
    decreases *m, 0nat,
{
    let ghost st = out@;
    let pa = pattrs.get(&out.fields);
    let mut acc: Vec<Tok> = Vec::new();
    let ghost a0 = sv(acc@);
    assert(a0 =~= Seq::<TokV>::empty());
    let mut i: usize = 0;
    while i < m.arms.len()
        invariant
            st == old(out)@,
            out@ == st,
            a0 == Seq::<TokV>::empty(),
            i <= m.arms@.len(),
            spec_arms(m.arms@, 0, a0, asg@) == spec_arms(m.arms@, i as int, sv(acc@), asg@),
        decreases m.arms@.len() - i,
    {
        let a = &m.arms[i];
        let none: Vec<Tok> = Vec::new();
        assert(sv(none@) =~= Seq::<TokV>::empty());
        proof {
            assert(decreases_to!(*m => m.arms));
            assert(decreases_to!(m.arms => m.arms@));
            assert(decreases_to!(m.arms@ => m.arms@[i as int]));
            assert(decreases_to!(m.arms@[i as int] => m.arms@[i as int].body));
            assert(decreases_to!(m.arms@[i as int].body => m.arms@[i as int].body@));
        }
        let inner = match scope(&a.body, &none, asg) {
            Ok(v) => v,
            Err(e) => {
                return Err(e);
            },
        };
        extend(&mut acc, &a.attrs);
        extend(&mut acc, &a.pat);
        extend(&mut acc, &a.guard);
        extend(&mut acc, &a.arrow);
        let span = match a.brace_span {
            Some(s) => s,
            None => CALL_SITE,
        };
        extend_group(&mut acc, Delim::Brace, span, &inner);
        i = i + 1;
    }
    extend(&mut out.settings, &pa);
    extend(&mut out.settings, &m.attrs);
    extend(&mut out.settings, &m.head);
    extend_group(&mut out.settings, Delim::Brace, m.brace_span, &acc);
    assert(a0 =~= Seq::<TokV>::empty());
    assert(out@ =~= spec_match(*m, st, pattrs@, asg@)->Ok_0);
    Ok(())
}

/// What an arm writes before its braced scope, as written: its attributes,
/// its pattern, its guard (`if` and the condition) and its `=>`.
pub open spec fn arm_head(a: Arm) -> Seq<TokV> {
    sv(a.attrs@) + sv(a.pat@) + sv(a.guard@) + sv(a.arrow@)
}

/// Whether `t` stands in `s` at `off`, followed by an opening brace.
pub open spec fn before_brace(s: Seq<TokV>, t: Seq<TokV>, off: int) -> bool {
    &&& 0 <= off
    &&& off + t.len() < s.len()
    &&& s.subrange(off, off + t.len()) == t
    &&& s[off + t.len()] is Open
    &&& s[off + t.len()]->Open_delim == Delim::Brace
}

/// The arms `arms[i..]` appended to `acc` keep `acc` and write each arm's
/// head before a brace, one after the other; the offsets are returned.
proof fn lemma_arms_heads(arms: Seq<Arm>, i: int, acc: Seq<TokV>, asg: AssigneeV) -> (offs: Seq<int>)
    requires
        0 <= i <= arms.len(),
        spec_arms(arms, i, acc, asg) is Ok,
    ensures
        ({
            let b = spec_arms(arms, i, acc, asg)->Ok_0;
            &&& acc.len() <= b.len()
            &&& b.subrange(0, acc.len() as int) == acc
            &&& offs.len() == arms.len() - i
            &&& offs.len() > 0 ==> offs[0] == acc.len()
            &&& forall|k: int|
                0 <= k < offs.len() ==> #[trigger] before_brace(b, arm_head(arms[i + k]), offs[k])
            &&& forall|k: int|
                0 <= k < offs.len() - 1 ==> offs[k] + arm_head(arms[i + k]).len() < #[trigger] offs[k
                    + 1]
        }),
    decreases arms.len() - i,
{
    let b = spec_arms(arms, i, acc, asg)->Ok_0;
    if i == arms.len() {
        Seq::empty()
    } else {
        let a = arms[i];
        let inner = spec_scope(a.body@, Seq::empty(), asg)->Ok_0;
        let sp = match a.brace_span {
            Some(s) => s,
            None => CALL_SITE,
        };
        let acc2 = acc + sv(a.attrs@) + sv(a.pat@) + sv(a.guard@) + sv(a.arrow@) + group(
            Delim::Brace,
            sp,
            inner,
        );
        let h = arm_head(a);
        assert(acc2 =~= acc + h + group(Delim::Brace, sp, inner));
        let rest = lemma_arms_heads(arms, i + 1, acc2, asg);
        let s0: int = acc.len() as int;
        let e: int = (acc.len() + h.len()) as int;
        let offs = seq![s0] + rest;
        assert(b.subrange(0, s0) =~= b.subrange(0, acc2.len() as int).subrange(0, s0));
        assert(acc2.subrange(0, s0) =~= acc);
        assert(b.subrange(s0, e) =~= acc2.subrange(s0, e));
        assert(acc2.subrange(s0, e) =~= h);
        assert(b[e] == acc2[e]);
        assert(before_brace(b, h, offs[0]));
        assert forall|k: int| 0 <= k < offs.len() implies #[trigger] before_brace(
            b,
            arm_head(arms[i + k]),
            offs[k],
        ) by {
            if k > 0 {
                assert(offs[k] == rest[k - 1]);
                assert(arms[i + k] == arms[(i + 1) + (k - 1)]);
                assert(before_brace(b, arm_head(arms[(i + 1) + (k - 1)]), rest[k - 1]));
            }
        }
        assert forall|k: int| 0 <= k < offs.len() - 1 implies offs[k] + arm_head(arms[i + k]).len()
            < #[trigger] offs[k + 1] by {
            if k > 0 {
                assert(offs[k] == rest[k - 1]);
                assert(offs[k + 1] == rest[k]);
                assert(arms[i + k] == arms[(i + 1) + (k - 1)]);
                let k1: int = k - 1;
                assert(0 <= k1 < rest.len() - 1);
                assert(rest[k1] + arm_head(arms[(i + 1) + k1]).len() < rest[k1 + 1]);
            } else {
                assert(offs[1] == rest[0]);
                assert(arms[i + k] == a);
                assert(rest[0] == acc2.len());
            }
        }
        offs
    }
}

/// A `match` keeps every arm as written: each arm's attributes, pattern,
/// guard and `=>` stand verbatim, in that order, right before the arm's
/// braced scope, inside the braces after the `match` head, and the arms
/// come in their order, the first right after the opening brace. The
/// offsets in the settings where the arms start are returned.
pub proof fn law_match_arms_keep_guards(m: Match, st: St, pattrs: AttributesV, asg: AssigneeV) -> (offs:
    Seq<int>)
    requires
        spec_match(m, st, pattrs, asg) is Ok,
    ensures
        ({
            let r = spec_match(m, st, pattrs, asg)->Ok_0;
            let start: int = (st.settings.len() + attrs_get(pattrs, st.fields).len() + m.attrs@.len()
                + m.head@.len()) as int;
            &&& r.settings.subrange(0, st.settings.len() as int) == st.settings
            &&& r.settings[start] == TokV::Open { delim: Delim::Brace, span: m.brace_span }
            &&& offs.len() == m.arms@.len()
            &&& offs.len() > 0 ==> offs[0] == start + 1
            &&& forall|j: int|
                0 <= j < offs.len() ==> #[trigger] before_brace(r.settings, arm_head(m.arms@[j]), offs[j])
            &&& forall|j: int|
                0 <= j < offs.len() - 1 ==> offs[j] + arm_head(m.arms@[j]).len() < #[trigger] offs[j + 1]
        }),
{
    let r = spec_match(m, st, pattrs, asg)->Ok_0;
    let pre = st.settings + attrs_get(pattrs, st.fields) + sv(m.attrs@) + sv(m.head@);
    let start: int = pre.len() as int;
    let b = spec_arms(m.arms@, 0, Seq::empty(), asg)->Ok_0;
    let rel = lemma_arms_heads(m.arms@, 0, Seq::empty(), asg);
    let shift: int = start + 1;
    assert(r.settings =~= pre + seq![TokV::Open { delim: Delim::Brace, span: m.brace_span }] + b
        + seq![TokV::Close { delim: Delim::Brace, span: m.brace_span }]);
    assert(r.settings.subrange(0, st.settings.len() as int) =~= st.settings);
    let offs = Seq::new(rel.len(), |k: int| rel[k] + shift);
    assert forall|j: int| 0 <= j < offs.len() implies #[trigger] before_brace(
        r.settings,
        arm_head(m.arms@[j]),
        offs[j],
    ) by {
        let h = arm_head(m.arms@[j]);
        assert(m.arms@[j] == m.arms@[0 + j]);
        assert(before_brace(b, h, rel[j]));
        assert(r.settings.subrange(offs[j], offs[j] + h.len()) =~= b.subrange(rel[j], rel[j] + h.len()));
        assert(r.settings[offs[j] + h.len()] == b[rel[j] + h.len()]);
    }
    assert forall|j: int| 0 <= j < offs.len() - 1 implies offs[j] + arm_head(m.arms@[j]).len()
        < #[trigger] offs[j + 1] by {
        assert(m.arms@[j] == m.arms@[0 + j]);
        assert(rel[j] + arm_head(m.arms@[0 + j]).len() < rel[j + 1]);
    }
    offs
}

} // verus!
