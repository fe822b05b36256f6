//! The expansion of properties and of the objects that methods return.
use vstd::prelude::*;

use crate::diag::{Diag, Fault};
use crate::expand::{body, items, onat, outcome};
use crate::model::{
    item_assignee, Assignee, AssigneeV, Attributes, Back, Content, Edit, Field, FieldDef, Piece, PropMode,
    Property,
};
use crate::path::{path_toks, Path};
use crate::spec::{
    args_toks, attrs_get, back_fields, back_finish, back_left, back_span, back_start, colon_args,
    constr_target, fail, join_constr, opt_ty_toks, prop_call, ref_toks, spanned_diag, spec_back,
    spec_builds, spec_check_property, spec_edit, spec_property, spec_property_tail,
    underscore_errors, walk_args, ArgsV, St,
};
use crate::state::{add_field, cv, diag_over, fail_tok, ofv, push_mut, svs, Construction, Out};
use crate::token::{
    copy, extend, extend_group, id, ident, pn, punct, push, sv, Delim, Tok, TokV, CALL_SITE,
};
use crate::visit::{asg_toks, asgs, opt_asg, Walk};

verus! {

/// Whether content may close its construction with no name given: `None`
/// (no content), `'consume`, a property, or a `~` that ends its body.
pub fn builds(content: Option<&Content>) -> (r: bool)
    ensures
        r == spec_builds(
            match content {
                Some(c) => Some(*c),
                None => None,
            },
        ),
{
    match content {
        None => true,
        Some(c) => match c {
            Content::Bind(_) | Content::BindColon(_) | Content::Edit(_) | Content::If(_)
            | Content::Match(_) => false,
            Content::Consume(_) | Content::Property(_) => true,
            Content::Construct(b) => b.rest.len() == 0,
        },
    }
}

/// Why a property cannot be part of the initial content of a construction,
/// if it cannot. `attrs` is `None` for a struct literal.
pub fn check_property(
    attrs: Option<&Vec<Tok>>,
    path: &Path,
    mode: PropMode,
    mode_span: u64,
    back: Option<u64>,
) -> (r: Result<(), Diag>)
    ensures
        r == spec_check_property(
            match attrs {
                Some(a) => Some(sv(a@)),
                None => None,
            },
            *path,
            mode,
            mode_span,
            back,
        ),
{
    if path.is_long() {
        let mut t: Vec<Tok> = Vec::new();
        path.to_tokens(&mut t);
        assert(sv(t@) =~= path_toks(*path));
        return Err(diag_over(Fault::ConstrLongPath, &t));
    }
    match attrs {
        Some(a) => {
            if a.len() > 0 {
                return Err(diag_over(Fault::ConstrAttributes, a));
            }
        },
        None => {
            let bad = match path {
                Path::Type(t) => !t.is_ident(),
                Path::Field { gens, .. } => gens.is_some(),
            };
            if bad {
                let mut t: Vec<Tok> = Vec::new();
                path.to_tokens(&mut t);
                assert(sv(t@) =~= path_toks(*path));
                return Err(diag_over(Fault::FieldGenerics, &t));
            }
        },
    }
    match back {
        Some(b) => {
            return Err(Diag { fault: Fault::ConstrBack, start: b, end: b });
        },
        None => {},
    }
    if mode == PropMode::Field || mode == PropMode::FnField {
        Err(Diag { fault: Fault::ConstrColonOrSemicolon, start: mode_span, end: mode_span })
    } else {
        Ok(())
    }
}

/// The arguments joined by their commas.
fn join_args(outs: &Vec<Vec<Tok>>, commas: &Vec<u64>) -> (r: Vec<Tok>)
    ensures
        sv(r@) == args_toks(svs(outs@), commas@, 0),
{
    let mut r: Vec<Tok> = Vec::new();
    let mut k: usize = 0;
    assert(sv(r@) =~= Seq::<TokV>::empty());
    while k < outs.len()
        invariant
            k <= outs@.len(),
            sv(r@) + args_toks(svs(outs@), commas@, k as int) == args_toks(svs(outs@), commas@, 0),
        decreases outs@.len() - k,
    {
        let ghost before = sv(r@);
        if k > 0 {
            let c = if k - 1 < commas.len() {
                commas[k - 1]
            } else {
                CALL_SITE
            };
            punct(&mut r, ',', c);
        }
        extend(&mut r, &outs[k]);
        assert(svs(outs@)[k as int] == sv(outs@[k as int]@));
        k = k + 1;
    }
    assert(args_toks(svs(outs@), commas@, k as int) =~= Seq::<TokV>::empty());
    r
}

/// Appends each argument after a colon, as the value of a struct-literal
/// field.
fn push_colon_args(dst: &mut Vec<Tok>, outs: &Vec<Vec<Tok>>, span: u64)
    ensures
        sv(final(dst)@) == sv(old(dst)@) + colon_args(svs(outs@), span, 0),
{
    let mut k: usize = 0;
    while k < outs.len()
        invariant
            k <= outs@.len(),
            sv(dst@) + colon_args(svs(outs@), span, k as int) == sv(old(dst)@) + colon_args(
                svs(outs@),
                span,
                0,
            ),
        decreases outs@.len() - k,
    {
        punct(dst, ':', span);
        extend(dst, &outs[k]);
        assert(svs(outs@)[k as int] == sv(outs@[k as int]@));
        k = k + 1;
    }
    assert(colon_args(svs(outs@), span, k as int) =~= Seq::<TokV>::empty());
}

/// Appends the errors reported when the assignee went to a `_`.
fn push_underscore_errors(p: &Property, dst: &mut Vec<Tok>)
    ensures
        sv(final(dst)@) == sv(old(dst)@) + underscore_errors(*p),
{
    if p.mode == PropMode::Field || p.mode == PropMode::FnField {
        push(dst, fail_tok(Diag { fault: Fault::UseColon, start: p.mode_span, end: p.mode_span }));
    }
    match p.mut_ {
        Some(m) => {
            let start = match p.by_ref {
                Some(r) => r,
                None => m,
            };
            push(dst, fail_tok(Diag { fault: Fault::RefMutUnderscore, start, end: m }));
        },
        None => match p.by_ref {
            Some(r) => push(dst, fail_tok(Diag { fault: Fault::RefUnderscore, start: r, end: r })),
            None => {},
        },
    }
    assert(sv(dst@) =~= sv(old(dst)@) + underscore_errors(*p));
}

/// The span of a `'back`, if any.
fn back_span_exec(b: &Option<Box<Back>>) -> (r: Option<u64>)
    ensures
        r == back_span(*b),
{
    match b {
        Some(b) => Some(b.token_span),
        None => None,
    }
}

/// Expands a property: its arguments get their placeholders filled (each
/// `_` takes the next of its items, then the assignee), its items are
/// expanded, and then it becomes part of a construction or a setting on the
/// assignee.
pub fn expand(
    p: &Property,
    out: &mut Out,
    pattrs: &Attributes,
    asg: &Assignee,
    constr: Option<usize>,
) -> (r: Result<(), Diag>)
    ensures
        outcome(r, spec_property(*p, old(out)@, pattrs@, asg@, onat(constr)), final(out)@),
    decreases *p, 1nat,
{
    let ghost st = out@;
    let mut item_asgs: Vec<Assignee> = Vec::new();
    let mut j: usize = 0;
    while j < p.items.len()
        invariant
            j <= p.items@.len(),
            item_asgs@.len() == j,
            forall|k: int| 0 <= k < j ==> #[trigger] item_asgs@[k]@ == item_assignee(p.items@[k]),
        decreases p.items@.len() - j,
    {
        item_asgs.push(p.items[j].as_assignee());
        j = j + 1;
    }
    let ghost itemsv = Seq::new(p.items@.len(), |i: int| item_assignee(p.items@[i]));
    assert(asgs(item_asgs@) =~= itemsv);
    let ph = String::from_str("bindings");
    let walk = Walk { items: &item_asgs, with_items: true, placeholder: &ph };
    let mut outs: Vec<Vec<Tok>> = Vec::new();
    let mut pos: usize = 0;
    let mut assignee: Option<Assignee> = Some(asg.dup());
    let ghost a0 = ArgsV {
        outs: Seq::empty(),
        pos: 0,
        assignee: Some(asg@),
        stream: st.stream,
        spans: st.spans,
        objects: st.objects,
    };
    assert(svs(outs@) =~= Seq::<Seq<TokV>>::empty());
    let mut k: usize = 0;
    while k < p.args.len()
        invariant
            k <= p.args@.len(),
            pos <= item_asgs@.len(),
            walk.items == &item_asgs,
            walk.with_items,
            walk.placeholder@ == "bindings"@,
            asgs(item_asgs@) == itemsv,
            cv(out.constrs@) == st.constrs,
            sv(out.settings@) == st.settings,
            crate::state::ofv(out.fields) == st.fields,
            walk_args(p.args@, 0, a0, itemsv) == walk_args(
                p.args@,
                k as int,
                ArgsV {
                    outs: svs(outs@),
                    pos: pos as nat,
                    assignee: opt_asg(assignee),
                    stream: sv(out.stream@),
                    spans: out.spans@,
                    objects: sv(out.objects@),
                },
                itemsv,
            ),
        decreases p.args@.len() - k,
    {
        let ghost a = ArgsV {
            outs: svs(outs@),
            pos: pos as nat,
            assignee: opt_asg(assignee),
            stream: sv(out.stream@),
            spans: out.spans@,
            objects: sv(out.objects@),
        };
        let ghost v = crate::visit::visit(
            p.args@[k as int]@,
            crate::visit::VisitV {
                out: Seq::empty(),
                pos: a.pos,
                assignee: a.assignee,
                stream: a.stream,
                err: None,
                skip: 0,
            },
            itemsv,
            true,
            "bindings"@,
        );
        let mut o: Vec<Tok> = Vec::new();
        assert(sv(o@) =~= Seq::<TokV>::empty());
        let mut walked: Vec<Piece> = Vec::new();
        let err = walk.expr(&p.args[k], &mut o, &mut pos, &mut assignee, &mut out.stream, &mut walked);
        assert(sv(o@) == v.out && pos as nat == v.pos && opt_asg(assignee) == v.assignee
            && sv(out.stream@) == v.stream && err == v.err);
        match err {
            Some(e) => push(&mut out.objects, fail_tok(e)),
            None => {
                if out.stream.len() == 0 {
                    out.spans = Vec::new();
                    assert(out.spans@ =~= Seq::<u64>::empty());
                }
            },
        }
        let ghost prev = outs@;
        outs.push(o);
        assert(svs(outs@) =~= svs(prev).push(sv(o@)));
        k = k + 1;
        let ghost next = ArgsV {
            outs: a.outs.push(v.out),
            pos: v.pos,
            assignee: v.assignee,
            stream: v.stream,
            spans: if v.err is None && v.stream.len() == 0 {
                Seq::empty()
            } else {
                a.spans
            },
            objects: match v.err {
                Some(e) => a.objects + seq![fail(e)],
                None => a.objects,
            },
        };
        assert(walk_args(p.args@, k - 1, a, itemsv) == walk_args(p.args@, k as int, next, itemsv));
        assert(next =~= ArgsV {
            outs: svs(outs@),
            pos: pos as nat,
            assignee: opt_asg(assignee),
            stream: sv(out.stream@),
            spans: out.spans@,
            objects: sv(out.objects@),
        });
    }
    let ghost w = walk_args(p.args@, 0, a0, itemsv);
    if pos < item_asgs.len() {
        let mut t: Vec<Tok> = Vec::new();
        item_asgs[pos].to_tokens(&mut t);
        assert(asg_toks(itemsv[pos as int]) =~= sv(t@));
        push(&mut out.objects, fail_tok(diag_over(Fault::UnderscoreMissing, &t)));
    }
    let no_assignee = assignee.is_none();
    assert(out@ =~= St {
        objects: if w.pos < itemsv.len() {
            w.objects + seq![fail(spanned_diag(Fault::UnderscoreMissing, asg_toks(itemsv[w.pos as int])))]
        } else {
            w.objects
        },
        stream: w.stream,
        spans: w.spans,
        ..st
    });
    match items(&p.items, &p.attrs, out, pattrs) {
        Ok(()) => {},
        Err(e) => {
            return Err(e);
        },
    }
    property_tail(p, out, pattrs, asg, constr, &outs, no_assignee)
}

/// Adds a property's call (or field) to the construction it is part of,
/// writing the errors it reports to `objects`. `args` holds the rewritten
/// arguments joined by their commas.
fn join_constr_exec(
    p: &Property,
    c: Construction,
    objects: &mut Vec<Tok>,
    outs: &Vec<Vec<Tok>>,
    args: &Vec<Tok>,
) -> (r: Construction)
    requires
        sv(args@) == args_toks(svs(outs@), p.commas@, 0),
    ensures
        (sv(final(objects)@), r@) == join_constr(*p, c@, sv(old(objects)@), svs(outs@)),
{
    reveal(join_constr);
    match c {
        Construction::BuilderPattern { left, right, span, tilde } => {
            match check_property(Some(&p.attrs), &p.path, p.mode, p.mode_span, back_span_exec(&p.back)) {
                Err(e) => push(objects, fail_tok(e)),
                Ok(()) => {},
            }
            let mut right = right;
            punct(&mut right, '.', span);
            p.path.to_tokens(&mut right);
            extend_group(&mut right, Delim::Paren, span, args);
            Construction::BuilderPattern { left, right, span, tilde }
        },
        Construction::StructLiteral { left, ty, fields, span, tilde } => {
            match check_property(None, &p.path, p.mode, p.mode_span, back_span_exec(&p.back)) {
                Err(e) => push(objects, fail_tok(e)),
                Ok(()) => {},
            }
            if outs.len() > 1 {
                push(objects, fail_tok(diag_over(Fault::MultipleArgs, args)));
            }
            let mut fields = fields;
            p.path.to_tokens(&mut fields);
            push_colon_args(&mut fields, outs, span);
            punct(&mut fields, ',', span);
            Construction::StructLiteral { left, ty, fields, span, tilde }
        },
    }
}

/// A property in function-field mode (`:=` or `;;`) with the assignee
/// not taken by `_` calls the function held in the field: the assignee's
/// dotted names and the path stand inside a parenthesis of their own, and a
/// second parenthesis after it holds the arguments.
pub proof fn law_fn_field_calls_the_field(p: Property, asg: AssigneeV, args: Seq<TokV>)
    requires
        p.mode == PropMode::FnField,
    ensures
        ({
            let c = prop_call(p, asg, false, args);
            let f = crate::spec::dotted(asg, p.mode_span, p.mode_span) + path_toks(p.path);
            let sp = crate::path::spec_path_span(p.path);
            let n: int = f.len() as int;
            &&& c.len() == n + args.len() + 4
            &&& c[0] == TokV::Open { delim: Delim::Paren, span: sp }
            &&& c.subrange(1, n + 1) == f
            &&& c[n + 1] == TokV::Close { delim: Delim::Paren, span: sp }
            &&& c[n + 2] == TokV::Open { delim: Delim::Paren, span: sp }
            &&& c.subrange(n + 3, n + 3 + args.len()) == args
            &&& c[n + 3 + args.len()] == TokV::Close { delim: Delim::Paren, span: sp }
        }),
{
    reveal(prop_call);
    let c = prop_call(p, asg, false, args);
    let f = crate::spec::dotted(asg, p.mode_span, p.mode_span) + path_toks(p.path);
    let n: int = f.len() as int;
    assert(c.subrange(1, n + 1) =~= f);
    assert(c.subrange(n + 3, n + 3 + args.len()) =~= args);
}

/// The call a property makes (see [`prop_call`]).
fn prop_call_exec(p: &Property, asg: &Assignee, plain: bool, args: &Vec<Tok>) -> (r: Vec<Tok>)
    ensures
        sv(r@) == prop_call(*p, asg@, plain, sv(args@)),
{
    reveal(prop_call);
    let ms = p.mode_span;
    let mut right: Vec<Tok> = Vec::new();
    if plain {
        p.path.to_tokens(&mut right);
        extend_group(&mut right, Delim::Paren, ms, args);
    } else if p.mode == PropMode::Method {
        if p.path.is_long() {
            p.path.to_tokens(&mut right);
            let mut inner: Vec<Tok> = Vec::new();
            match p.by_ref {
                Some(r) => punct(&mut inner, '&', r),
                None => {},
            }
            push_mut(&mut inner, p.mut_);
            asg.spanned_to(ms, &mut inner);
            punct(&mut inner, ',', ms);
            extend(&mut inner, args);
            assert(sv(inner@) =~= ref_toks(p.by_ref) + crate::spec::mut_toks(p.mut_)
                + crate::visit::spanned(asg@, ms) + seq![crate::token::pn(',', ms)] + sv(args@));
            extend_group(&mut right, Delim::Paren, ms, &inner);
        } else {
            asg.dotted(ms, ms, &mut right);
            p.path.to_tokens(&mut right);
            extend_group(&mut right, Delim::Paren, p.path.span(), args);
        }
    } else {
        let mut field: Vec<Tok> = Vec::new();
        asg.dotted(ms, ms, &mut field);
        p.path.to_tokens(&mut field);
        extend_group(&mut right, Delim::Paren, p.path.span(), &field);
        extend_group(&mut right, Delim::Paren, p.path.span(), args);
    }
    right
}

/// What a property does once its arguments are rewritten (`outs`) and its
/// items expanded.
fn property_tail(
    p: &Property,
    out: &mut Out,
    pattrs: &Attributes,
    asg: &Assignee,
    constr: Option<usize>,
    outs: &Vec<Vec<Tok>>,
    no_assignee: bool,
) -> (r: Result<(), Diag>)
    ensures
        outcome(
            r,
            spec_property_tail(*p, old(out)@, pattrs@, asg@, onat(constr), svs(outs@), no_assignee),
            final(out)@,
        ),
    decreases *p, 0nat,
{
    let ghost st1 = out@;
    let args = join_args(outs, &p.commas);
    let plain = no_assignee && p.mut_.is_none() && p.by_ref.is_none();
    if no_assignee {
        push_underscore_errors(p, &mut out.objects);
    }
    let ghost st2 = out@;
    assert(st2 =~= if no_assignee {
        St { objects: st1.objects + underscore_errors(*p), ..st1 }
    } else {
        st1
    });
    let target: Option<usize> = if plain {
        None
    } else {
        match constr {
            Some(i) => if i < out.constrs.len() {
                Some(i)
            } else {
                None
            },
            None => None,
        }
    };
    assert(onat(target) == constr_target(onat(constr), plain, st2.constrs.len()));
    match target {
        Some(i) => {
            let c = out.constrs.remove(i);
            assert(c@ == st2.constrs[i as int]);
            let c2 = join_constr_exec(p, c, &mut out.objects, outs, &args);
            let ghost c2v = c2@;
            out.constrs.insert(i, c2);
            assert(cv(out.constrs@) =~= st2.constrs.update(i as int, c2v));
            assert(out@ =~= spec_property_tail(*p, st1, pattrs@, asg@, onat(constr), svs(outs@), no_assignee)->Ok_0);
            Ok(())
        },
        None => {
            let ms = p.mode_span;
            let pa = pattrs.get(&out.fields);
            if !plain && p.mode == PropMode::Field {
                extend(&mut out.settings, &pa);
                extend(&mut out.settings, &p.attrs);
                asg.dotted(ms, ms, &mut out.settings);
                p.path.to_tokens(&mut out.settings);
                punct(&mut out.settings, '=', ms);
                extend(&mut out.settings, &args);
                punct(&mut out.settings, ';', ms);
                assert(out@ =~= spec_property_tail(*p, st1, pattrs@, asg@, onat(constr), svs(outs@), no_assignee)->Ok_0);
                Ok(())
            } else if !plain && p.mode == PropMode::Auto {
                extend(&mut out.settings, &pa);
                extend(&mut out.settings, &p.attrs);
                asg.dotted(ms, CALL_SITE, &mut out.settings);
                p.path.to_tokens(&mut out.settings);
                assert(out@ =~= spec_property_tail(*p, st1, pattrs@, asg@, onat(constr), svs(outs@), no_assignee)->Ok_0);
                Ok(())
            } else {
                let right = prop_call_exec(p, asg, plain, &args);
                match &p.back {
                    None => {
                        extend(&mut out.settings, &pa);
                        extend(&mut out.settings, &p.attrs);
                        extend(&mut out.settings, &right);
                        punct(&mut out.settings, ';', CALL_SITE);
                        assert(out@ =~= spec_property_tail(*p, st1, pattrs@, asg@, onat(constr), svs(outs@), no_assignee)->Ok_0);
                        Ok(())
                    },
                    Some(b) => {
                        let mut attrs2 = pa;
                        extend(&mut attrs2, &p.attrs);
                        back(b, out, &Attributes::Given(attrs2), &right)
                    },
                }
            }
        },
    }
}

/// What starts a `'back` object's statement (see [`back_left`]).
fn back_left_exec(b: &Back, pattrs: Vec<Tok>) -> (r: Vec<Tok>)
    ensures
        sv(r@) == back_left(*b, sv(pattrs@)),
{
    reveal(back_left);
    let f = &b.field;
    let n = b.body.len();
    let first = if n > 0 {
        Some(&b.body[0])
    } else {
        None
    };
    let last = if n > 0 {
        Some(&b.body[n - 1])
    } else {
        None
    };
    if f.auto && b.build.is_some() && builds(first) && builds(last) {
        pattrs
    } else {
        let mut left = pattrs;
        push(&mut left, ident("let", b.token_span));
        push_mut(&mut left, f.mut_);
        push(&mut left, f.name.tok());
        punct(&mut left, '=', CALL_SITE);
        left
    }
}

/// Declares a `'back` object with a visibility as a struct field (see
/// [`back_fields`]).
fn back_fields_exec(f: &Field, attrs: &Attributes, fields: &mut Option<Vec<FieldDef>>) -> (r: Result<(), Diag>)
    ensures
        match back_fields(*f, attrs_get(attrs@, ofv(*old(fields))), ofv(*old(fields))) {
            Ok(fs) => r is Ok && ofv(*final(fields)) == fs,
            Err(e) => r == Err::<(), Diag>(e),
        },
{
    reveal(back_fields);
    match &f.vis {
        None => Ok(()),
        Some(vis) => {
            if fields.is_none() {
                let mut t = copy(vis);
                match &f.ty {
                    Some(ty) => ty.to_tokens(&mut t),
                    None => {},
                }
                assert(sv(t@) =~= sv(vis@) + opt_ty_toks(f.ty));
                return Err(diag_over(Fault::NoField, &t));
            }
            match &f.ty {
                None => {
                    let mut t: Vec<Tok> = Vec::new();
                    push(&mut t, f.name.tok());
                    assert(sv(t@) =~= seq![crate::path::name_tok(f.name@)]);
                    Err(diag_over(Fault::NoType, &t))
                },
                Some(ty) => {
                    let fa = attrs.get(fields);
                    let mut tt: Vec<Tok> = Vec::new();
                    ty.to_tokens(&mut tt);
                    assert(sv(tt@) =~= crate::path::type_path_toks(*ty));
                    let mut fs = fields.take().unwrap();
                    let fd = FieldDef {
                        attrs: fa,
                        vis: copy(vis),
                        name: f.name.dup(),
                        colon: CALL_SITE,
                        ty: tt,
                        comma: None,
                    };
                    add_field(&mut fs, fd);
                    *fields = Some(fs);
                    Ok(())
                },
            }
        },
    }
}

/// Expands the object a method call returns: named with a `let` (unless
/// unnamed and built at once by content that can close it), or kept as a
/// builder closed after its body when `build` is set; its body's settings
/// follow the statement that creates the object.
pub fn back(b: &Back, out: &mut Out, attrs: &Attributes, right: &Vec<Tok>) -> (r: Result<(), Diag>)
    ensures
        outcome(r, spec_back(*b, old(out)@, attrs@, sv(right@)), final(out)@),
    decreases *b, 0nat,
{
    let ghost st = out@;
    let pattrs = attrs.get(&out.fields);
    let left = back_left_exec(b, pattrs);
    let ghost leftv = sv(left@);
    let index: Option<usize> = match b.build {
        Some(span) => {
            let i = out.constrs.len();
            let c = Construction::BuilderPattern { left, right: copy(right), span, tilde: None };
            let ghost cval = c@;
            let ghost c0 = cv(out.constrs@);
            out.constrs.push(c);
            assert(cv(out.constrs@) =~= c0.push(cval));
            Some(i)
        },
        None => {
            extend(&mut out.settings, &left);
            extend(&mut out.settings, right);
            punct(&mut out.settings, ';', CALL_SITE);
            None
        },
    };
    let ghost st1 = out@;
    assert((st1, onat(index)) =~= back_start(*b, st, leftv, sv(right@)));
    let saved = copy(&out.settings);
    out.settings = Vec::new();
    let asg = Assignee::ident(&b.field.name);
    assert(out@ =~= St { settings: Seq::empty(), ..st1 });
    match body(&b.body, out, attrs, &asg, index) {
        Ok(()) => {},
        Err(e) => {
            return Err(e);
        },
    }
    let ghost st2 = out@;
    match back_fields_exec(&b.field, attrs, &mut out.fields) {
        Ok(()) => {},
        Err(e) => {
            return Err(e);
        },
    }
    let ghost fields = crate::state::ofv(out.fields);
    let setup = copy(&out.settings);
    out.settings = saved;
    match index {
        Some(i) => {
            if i < out.constrs.len() {
                let ghost c0 = cv(out.constrs@);
                let c = out.constrs.remove(i);
                c.extend_into(&mut out.settings);
                assert(cv(out.constrs@) =~= c0.remove(i as int));
            }
        },
        None => {},
    }
    extend(&mut out.settings, &setup);
    assert(out@ =~= back_finish(st1.settings, st2, onat(index), fields));
    Ok(())
}

/// `ref a.b { .. }`: names the field and expands the body with it as
/// assignee.
pub fn expand_edit(e: &Edit, out: &mut Out, pattrs: &Attributes, asg: &Assignee) -> (r: Result<(), Diag>)
    ensures
        outcome(r, spec_edit(*e, old(out)@, pattrs@, asg@), final(out)@),
    decreases *e, 0nat,
{
    let ghost st = out@;
    let mut attrs = pattrs.get(&out.fields);
    extend(&mut attrs, &e.attrs);
    let asg2 = asg.with_field(&e.edit);
    extend(&mut out.settings, &attrs);
    push(&mut out.settings, ident("let", CALL_SITE));
    push(&mut out.settings, ident("_", CALL_SITE));
    punct(&mut out.settings, '=', CALL_SITE);
    asg2.to_tokens(&mut out.settings);
    punct(&mut out.settings, ';', CALL_SITE);
    assert(out@ =~= St {
        settings: st.settings + sv(attrs@) + seq![
            id("let"@, CALL_SITE),
            id("_"@, CALL_SITE),
            pn('=', CALL_SITE),
        ] + crate::visit::asg_toks(asg2@) + seq![pn(';', CALL_SITE)],
        ..st
    });
    body(&e.body, out, &Attributes::Given(attrs), &asg2, None)
}

} // verus!
