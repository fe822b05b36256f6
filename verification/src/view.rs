//! Whole views: the roots of a view (structs and items) expanded in order,
//! and the output of the `block!` macro.
use vstd::prelude::*;

use crate::diag::{Diag, Fault};
use crate::expand::item;
use crate::model::{Attributes, Expr, Item, Piece, PieceV, Root, Roots, StructDef};
use crate::spec::{
    bindings_errors, constrs_rev, diag_at, empty_st, fail, spanned_diag, spec_item, struct_toks,
    St, StructV,
};
use crate::state::{diag_over, fail_tok, push_bindings_errors, Out};
use crate::token::{copy, extend, push, sv, Tok, TokV, CALL_SITE};
use crate::visit::{rebuild, rebuild_from, verbatim, visit, visit_from, visit_step, VisitV};

verus! {

/// The own attributes of a root item.
pub open spec fn root_attrs(it: Item) -> Seq<TokV> {
    match it.attrs {
        Some(a) => sv(a@),
        None => Seq::empty(),
    }
}

/// The fields that a root item may add to: those of the struct declared
/// just before it, if any.
pub open spec fn cur_fields(cur: Option<StructV>) -> Option<Seq<crate::spec::FieldV>> {
    match cur {
        Some(c) => Some(c.fields),
        None => None,
    }
}

/// The struct declared before an item, with the fields the item left.
pub open spec fn cur_after(cur: Option<StructV>, fields: Option<Seq<crate::spec::FieldV>>) -> Option<StructV> {
    match cur {
        Some(c) => Some(
            StructV {
                fields: match fields {
                    Some(f) => f,
                    None => c.fields,
                },
                ..c
            },
        ),
        None => None,
    }
}

/// The struct list with the pending struct, if any, added.
pub open spec fn push_cur(done: Seq<StructV>, cur: Option<StructV>) -> Seq<StructV> {
    match cur {
        Some(c) => done.push(c),
        None => done,
    }
}

/// The error for a struct that no item follows.
pub open spec fn unfollowed(cur: Option<StructV>) -> Diag {
    spanned_diag(
        Fault::StructsFollowedByItems,
        match cur {
            Some(c) => struct_toks(c),
            None => Seq::empty(),
        },
    )
}

/// The roots `roots[i..]`, in order. A struct must be followed by an item
/// (`fin` tells that the last root was a struct); the items after a struct
/// may declare fields of it; every struct ends up in `done` in order.
pub open spec fn spec_roots(
    roots: Seq<Root>,
    i: int,
    st: St,
    cur: Option<StructV>,
    fin: bool,
    done: Seq<StructV>,
) -> Result<(St, Option<StructV>, bool, Seq<StructV>), Diag>
    decreases roots.len() - i,
{
    if i < 0 || i >= roots.len() {
        Ok((st, cur, fin, done))
    } else {
        match roots[i] {
            Root::Struct(s) => if fin {
                Err(unfollowed(cur))
            } else {
                spec_roots(roots, i + 1, st, Some(s@), true, push_cur(done, cur))
            },
            Root::Item(it) => match spec_item(
                it,
                root_attrs(it),
                St { fields: cur_fields(cur), ..st },
                crate::model::AttributesV::Given(Seq::empty()),
            ) {
                Err(e) => Err(e),
                Ok(s2) => spec_roots(roots, i + 1, St { fields: None, ..s2 }, cur_after(cur, s2.fields), false, done),
            },
        }
    }
}

/// What the expansion of a view gives: the statements, the spans and stream
/// of the bindings left pending, and the structs declared.
#[verifier::ext_equal]
pub struct ExpansionV {
    pub stream: Seq<TokV>,
    pub spans: Seq<u64>,
    pub bindings: Seq<TokV>,
    pub structs: Seq<StructV>,
}

/// The expansion of a view: its roots in order, then the constructions
/// closed last first, then the settings.
pub open spec fn spec_expand_roots(roots: Seq<Root>) -> Result<ExpansionV, Diag> {
    match spec_roots(roots, 0, empty_st(), None, false, Seq::empty()) {
        Err(e) => Err(e),
        Ok((st, cur, fin, done)) => if fin {
            Err(unfollowed(cur))
        } else {
            Ok(
                ExpansionV {
                    stream: st.objects + constrs_rev(st.constrs, st.constrs.len() as int) + st.settings,
                    spans: st.spans,
                    bindings: st.stream,
                    structs: push_cur(done, cur),
                },
            )
        },
    }
}

/// The tokens of the structs `ss[i..]`.
pub open spec fn structs_toks(ss: Seq<StructV>, i: int) -> Seq<TokV>
    decreases ss.len() - i,
{
    if i < 0 || i >= ss.len() {
        Seq::empty()
    } else {
        struct_toks(ss[i]) + structs_toks(ss, i + 1)
    }
}

/// Once a struct is followed by another struct, or ends the roots, the
/// walk over the roots from any earlier point fails or ends on a struct.
proof fn lemma_unfollowed_struct(
    roots: Seq<Root>,
    j: int,
    i: int,
    st: St,
    cur: Option<StructV>,
    fin: bool,
    done: Seq<StructV>,
)
    requires
        0 <= i <= j < roots.len(),
        roots[j] is Struct,
        j + 1 == roots.len() || roots[j + 1] is Struct,
    ensures
        match spec_roots(roots, i, st, cur, fin, done) {
            Ok(r) => j + 1 == roots.len() && r.2,
            Err(_) => true,
        },
    decreases roots.len() - i,
{
    if i < j {
        match roots[i] {
            Root::Struct(s) => {
                if !fin {
                    lemma_unfollowed_struct(roots, j, i + 1, st, Some(s@), true, push_cur(done, cur));
                }
            },
            Root::Item(it) => {
                match spec_item(
                    it,
                    root_attrs(it),
                    St { fields: cur_fields(cur), ..st },
                    crate::model::AttributesV::Given(Seq::empty()),
                ) {
                    Err(e) => {},
                    Ok(s2) => {
                        lemma_unfollowed_struct(
                            roots,
                            j,
                            i + 1,
                            St { fields: None, ..s2 },
                            cur_after(cur, s2.fields),
                            false,
                            done,
                        );
                    },
                }
            },
        }
    } else {
        match roots[j] {
            Root::Struct(s) => {
                if !fin {
                    let d2 = push_cur(done, cur);
                    if j + 1 < roots.len() {
                        assert(spec_roots(roots, j + 1, st, Some(s@), true, d2) is Err);
                    } else {
                        assert(spec_roots(roots, j + 1, st, Some(s@), true, d2) == Ok::<
                            (St, Option<StructV>, bool, Seq<StructV>),
                            Diag,
                        >((st, Some(s@), true, d2)));
                    }
                }
            },
            Root::Item(_) => {},
        }
    }
}

/// A struct must be followed by an item: a view in which a struct is
/// followed by another struct, or ends the view, is refused.
pub proof fn law_struct_needs_item(roots: Seq<Root>, j: int)
    requires
        0 <= j < roots.len(),
        roots[j] is Struct,
        j + 1 == roots.len() || roots[j + 1] is Struct,
    ensures
        spec_expand_roots(roots) is Err,
{
    lemma_unfollowed_struct(roots, j, 0, empty_st(), None, false, Seq::empty());
}

/// What `block!` writes for a view: an error when it is empty or when its
/// expansion fails; else the expansion, an error for each binding left
/// pending, and the structs declared.
pub open spec fn spec_block(roots: Seq<Root>) -> Seq<TokV> {
    if roots.len() == 0 {
        seq![fail(diag_at(Fault::NoContent, CALL_SITE))]
    } else {
        match spec_expand_roots(roots) {
            Err(e) => seq![fail(e)],
            Ok(x) => x.stream + bindings_errors(x.spans) + structs_toks(x.structs, 0),
        }
    }
}

/// The expansion of a view.
#[derive(Debug)]
pub struct Expansion {
    pub stream: Vec<Tok>,
    pub spans: Vec<u64>,
    pub bindings: Vec<Tok>,
}

/// The values of structs.
pub open spec fn stv(v: Seq<StructDef>) -> Seq<StructV> {
    Seq::new(v.len(), |i: int| v[i]@)
}

/// The value of an optional struct.
pub open spec fn ostv(o: Option<StructDef>) -> Option<StructV> {
    match o {
        Some(s) => Some(s@),
        None => None,
    }
}

/// The error for a struct that no item follows.
fn unfollowed_exec(cur: &Option<StructDef>) -> (r: Diag)
    ensures
        r == unfollowed(ostv(*cur)),
{
    let mut t: Vec<Tok> = Vec::new();
    match cur {
        Some(c) => c.to_tokens(&mut t),
        None => {},
    }
    assert(sv(t@) =~= match ostv(*cur) {
        Some(c) => struct_toks(c),
        None => Seq::<TokV>::empty(),
    });
    diag_over(Fault::StructsFollowedByItems, &t)
}

/// Moves the pending struct, if any, to the list.
fn push_cur_exec(done: &mut Vec<StructDef>, cur: Option<StructDef>)
    ensures
        stv(final(done)@) == push_cur(stv(old(done)@), ostv(cur)),
{
    match cur {
        Some(c) => {
            done.push(c);
            assert(stv(done@) =~= stv(old(done)@).push(c@));
        },
        None => {},
    }
}

/// Expands the roots of a view in order. A struct must be followed by an
/// item, and the items after it may declare fields of it. The structs
/// declared are added to `structs` in order, once the whole view expanded.
pub fn expand_roots(roots: &Roots, structs: &mut Vec<StructDef>) -> (r: Result<Expansion, Diag>)
    ensures
        match spec_expand_roots(roots.roots@) {
            Ok(x) => r is Ok && sv(r->Ok_0.stream@) == x.stream && r->Ok_0.spans@ == x.spans
                && sv(r->Ok_0.bindings@) == x.bindings && stv(final(structs)@) == stv(old(structs)@)
                + x.structs,
            Err(e) => r == Err::<Expansion, Diag>(e) && final(structs)@ == old(structs)@,
        },
{
    let mut out = Out::new();
    let mut cur: Option<StructDef> = None;
    let mut fin = false;
    let mut done: Vec<StructDef> = Vec::new();
    let none: Vec<Tok> = Vec::new();
    let pattrs = Attributes::Given(copy(&none));
    assert(sv(none@) =~= Seq::<TokV>::empty());
    assert(stv(done@) =~= Seq::<StructV>::empty());
    let ghost start = spec_roots(roots.roots@, 0, empty_st(), None, false, Seq::empty());
    let mut i: usize = 0;
    while i < roots.roots.len()
        invariant
            i <= roots.roots@.len(),
            out.fields is None,
            start == spec_roots(roots.roots@, 0, empty_st(), None, false, Seq::empty()),
            start == spec_roots(roots.roots@, i as int, out@, ostv(cur), fin, stv(done@)),
            sv(none@) == Seq::<TokV>::empty(),
            pattrs@ == crate::model::AttributesV::Given(Seq::empty()),
            structs@ == old(structs)@,
        decreases roots.roots@.len() - i,
    {
        match &roots.roots[i] {
            Root::Struct(s) => {
                if fin {
                    return Err(unfollowed_exec(&cur));
                }
                let prev = cur.take();
                push_cur_exec(&mut done, prev);
                cur = Some(s.dup());
                fin = true;
            },
            Root::Item(it) => {
                fin = false;
                let ghost st0 = out@;
                let ghost c0 = ostv(cur);
                out.fields = match &cur {
                    Some(c) => Some(crate::state::dup_fields(&c.fields)),
                    None => None,
                };
                assert(out@ =~= St { fields: cur_fields(c0), ..st0 });
                let own = match &it.attrs {
                    Some(a) => copy(a),
                    None => copy(&none),
                };
                assert(sv(own@) == root_attrs(*it));
                match item(it, &own, &mut out, &pattrs) {
                    Ok(()) => {},
                    Err(e) => {
                        return Err(e);
                    },
                }
                let ghost s2 = out@;
                let left = out.fields.take();
                match left {
                    Some(fs) => {
                        match cur.take() {
                            Some(c) => {
                                let mut c = c;
                                c.fields = fs;
                                cur = Some(c);
                            },
                            None => {},
                        }
                    },
                    None => {},
                }
                assert(ostv(cur) == cur_after(c0, s2.fields));
                assert(out@ =~= St { fields: None, ..s2 });
            },
        }
        i = i + 1;
    }
    if fin {
        return Err(unfollowed_exec(&cur));
    }
    push_cur_exec(&mut done, cur);
    let stream = out.statements();
    let r = Expansion { stream, spans: out.spans, bindings: out.stream };
    let ghost d = stv(done@);
    structs.append(&mut done);
    assert(stv(structs@) =~= stv(old(structs)@) + d);
    Ok(r)
}

/// What `block!` writes for a view: an error when it is empty or when its
/// expansion fails; else the expansion, an error for each binding left
/// pending, and the structs declared.
pub fn block(roots: &Roots) -> (r: Vec<Tok>)
    ensures
        sv(r@) == spec_block(roots.roots@),
{
    let mut r: Vec<Tok> = Vec::new();
    if roots.roots.len() == 0 {
        push(&mut r, fail_tok(Diag { fault: Fault::NoContent, start: CALL_SITE, end: CALL_SITE }));
        assert(sv(r@) =~= spec_block(roots.roots@));
        return r;
    }
    let mut structs: Vec<StructDef> = Vec::new();
    match expand_roots(roots, &mut structs) {
        Err(e) => {
            push(&mut r, fail_tok(e));
            assert(sv(r@) =~= spec_block(roots.roots@));
            r
        },
        Ok(x) => {
            extend(&mut r, &x.stream);
            push_bindings_errors(&mut r, &x.spans);
            assert(stv(structs@) =~= spec_expand_roots(roots.roots@)->Ok_0.structs);
            let mut k: usize = 0;
            while k < structs.len()
                invariant
                    k <= structs@.len(),
                    sv(r@) + structs_toks(stv(structs@), k as int) == spec_block(roots.roots@),
                decreases structs@.len() - k,
            {
                structs[k].to_tokens(&mut r);
                assert(stv(structs@)[k as int] == structs@[k as int]@);
                k = k + 1;
            }
            r
        },
    }
}

} // verus!

verus! {

/// The walk that places a stream at the placeholder macro with the given
/// name in the code of an item.
pub open spec fn place_walk(item: Seq<PieceV>, stream: Seq<TokV>, placeholder: Seq<char>) -> VisitV {
    visit(item, start_walk(stream), Seq::empty(), false, placeholder)
}

/// The code of an item once a stream is placed in it.
pub open spec fn place_rebuild(item: Seq<PieceV>, stream: Seq<TokV>, placeholder: Seq<char>) -> Seq<PieceV> {
    rebuild(item, start_walk(stream), Seq::empty(), false, placeholder)
}

/// The state a placement walk starts from.
pub open spec fn start_walk(stream: Seq<TokV>) -> VisitV {
    VisitV { out: Seq::empty(), pos: 0, assignee: None, stream, err: None, skip: 0 }
}

/// A view expanded and waiting to be placed: the span range of its `view!`
/// and its expansion.
pub struct PendingV {
    pub range: (u64, u64),
    pub stream: Seq<TokV>,
    pub spans: Seq<u64>,
    pub bindings: Seq<TokV>,
}

/// Places a view in the code of an item: its statements go where
/// `expand_view_here!` stands (an error if nowhere), then, if bindings are
/// pending, their stream goes where `bindings!` stands; an error for each
/// pending binding is written when there is no such place.
pub open spec fn spec_place(item: Seq<PieceV>, x: PendingV) -> Result<(Seq<PieceV>, Seq<TokV>), Diag> {
    let w1 = place_walk(item, x.stream, "expand_view_here"@);
    let item1 = place_rebuild(item, x.stream, "expand_view_here"@);
    if w1.err is Some {
        Err(w1.err->0)
    } else if w1.stream.len() > 0 {
        Err(Diag { fault: Fault::ViewNotConsumed, start: x.range.0, end: x.range.1 })
    } else if x.spans.len() == 0 {
        Ok((item1, Seq::empty()))
    } else {
        let w2 = place_walk(item1, x.bindings, "bindings"@);
        let item2 = place_rebuild(item1, x.bindings, "bindings"@);
        if w2.err is Some {
            Err(w2.err->0)
        } else if w2.stream.len() > 0 {
            Ok((item2, bindings_errors(x.spans)))
        } else {
            Ok((item2, Seq::empty()))
        }
    }
}

/// A view written inside the code of an item with `view!`: the spans of its
/// name and `!`, and its roots (or the error met reading them).
#[derive(Debug)]
pub struct ViewSrc {
    pub name_span: u64,
    pub bang_span: u64,
    pub body: Result<Roots, Diag>,
}

/// What the `view` attribute holds: the roots of a view to place in the
/// item, or nothing but an optional struct, the views being written with
/// `view!` inside the item.
#[derive(Debug)]
pub enum Head {
    Roots(Roots),
    Views(Option<StructDef>),
}

/// The views `views[k..]` expanded in order, the first error stopping them;
/// an empty view is an error. The structs they declare follow `structs`.
pub open spec fn spec_expand_views(
    views: Seq<ViewSrc>,
    k: int,
    xs: Seq<PendingV>,
    structs: Seq<StructV>,
) -> Result<(Seq<PendingV>, Seq<StructV>), Diag>
    decreases views.len() - k,
{
    if k < 0 || k >= views.len() {
        Ok((xs, structs))
    } else {
        let v = views[k];
        match v.body {
            Err(e) => Err(e),
            Ok(r) => if r.roots@.len() == 0 {
                Err(Diag { fault: Fault::ViewNoContent, start: v.name_span, end: v.bang_span })
            } else {
                match spec_expand_roots(r.roots@) {
                    Err(e) => Err(e),
                    Ok(x) => spec_expand_views(
                        views,
                        k + 1,
                        xs.push(
                            PendingV {
                                range: (v.name_span, v.bang_span),
                                stream: x.stream,
                                spans: x.spans,
                                bindings: x.bindings,
                            },
                        ),
                        structs + x.structs,
                    ),
                }
            },
        }
    }
}

/// The views `xs[k..]` placed one after the other in the code of an item;
/// `errs` collects what each placement writes before the item.
pub open spec fn spec_place_all(item: Seq<PieceV>, xs: Seq<PendingV>, k: int, errs: Seq<Seq<TokV>>) -> Result<
    (Seq<PieceV>, Seq<Seq<TokV>>),
    Diag,
>
    decreases xs.len() - k,
{
    if k < 0 || k >= xs.len() {
        Ok((item, errs))
    } else {
        match spec_place(item, xs[k]) {
            Err(e) => Err(e),
            Ok((item2, e2)) => spec_place_all(item2, xs, k + 1, errs.push(e2)),
        }
    }
}

/// The concatenation of `ts[i..]`.
pub open spec fn concat_from(ts: Seq<Seq<TokV>>, i: int) -> Seq<TokV>
    decreases ts.len() - i,
{
    if i < 0 || i >= ts.len() {
        Seq::empty()
    } else {
        ts[i] + concat_from(ts, i + 1)
    }
}

/// The tokens of the structs `ss[..n]`, the last one first.
pub open spec fn rev_structs_toks(ss: Seq<StructV>, n: int) -> Seq<TokV>
    decreases n,
{
    if n <= 0 || n > ss.len() {
        Seq::empty()
    } else {
        struct_toks(ss[n - 1]) + rev_structs_toks(ss, n - 1)
    }
}

/// The tokens of pieces `ps[i..]`.
pub open spec fn pieces_toks(ps: Seq<PieceV>, i: int) -> Seq<TokV>
    decreases ps.len() - i,
{
    if i < 0 || i >= ps.len() {
        Seq::empty()
    } else {
        verbatim(ps[i]) + pieces_toks(ps, i + 1)
    }
}

/// The tokens of one piece followed by others.
proof fn lemma_pieces_toks_cons(x: PieceV, r: Seq<PieceV>)
    ensures
        pieces_toks(seq![x] + r, 0) == verbatim(x) + pieces_toks(r, 0),
{
    lemma_pieces_toks_shift(x, r, 0);
}

/// Skipping a first piece shifts the indices by one.
proof fn lemma_pieces_toks_shift(x: PieceV, r: Seq<PieceV>, i: int)
    requires
        0 <= i,
    ensures
        pieces_toks(seq![x] + r, i + 1) == pieces_toks(r, i),
    decreases r.len() - i,
{
    if i < r.len() {
        assert((seq![x] + r)[i + 1] == r[i]);
        lemma_pieces_toks_shift(x, r, i + 1);
    }
}

/// A walk with no items writes, after what it had written, exactly the
/// tokens of the pieces as they stand after it: the placement of a stream
/// changes the code at the placeholder that takes it and nowhere else.
pub proof fn law_walk_writes_rebuilt_code(
    ps: Seq<PieceV>,
    i: int,
    v: VisitV,
    placeholder: Seq<char>,
)
    requires
        0 <= i <= ps.len(),
    ensures
        v.out + pieces_toks(rebuild_from(ps, i, v, Seq::empty(), false, placeholder), 0)
            == visit_from(ps, i, v, Seq::empty(), false, placeholder).out,
    decreases ps.len() - i,
{
    if i < ps.len() {
        let v2 = visit_step(ps[i], v, Seq::empty(), false, placeholder);
        let x = crate::visit::rebuild_step(ps[i], v, placeholder);
        let rest = rebuild_from(ps, i + 1, v2, Seq::empty(), false, placeholder);
        assert(rebuild_from(ps, i, v, Seq::empty(), false, placeholder) == seq![x] + rest);
        lemma_pieces_toks_cons(x, rest);
        assert(v2.out == v.out + verbatim(x));
        law_walk_writes_rebuilt_code(ps, i + 1, v2, placeholder);
    } else {
        assert(rebuild_from(ps, i, v, Seq::empty(), false, placeholder) =~= Seq::<PieceV>::empty());
    }
}

/// With no stream waiting, a walk leaves every piece as it was.
proof fn lemma_nothing_waits(ps: Seq<PieceV>, i: int, v: VisitV, placeholder: Seq<char>)
    requires
        0 <= i <= ps.len(),
        v.stream.len() == 0,
    ensures
        rebuild_from(ps, i, v, Seq::empty(), false, placeholder) == ps.skip(i),
    decreases ps.len() - i,
{
    if i < ps.len() {
        let v2 = visit_step(ps[i], v, Seq::empty(), false, placeholder);
        assert(v2.stream.len() == 0);
        lemma_nothing_waits(ps, i + 1, v2, placeholder);
        assert(ps.skip(i) =~= seq![ps[i]] + ps.skip(i + 1));
    } else {
        assert(ps.skip(i) =~= Seq::<PieceV>::empty());
    }
}

/// The pieces `rb` are those of `ps` from `i` on, except maybe the one at `j`.
pub open spec fn same_but(rb: Seq<PieceV>, ps: Seq<PieceV>, i: int, j: int) -> bool {
    forall|k: int| 0 <= k < rb.len() && k != j ==> #[trigger] rb[k] == ps[i + k]
}

/// A walk with no items changes at most one piece: the placeholder that
/// takes the stream; every other piece stays as it was.
proof fn lemma_one_piece_changes(ps: Seq<PieceV>, i: int, v: VisitV, placeholder: Seq<char>)
    requires
        0 <= i <= ps.len(),
    ensures
        rebuild_from(ps, i, v, Seq::empty(), false, placeholder).len() == ps.len() - i,
        exists|j: int| #[trigger] same_but(rebuild_from(ps, i, v, Seq::empty(), false, placeholder), ps, i, j),
    decreases ps.len() - i,
{
    let rb = rebuild_from(ps, i, v, Seq::empty(), false, placeholder);
    if i < ps.len() {
        let v2 = visit_step(ps[i], v, Seq::empty(), false, placeholder);
        let x = crate::visit::rebuild_step(ps[i], v, placeholder);
        let rest = rebuild_from(ps, i + 1, v2, Seq::empty(), false, placeholder);
        assert(rb == seq![x] + rest);
        if crate::visit::takes(ps[i], v, placeholder) {
            assert(v2.stream.len() == 0);
            lemma_nothing_waits(ps, i + 1, v2, placeholder);
            assert forall|k: int| 0 <= k < rb.len() && k != 0 implies #[trigger] rb[k] == ps[i + k] by {
                assert(rb[k] == rest[k - 1]);
                assert(rest[k - 1] == ps.skip(i + 1)[k - 1]);
            }
            assert(same_but(rb, ps, i, 0));
        } else {
            lemma_one_piece_changes(ps, i + 1, v2, placeholder);
            let j = choose|j: int| #[trigger] same_but(rest, ps, i + 1, j);
            assert forall|k: int| 0 <= k < rb.len() && k != j + 1 implies #[trigger] rb[k] == ps[i + k] by {
                if k > 0 {
                    assert(rb[k] == rest[k - 1]);
                    assert(rest[k - 1] == ps[i + 1 + (k - 1)]);
                }
            }
            assert(same_but(rb, ps, i, j + 1));
        }
    } else {
        assert(same_but(rb, ps, i, 0));
    }
}

/// A stream is placed at one place at most: placing it changes at most one
/// piece of the code, the placeholder that takes it.
pub proof fn law_placed_at_most_once(item: Seq<PieceV>, stream: Seq<TokV>, placeholder: Seq<char>)
    ensures
        place_rebuild(item, stream, placeholder).len() == item.len(),
        exists|j: int| #[trigger] same_but(place_rebuild(item, stream, placeholder), item, 0, j),
{
    lemma_one_piece_changes(item, 0, start_walk(stream), placeholder);
}

/// Placing an empty stream leaves the code of an item as it was.
pub proof fn law_empty_stream_changes_nothing(item: Seq<PieceV>, placeholder: Seq<char>)
    ensures
        place_rebuild(item, Seq::empty(), placeholder) == item,
{
    lemma_nothing_waits(item, 0, start_walk(Seq::empty()), placeholder);
    assert(item.skip(0) =~= item);
}

/// What the attribute writes once every view is placed: what the first
/// placement wrote, the structs (the last one first) unless they go inside
/// the body of a module item, what the other placements wrote, and the item
/// (with the structs added at the end of its body when it is a module).
pub open spec fn assemble(item: Seq<PieceV>, errs: Seq<Seq<TokV>>, structs: Seq<StructV>, mod_body: bool) -> Seq<TokV> {
    let rs = rev_structs_toks(structs, structs.len() as int);
    let t = pieces_toks(item, 0);
    if mod_body && t.len() > 0 {
        concat_from(errs, 0) + t.drop_last() + rs + seq![t.last()]
    } else if errs.len() > 0 {
        errs[0] + rs + concat_from(errs, 1) + t
    } else {
        rs + t
    }
}

/// What the `view` attribute writes for an item. With roots, the view is
/// expanded and placed in the item. Else each `view!` in the item is
/// expanded in order, then each is placed in order; with no `view!` at all
/// it is an error. An error replaces the whole output.
pub open spec fn spec_view(head: Head, item: Seq<PieceV>, mod_body: bool, views: Seq<ViewSrc>) -> Seq<TokV> {
    match head {
        Head::Roots(r) => match spec_expand_roots(r.roots@) {
            Err(e) => seq![fail(e)],
            Ok(x) => match spec_place(
                item,
                PendingV { range: (CALL_SITE, CALL_SITE), stream: x.stream, spans: x.spans, bindings: x.bindings },
            ) {
                Err(e) => seq![fail(e)],
                Ok((item2, e2)) => assemble(item2, seq![e2], x.structs, mod_body),
            },
        },
        Head::Views(s) => {
            let s0 = match s {
                Some(s) => seq![s@],
                None => Seq::empty(),
            };
            match spec_expand_views(views, 0, Seq::empty(), s0) {
                Err(e) => seq![fail(e)],
                Ok((xs, structs)) => if xs.len() == 0 {
                    seq![fail(diag_at(Fault::NoView, CALL_SITE))]
                } else {
                    match spec_place_all(item, xs, 0, Seq::empty()) {
                        Err(e) => seq![fail(e)],
                        Ok((item2, errs)) => assemble(item2, errs, structs, mod_body),
                    }
                },
            }
        },
    }
}

/// A view expanded and waiting to be placed.
#[derive(Debug)]
pub struct Pending {
    pub range: (u64, u64),
    pub x: Expansion,
}

impl View for Pending {
    type V = PendingV;

    open spec fn view(&self) -> PendingV {
        PendingV {
            range: self.range,
            stream: sv(self.x.stream@),
            spans: self.x.spans@,
            bindings: sv(self.x.bindings@),
        }
    }
}

/// Walks the code of an item from the start, placing `stream` at the
/// placeholder macro with the given name.
fn place_stream(item: &Expr, stream: &Vec<Tok>, placeholder: &String) -> (r: (Option<Diag>, bool, Expr))
    ensures
        r.0 == place_walk(item@, sv(stream@), placeholder@).err,
        r.1 == (place_walk(item@, sv(stream@), placeholder@).stream.len() > 0),
        r.2@ == place_rebuild(item@, sv(stream@), placeholder@),
{
    let none: Vec<crate::model::Assignee> = Vec::new();
    let walk = crate::visit::Walk { items: &none, with_items: false, placeholder };
    let mut out: Vec<Tok> = Vec::new();
    let mut pos: usize = 0;
    let mut asg: Option<crate::model::Assignee> = None;
    let mut s = copy(stream);
    let mut rebuilt: Vec<Piece> = Vec::new();
    assert(crate::visit::asgs(none@) =~= Seq::<crate::model::AssigneeV>::empty());
    assert(sv(out@) =~= Seq::<TokV>::empty());
    assert(crate::visit::walk_state(out@, pos, asg, s@, None, 0) =~= start_walk(sv(stream@)));
    assert(crate::model::pvs(rebuilt@) =~= Seq::<PieceV>::empty());
    let err = walk.expr(item, &mut out, &mut pos, &mut asg, &mut s, &mut rebuilt);
    let left = s.len() > 0;
    let r = Expr { pieces: rebuilt };
    assert(r@ =~= place_rebuild(item@, sv(stream@), placeholder@));
    (err, left, r)
}

/// Places a view in the code of an item (see [`spec_place`]): returns the
/// code with the view placed and what to write before the item.
pub fn place(item: &Expr, x: &Pending) -> (r: Result<(Expr, Vec<Tok>), Diag>)
    ensures
        match spec_place(item@, x@) {
            Ok((it, e)) => r is Ok && r->Ok_0.0@ == it && sv(r->Ok_0.1@) == e,
            Err(d) => r == Err::<(Expr, Vec<Tok>), Diag>(d),
        },
{
    let ph1 = String::from_str("expand_view_here");
    let (err, left, item1) = place_stream(item, &x.x.stream, &ph1);
    match err {
        Some(e) => {
            return Err(e);
        },
        None => {},
    }
    if left {
        return Err(crate::diag::Range(x.range.0, x.range.1).error(Fault::ViewNotConsumed));
    }
    let mut errs: Vec<Tok> = Vec::new();
    assert(sv(errs@) =~= Seq::<TokV>::empty());
    if x.x.spans.len() == 0 {
        return Ok((item1, errs));
    }
    let ph2 = String::from_str("bindings");
    let (err2, left2, item2) = place_stream(&item1, &x.x.bindings, &ph2);
    match err2 {
        Some(e) => {
            return Err(e);
        },
        None => {},
    }
    if left2 {
        push_bindings_errors(&mut errs, &x.x.spans);
    }
    Ok((item2, errs))
}

/// The values of pending views.
pub open spec fn pendv(v: Seq<Pending>) -> Seq<PendingV> {
    Seq::new(v.len(), |i: int| v[i]@)
}

/// Expands the views written with `view!` in order (see
/// [`spec_expand_views`]); the structs they declare are added to `structs`.
pub fn expand_views(views: &Vec<ViewSrc>, structs: &mut Vec<StructDef>) -> (r: Result<Vec<Pending>, Diag>)
    ensures
        match spec_expand_views(views@, 0, Seq::empty(), stv(old(structs)@)) {
            Ok((xs, ss)) => r is Ok && pendv(r->Ok_0@) == xs && stv(final(structs)@) == ss,
            Err(e) => r == Err::<Vec<Pending>, Diag>(e),
        },
{
    let mut xs: Vec<Pending> = Vec::new();
    let ghost start = spec_expand_views(views@, 0, Seq::empty(), stv(structs@));
    assert(pendv(xs@) =~= Seq::<PendingV>::empty());
    let mut k: usize = 0;
    while k < views.len()
        invariant
            k <= views@.len(),
            start == spec_expand_views(views@, 0, Seq::empty(), stv(old(structs)@)),
            start == spec_expand_views(views@, k as int, pendv(xs@), stv(structs@)),
        decreases views@.len() - k,
    {
        let v = &views[k];
        match &v.body {
            Err(e) => {
                return Err(*e);
            },
            Ok(r) => {
                if r.roots.len() == 0 {
                    return Err(crate::diag::Range(v.name_span, v.bang_span).error(Fault::ViewNoContent));
                }
                let ghost s0 = stv(structs@);
                match expand_roots(r, structs) {
                    Err(e) => {
                        return Err(e);
                    },
                    Ok(x) => {
                        let ghost p0 = pendv(xs@);
                        let p = Pending { range: (v.name_span, v.bang_span), x };
                        let ghost pv = p@;
                        xs.push(p);
                        assert(pendv(xs@) =~= p0.push(pv));
                    },
                }
            },
        }
        k = k + 1;
    }
    Ok(xs)
}

/// Places the views one after the other in the code of an item (see
/// [`spec_place_all`]); returns the code and what each placement writes.
pub fn place_all(item: &Expr, xs: &Vec<Pending>) -> (r: Result<(Expr, Vec<Vec<Tok>>), Diag>)
    ensures
        match spec_place_all(item@, pendv(xs@), 0, Seq::empty()) {
            Ok((it, errs)) => r is Ok && r->Ok_0.0@ == it && crate::state::svs(r->Ok_0.1@) == errs,
            Err(e) => r == Err::<(Expr, Vec<Vec<Tok>>), Diag>(e),
        },
{
    let mut cur = Expr { pieces: Vec::new() };
    let mut errs: Vec<Vec<Tok>> = Vec::new();
    let ghost start = spec_place_all(item@, pendv(xs@), 0, Seq::empty());
    assert(crate::state::svs(errs@) =~= Seq::<Seq<TokV>>::empty());
    if xs.len() == 0 {
        let mut pieces: Vec<Piece> = Vec::new();
        let mut j: usize = 0;
        while j < item.pieces.len()
            invariant
                j <= item.pieces@.len(),
                crate::model::pvs(pieces@) == item@.take(j as int),
            decreases item.pieces@.len() - j,
        {
            let ghost p0 = pieces@;
            pieces.push(item.pieces[j].dup());
            assert(crate::model::pvs(pieces@) =~= crate::model::pvs(p0).push(item.pieces@[j as int]@));
            j = j + 1;
            assert(item@.take(j as int) =~= item@.take(j - 1).push(item.pieces@[j - 1]@));
        }
        assert(item@.take(j as int) =~= item@);
        return Ok((Expr { pieces }, errs));
    }
    match place(item, &xs[0]) {
        Err(e) => {
            return Err(e);
        },
        Ok((it, e)) => {
            cur = it;
            let ghost e0 = crate::state::svs(errs@);
            errs.push(e);
            assert(crate::state::svs(errs@) =~= e0.push(sv(e@)));
        },
    }
    let mut k: usize = 1;
    while k < xs.len()
        invariant
            1 <= k <= xs@.len(),
            start == spec_place_all(item@, pendv(xs@), 0, Seq::empty()),
            start == spec_place_all(cur@, pendv(xs@), k as int, crate::state::svs(errs@)),
        decreases xs@.len() - k,
    {
        match place(&cur, &xs[k]) {
            Err(e) => {
                return Err(e);
            },
            Ok((it, e)) => {
                cur = it;
                let ghost e0 = crate::state::svs(errs@);
                errs.push(e);
                assert(crate::state::svs(errs@) =~= e0.push(sv(e@)));
            },
        }
        k = k + 1;
    }
    Ok((cur, errs))
}

impl Expr {
    /// Appends the tokens of pieces `pieces[i..]`.
    fn to_tokens_from(&self, i: usize, out: &mut Vec<Tok>)
        requires
            i <= self.pieces@.len(),
        ensures
            sv(final(out)@) == sv(old(out)@) + pieces_toks(self@, i as int),
        decreases self.pieces@.len() - i,
    {
        if i < self.pieces.len() {
            let ghost before = sv(out@);
            match &self.pieces[i] {
                Piece::Toks(t) => extend(out, t),
                Piece::Infer { span } => push(out, crate::token::ident("_", *span)),
                Piece::Mac { toks, .. } => extend(out, toks),
                Piece::StmtOpen => {},
                Piece::StmtClose => {},
            }
            assert(sv(out@) =~= before + verbatim(self@[i as int]));
            self.to_tokens_from(i + 1, out);
        } else {
            assert(sv(out@) =~= sv(old(out)@) + pieces_toks(self@, i as int));
        }
    }

    /// Appends the tokens of this code.
    pub fn to_tokens(&self, out: &mut Vec<Tok>)
        ensures
            sv(final(out)@) == sv(old(out)@) + pieces_toks(self@, 0),
    {
        self.to_tokens_from(0, out);
    }
}

/// Appends the tokens of the structs, the last one first.
fn push_rev_structs(out: &mut Vec<Tok>, structs: &Vec<StructDef>)
    ensures
        sv(final(out)@) == sv(old(out)@) + rev_structs_toks(stv(structs@), structs@.len() as int),
{
    let mut n = structs.len();
    while n > 0
        invariant
            n <= structs@.len(),
            sv(out@) + rev_structs_toks(stv(structs@), n as int) == sv(old(out)@) + rev_structs_toks(
                stv(structs@),
                structs@.len() as int,
            ),
        decreases n,
    {
        structs[n - 1].to_tokens(out);
        assert(stv(structs@)[n - 1] == structs@[n - 1]@);
        n = n - 1;
    }
}

/// Appends the token vectors `ts[i..]`.
fn push_concat(out: &mut Vec<Tok>, ts: &Vec<Vec<Tok>>, i: usize)
    requires
        i <= ts@.len(),
    ensures
        sv(final(out)@) == sv(old(out)@) + concat_from(crate::state::svs(ts@), i as int),
    decreases ts@.len() - i,
{
    if i < ts.len() {
        extend(out, &ts[i]);
        assert(crate::state::svs(ts@)[i as int] == sv(ts@[i as int]@));
        push_concat(out, ts, i + 1);
    } else {
        assert(sv(out@) =~= sv(old(out)@) + concat_from(crate::state::svs(ts@), i as int));
    }
}

/// What the attribute writes once every view is placed (see [`assemble`]).
pub fn assemble_exec(item: &Expr, errs: &Vec<Vec<Tok>>, structs: &Vec<StructDef>, mod_body: bool) -> (r: Vec<Tok>)
    ensures
        sv(r@) == assemble(item@, crate::state::svs(errs@), stv(structs@), mod_body),
{
    let mut t: Vec<Tok> = Vec::new();
    item.to_tokens(&mut t);
    assert(sv(t@) =~= pieces_toks(item@, 0));
    let mut r: Vec<Tok> = Vec::new();
    if mod_body && t.len() > 0 {
        push_concat(&mut r, errs, 0);
        let last = t.pop().unwrap();
        extend(&mut r, &t);
        push_rev_structs(&mut r, structs);
        push(&mut r, last);
    } else if errs.len() > 0 {
        extend(&mut r, &errs[0]);
        assert(crate::state::svs(errs@)[0] == sv(errs@[0]@));
        push_rev_structs(&mut r, structs);
        push_concat(&mut r, errs, 1);
        extend(&mut r, &t);
    } else {
        push_rev_structs(&mut r, structs);
        extend(&mut r, &t);
    }
    assert(sv(r@) =~= assemble(item@, crate::state::svs(errs@), stv(structs@), mod_body));
    r
}

/// What the `view` attribute writes for an item (see [`spec_view`]).
/// `mod_body` tells whether the item is a module with a body, whose last
/// token closes that body.
pub fn view(head: &Head, item: &Expr, mod_body: bool, views: &Vec<ViewSrc>) -> (r: Vec<Tok>)
    ensures
        sv(r@) == spec_view(*head, item@, mod_body, views@),
{
    let mut r: Vec<Tok> = Vec::new();
    match head {
        Head::Roots(roots) => {
            let mut structs: Vec<StructDef> = Vec::new();
            match expand_roots(roots, &mut structs) {
                Err(e) => {
                    push(&mut r, fail_tok(e));
                },
                Ok(x) => {
                    assert(stv(structs@) =~= spec_expand_roots(roots.roots@)->Ok_0.structs);
                    let p = Pending { range: (CALL_SITE, CALL_SITE), x };
                    match place(item, &p) {
                        Err(e) => {
                            push(&mut r, fail_tok(e));
                        },
                        Ok((it, e)) => {
                            let mut errs: Vec<Vec<Tok>> = Vec::new();
                            errs.push(e);
                            assert(crate::state::svs(errs@) =~= seq![sv(e@)]);
                            r = assemble_exec(&it, &errs, &structs, mod_body);
                        },
                    }
                },
            }
        },
        Head::Views(s) => {
            let mut structs: Vec<StructDef> = Vec::new();
            match s {
                Some(s) => structs.push(s.dup()),
                None => {},
            }
            assert(stv(structs@) =~= match s {
                Some(s) => seq![s@],
                None => Seq::<StructV>::empty(),
            });
            match expand_views(views, &mut structs) {
                Err(e) => {
                    push(&mut r, fail_tok(e));
                },
                Ok(xs) => {
                    if xs.len() == 0 {
                        push(&mut r, fail_tok(Diag { fault: Fault::NoView, start: CALL_SITE, end: CALL_SITE }));
                    } else {
                        match place_all(item, &xs) {
                            Err(e) => {
                                push(&mut r, fail_tok(e));
                            },
                            Ok((it, errs)) => {
                                r = assemble_exec(&it, &errs, &structs, mod_body);
                            },
                        }
                    }
                },
            }
        },
    }
    assert(sv(r@) =~= spec_view(*head, item@, mod_body, views@));
    r
}

} // verus!
