//! Filling placeholders in expressions: each `_` takes the next item (or, once
//! the items are used up, the assignee), and the first placeholder macro with
//! the awaited name takes the pending stream.
use vstd::prelude::*;

use crate::diag::{Diag, Fault};
use crate::model::{pvs, Assignee, AssigneeV, Expr, Piece, PieceV};
use crate::path::{access_toks, AccessV};
use crate::token::{
    extend, extend_group, group, id, ident, pn, punct, push, sv, Delim, Tok, TokV, CALL_SITE,
};

verus! {

/// The names of `x.names[j..]` at `span`, each after a dot except the very
/// first one of the chain (`started` tells whether a name came before).
pub open spec fn access_spanned(x: AccessV, span: u64, j: int, started: bool) -> Seq<TokV>
    decreases x.names.len() - j,
{
    if j >= x.names.len() || j < 0 {
        Seq::empty()
    } else {
        (if started || j > 0 {
            seq![pn('.', span)]
        } else {
            Seq::empty()
        }) + seq![id(x.names[j].text, span)] + access_spanned(x, span, j + 1, true)
    }
}

/// The names of `a[i..]` at `span`, joined by dots at `span`.
pub open spec fn spanned_from(a: AssigneeV, span: u64, i: int, started: bool) -> Seq<TokV>
    decreases a.len() - i,
{
    if i >= a.len() || i < 0 {
        Seq::empty()
    } else {
        access_spanned(a[i], span, 0, started) + spanned_from(
            a,
            span,
            i + 1,
            started || a[i].names.len() > 0,
        )
    }
}

/// Every name of an assignee moved to `span`, joined by dots at `span`.
pub open spec fn spanned(a: AssigneeV, span: u64) -> Seq<TokV> {
    spanned_from(a, span, 0, false)
}

/// The tokens of `a[i..]`, each part after a dot.
pub open spec fn asg_toks_from(a: AssigneeV, i: int) -> Seq<TokV>
    decreases a.len() - i,
{
    if i >= a.len() || i < 0 {
        Seq::empty()
    } else {
        (if i > 0 {
            seq![pn('.', CALL_SITE)]
        } else {
            Seq::empty()
        }) + access_toks(a[i]) + asg_toks_from(a, i + 1)
    }
}

/// The tokens of an assignee.
pub open spec fn asg_toks(a: AssigneeV) -> Seq<TokV> {
    asg_toks_from(a, 0)
}

/// The values of a list of assignees.
pub open spec fn asgs(v: Seq<Assignee>) -> Seq<AssigneeV> {
    Seq::new(v.len(), |i: int| v[i]@)
}

/// The value of an optional assignee.
pub open spec fn opt_asg(o: Option<Assignee>) -> Option<AssigneeV> {
    match o {
        Some(a) => Some(a@),
        None => None,
    }
}

/// The state of a walk over the pieces of an expression.
#[verifier::ext_equal]
pub struct VisitV {
    /// What has been written so far.
    pub out: Seq<TokV>,
    /// How many items have been used.
    pub pos: nat,
    /// The assignee, until a `_` takes it.
    pub assignee: Option<AssigneeV>,
    /// The stream that waits for its placeholder.
    pub stream: Seq<TokV>,
    /// The error that stopped the walk.
    pub err: Option<Diag>,
    /// How deep inside skipped statements the walk is.
    pub skip: nat,
}

/// The tokens a piece stands for when it is left untouched.
pub open spec fn verbatim(p: PieceV) -> Seq<TokV> {
    match p {
        PieceV::Toks(t) => t,
        PieceV::Infer { span } => seq![id("_"@, span)],
        PieceV::Mac { toks, .. } => toks,
        PieceV::StmtOpen => Seq::empty(),
        PieceV::StmtClose => Seq::empty(),
    }
}

/// Whether a piece takes the waiting stream: a placeholder macro with the
/// awaited name and no tokens, met while a stream waits, outside skipped
/// statements and before any error.
pub open spec fn takes(p: PieceV, v: VisitV, placeholder: Seq<char>) -> bool {
    v.err is None && v.skip == 0 && v.stream.len() > 0 && match p {
        PieceV::Mac { name, empty, .. } => name == placeholder && empty,
        _ => false,
    }
}

/// What the waiting stream becomes where a placeholder takes it: the stream
/// itself for a statement, the stream in braces for an expression.
pub open spec fn placed(stmt: bool, stream: Seq<TokV>) -> Seq<TokV> {
    if stmt {
        stream
    } else {
        group(Delim::Brace, CALL_SITE, stream)
    }
}

/// One step of the walk. A statement met while no stream waits is left
/// untouched as a whole; after an error everything is left untouched.
pub open spec fn visit_step(
    p: PieceV,
    v: VisitV,
    items: Seq<AssigneeV>,
    with_items: bool,
    placeholder: Seq<char>,
) -> VisitV {
    if v.err is Some || v.skip > 0 {
        let skip = if v.err is Some {
            v.skip
        } else {
            match p {
                PieceV::StmtOpen => v.skip + 1,
                PieceV::StmtClose => (v.skip - 1) as nat,
                _ => v.skip,
            }
        };
        VisitV { out: v.out + verbatim(p), skip, ..v }
    } else {
        match p {
            PieceV::Toks(t) => VisitV { out: v.out + t, ..v },
            PieceV::StmtOpen => if v.stream.len() == 0 {
                VisitV { skip: 1, ..v }
            } else {
                v
            },
            PieceV::StmtClose => v,
            PieceV::Infer { span } => if !with_items {
                VisitV { out: v.out + seq![id("_"@, span)], ..v }
            } else if v.pos < items.len() {
                VisitV { out: v.out + spanned(items[v.pos as int], span), pos: v.pos + 1, ..v }
            } else if v.assignee is Some {
                VisitV {
                    out: v.out + spanned(v.assignee->0, span),
                    assignee: None,
                    ..v
                }
            } else {
                VisitV {
                    out: v.out + seq![id("_"@, span)],
                    err: Some(Diag { fault: Fault::NotEnoughItems, start: span, end: span }),
                    ..v
                }
            },
            PieceV::Mac { stmt, name, name_span, bang_span, empty, toks } => if v.stream.len()
                > 0 && name == placeholder {
                if !empty {
                    VisitV {
                        out: v.out + toks,
                        err: Some(
                            Diag { fault: Fault::PlaceholderContent, start: name_span, end: bang_span },
                        ),
                        ..v
                    }
                } else {
                    VisitV { out: v.out + placed(stmt, v.stream), stream: Seq::empty(), ..v }
                }
            } else {
                VisitV { out: v.out + toks, ..v }
            },
        }
    }
}

/// The walk over `ps[i..]`.
pub open spec fn visit_from(
    ps: Seq<PieceV>,
    i: int,
    v: VisitV,
    items: Seq<AssigneeV>,
    with_items: bool,
    placeholder: Seq<char>,
) -> VisitV
    decreases ps.len() - i,
{
    if i >= ps.len() || i < 0 {
        v
    } else {
        visit_from(ps, i + 1, visit_step(ps[i], v, items, with_items, placeholder), items, with_items, placeholder)
    }
}

/// The walk over a whole expression, from the given state.
pub open spec fn visit(
    e: Seq<PieceV>,
    v: VisitV,
    items: Seq<AssigneeV>,
    with_items: bool,
    placeholder: Seq<char>,
) -> VisitV {
    visit_from(e, 0, v, items, with_items, placeholder)
}

/// A piece as it stands after the walk: the placeholder that took the stream
/// becomes the tokens it was replaced with; the others stay as they were.
pub open spec fn rebuild_step(p: PieceV, v: VisitV, placeholder: Seq<char>) -> PieceV {
    if takes(p, v, placeholder) {
        PieceV::Toks(placed(p->stmt, v.stream))
    } else {
        p
    }
}

/// The pieces `ps[i..]` as they stand after the walk.
pub open spec fn rebuild_from(
    ps: Seq<PieceV>,
    i: int,
    v: VisitV,
    items: Seq<AssigneeV>,
    with_items: bool,
    placeholder: Seq<char>,
) -> Seq<PieceV>
    decreases ps.len() - i,
{
    if i >= ps.len() || i < 0 {
        Seq::empty()
    } else {
        seq![rebuild_step(ps[i], v, placeholder)] + rebuild_from(
            ps,
            i + 1,
            visit_step(ps[i], v, items, with_items, placeholder),
            items,
            with_items,
            placeholder,
        )
    }
}

/// The pieces of an expression as they stand after the walk.
pub open spec fn rebuild(
    e: Seq<PieceV>,
    v: VisitV,
    items: Seq<AssigneeV>,
    with_items: bool,
    placeholder: Seq<char>,
) -> Seq<PieceV> {
    rebuild_from(e, 0, v, items, with_items, placeholder)
}

impl Assignee {
    /// Appends the names of `parts[i..]` moved to `span`.
    fn spanned_from(&self, span: u64, i: usize, started: bool, out: &mut Vec<Tok>)
        requires
            i <= self.parts@.len(),
        ensures
            sv(final(out)@) == sv(old(out)@) + spanned_from(self@, span, i as int, started),
        decreases self.parts@.len() - i,
    {
        if i < self.parts.len() {
            let x = &self.parts[i];
            let mut j: usize = 0;
            let ghost before = sv(out@);
            proof {
                lemma_access_spanned_split(x@, span, 0, started);
            }
            while j < x.names.len()
                invariant
                    j <= x.names@.len(),
                    x == &self.parts@[i as int],
                    sv(out@) + access_spanned(x@, span, j as int, started || j > 0) == before
                        + access_spanned(x@, span, 0, started),
                decreases x.names@.len() - j,
            {
                let ghost mid = sv(out@);
                if started || j > 0 {
                    punct(out, '.', span);
                }
                push(out, x.names[j].tok_at(span));
                assert(sv(out@) == mid + (if started || j > 0 {
                    seq![pn('.', span)]
                } else {
                    Seq::empty()
                }) + seq![id(x@.names[j as int].text, span)]);
                j = j + 1;
            }
            assert(access_spanned(x@, span, j as int, started || j > 0) == Seq::<TokV>::empty());
            assert(sv(out@) == before + access_spanned(x@, span, 0, started));
            self.spanned_from(span, i + 1, started || x.names.len() > 0, out);
        } else {
            assert(sv(out@) == sv(old(out)@) + spanned_from(self@, span, i as int, started));
        }
    }

    /// Appends every name of the assignee moved to `span`, joined by dots at
    /// `span`.
    pub fn spanned_to(&self, span: u64, out: &mut Vec<Tok>)
        ensures
            sv(final(out)@) == sv(old(out)@) + spanned(self@, span),
    {
        self.spanned_from(span, 0, false, out);
    }

    /// Appends the tokens of `parts[i..]`.
    fn to_tokens_from(&self, i: usize, out: &mut Vec<Tok>)
        requires
            i <= self.parts@.len(),
        ensures
            sv(final(out)@) == sv(old(out)@) + asg_toks_from(self@, i as int),
        decreases self.parts@.len() - i,
    {
        if i < self.parts.len() {
            let ghost before = sv(out@);
            if i > 0 {
                punct(out, '.', CALL_SITE);
            }
            self.parts[i].to_tokens(out);
            assert(sv(out@) == before + (if i > 0 {
                seq![pn('.', CALL_SITE)]
            } else {
                Seq::empty()
            }) + access_toks(self@[i as int]));
            self.to_tokens_from(i + 1, out);
        } else {
            assert(sv(out@) == sv(old(out)@) + asg_toks_from(self@, i as int));
        }
    }

    /// Appends the tokens of the assignee: its parts joined by dots.
    pub fn to_tokens(&self, out: &mut Vec<Tok>)
        ensures
            sv(final(out)@) == sv(old(out)@) + asg_toks(self@),
    {
        self.to_tokens_from(0, out);
    }
}

/// The names of an access from `j` on, with the dot decided by whether
/// anything came before.
proof fn lemma_access_spanned_split(x: AccessV, span: u64, j: int, started: bool)
    requires
        0 <= j,
    ensures
        j > 0 ==> access_spanned(x, span, j, started) == access_spanned(x, span, j, true),
    decreases x.names.len() - j,
{
}

/// The walk over the pieces of an expression, writing to `out`.
pub struct Walk<'a> {
    pub items: &'a Vec<Assignee>,
    pub with_items: bool,
    pub placeholder: &'a String,
}

/// The state of a walk in its exec form.
pub open spec fn walk_state(
    out: Seq<Tok>,
    pos: usize,
    assignee: Option<Assignee>,
    stream: Seq<Tok>,
    err: Option<Diag>,
    skip: nat,
) -> VisitV {
    VisitV { out: sv(out), pos: pos as nat, assignee: opt_asg(assignee), stream: sv(stream), err, skip }
}

impl<'a> Walk<'a> {
    /// Walks an expression: `pos` counts the items used, `assignee` is taken
    /// by a `_` once the items are used up, `stream` is taken by the first
    /// placeholder macro with the awaited name. The pieces as they stand
    /// after the walk are added to `rebuilt`. Returns the error that stopped
    /// the walk, if any.
    pub fn expr(
        &self,
        e: &Expr,
        out: &mut Vec<Tok>,
        pos: &mut usize,
        assignee: &mut Option<Assignee>,
        stream: &mut Vec<Tok>,
        rebuilt: &mut Vec<Piece>,
    ) -> (err: Option<Diag>)
        requires
            *old(pos) <= self.items@.len(),
        ensures
            ({
                let v0 = walk_state(old(out)@, *old(pos), *old(assignee), old(stream)@, None, 0);
                let r = visit(e@, v0, asgs(self.items@), self.with_items, self.placeholder@);
                &&& sv(final(out)@) == r.out
                &&& *final(pos) as nat == r.pos
                &&& opt_asg(*final(assignee)) == r.assignee
                &&& sv(final(stream)@) == r.stream
                &&& err == r.err
                &&& pvs(final(rebuilt)@) == pvs(old(rebuilt)@) + rebuild(
                    e@,
                    v0,
                    asgs(self.items@),
                    self.with_items,
                    self.placeholder@,
                )
            }),
            *final(pos) <= self.items@.len(),
    {
        let mut err: Option<Diag> = None;
        let mut skip: usize = 0;
        let mut i: usize = 0;
        let ghost ps = e@;
        let ghost items = asgs(self.items@);
        let ghost start = walk_state(out@, *pos, *assignee, stream@, None, 0);
        let ghost r0 = pvs(rebuilt@);
        while i < e.pieces.len()
            invariant
                ps == e@,
                items == asgs(self.items@),
                i <= ps.len(),
                skip <= i,
                *pos <= self.items@.len(),
                visit_from(ps, 0, start, items, self.with_items, self.placeholder@) == visit_from(
                    ps,
                    i as int,
                    walk_state(out@, *pos, *assignee, stream@, err, skip as nat),
                    items,
                    self.with_items,
                    self.placeholder@,
                ),
                r0 + rebuild_from(ps, 0, start, items, self.with_items, self.placeholder@) == pvs(
                    rebuilt@,
                ) + rebuild_from(
                    ps,
                    i as int,
                    walk_state(out@, *pos, *assignee, stream@, err, skip as nat),
                    items,
                    self.with_items,
                    self.placeholder@,
                ),
            decreases ps.len() - i,
        {
            let ghost cur = walk_state(out@, *pos, *assignee, stream@, err, skip as nat);
            let ghost rb = pvs(rebuilt@);
            let p = &e.pieces[i];
            assert(ps[i as int] == p@);
            let mut keep = true;
            if err.is_some() || skip > 0 {
                if err.is_none() {
                    match p {
                        Piece::StmtOpen => {
                            skip = skip + 1;
                        },
                        Piece::StmtClose => {
                            skip = skip - 1;
                        },
                        _ => {},
                    }
                }
                self.verbatim(p, out);
            } else {
                match p {
                    Piece::Toks(t) => extend(out, t),
                    Piece::StmtOpen => {
                        if stream.len() == 0 {
                            skip = 1;
                        }
                    },
                    Piece::StmtClose => {},
                    Piece::Infer { span } => {
                        if !self.with_items {
                            push(out, ident("_", *span));
                        } else if *pos < self.items.len() {
                            assert(items[*pos as int] == self.items@[*pos as int]@);
                            self.items[*pos].spanned_to(*span, out);
                            *pos = *pos + 1;
                        } else {
                            match assignee {
                                Some(a) => {
                                    a.spanned_to(*span, out);
                                },
                                None => {
                                    push(out, ident("_", *span));
                                    err = Some(Diag { fault: Fault::NotEnoughItems, start: *span, end: *span });
                                },
                            }
                            *assignee = None;
                        }
                    },
                    Piece::Mac { stmt, name, name_span, bang_span, empty, toks } => {
                        if stream.len() > 0 && *name == *self.placeholder {
                            if !*empty {
                                extend(out, toks);
                                err = Some(Diag { fault: Fault::PlaceholderContent, start: *name_span, end: *bang_span });
                            } else {
                                let mut t: Vec<Tok> = Vec::new();
                                if *stmt {
                                    extend(&mut t, stream);
                                } else {
                                    extend_group(&mut t, Delim::Brace, CALL_SITE, stream);
                                }
                                assert(sv(t@) =~= placed(*stmt, cur.stream));
                                extend(out, &t);
                                rebuilt.push(Piece::Toks(t));
                                keep = false;
                                *stream = Vec::new();
                                assert(sv(stream@) =~= Seq::<TokV>::empty());
                            }
                        } else {
                            extend(out, toks);
                        }
                    },
                }
            }
            if keep {
                rebuilt.push(p.dup());
            }
            proof {
                assert(walk_state(out@, *pos, *assignee, stream@, err, skip as nat) =~= visit_step(
                    ps[i as int],
                    cur,
                    items,
                    self.with_items,
                    self.placeholder@,
                ));
                assert(pvs(rebuilt@) =~= rb.push(rebuild_step(ps[i as int], cur, self.placeholder@)));
            }
            i = i + 1;
        }
        assert(pvs(rebuilt@) =~= r0 + rebuild_from(ps, 0, start, items, self.with_items, self.placeholder@));
        err
    }

    /// Appends the tokens a piece stands for when left untouched.
    fn verbatim(&self, p: &Piece, out: &mut Vec<Tok>)
        ensures
            sv(final(out)@) == sv(old(out)@) + verbatim(p@),
    {
        match p {
            Piece::Toks(t) => extend(out, t),
            Piece::Infer { span } => push(out, ident("_", *span)),
            Piece::Mac { toks, .. } => extend(out, toks),
            Piece::StmtOpen => {
                assert(sv(out@) =~= sv(old(out)@) + verbatim(p@));
            },
            Piece::StmtClose => {
                assert(sv(out@) =~= sv(old(out)@) + verbatim(p@));
            },
        }
    }
}

} // verus!
