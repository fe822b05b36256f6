//! The syntax of a view, over its tokens: for each construct read at a
//! position, where it ends and what the counter of made-up names is after
//! it, or the first error met, as the reader meets it. A view is well
//! formed exactly when [`roots_res`] is `Ok`; the readers of
//! [`crate::read`] succeed on exactly these inputs and fail with exactly
//! these errors.
use vstd::prelude::*;

use crate::diag::{Diag, Fault};
use crate::fragment::{accepts, fragment_end, text_of, tree_end, Frag};
use crate::grammar::{spec_item_mode, spec_setter, Kind};
use crate::naming::next_count;
use crate::read::{
    access_at, attrs_end, back_at, group_close, if_head_end, kind_at, name_view, opens, punct_is,
    punct_of, span_of, struct_brace, tilde_next, vis_end, word_is,
};
use crate::spec::spanned_diag;
use crate::token::{tok_span, Delim, TokV};

verus! {

/// An error at the token at `i`.
pub open spec fn here(v: Seq<TokV>, i: int, fault: Fault) -> Diag {
    Diag { fault, start: span_of(v, i), end: span_of(v, i) }
}

/// A reader's result against its statement: the same end, or the same
/// error.
pub open spec fn same<T>(r: Result<(T, usize), Diag>, s: Result<int, Diag>) -> bool {
    match s {
        Ok(e) => r is Ok && r->Ok_0.1 == e,
        Err(d) => r is Err && r->Err_0 == d,
    }
}

/// A reader's result against its statement, with the counter of made-up
/// names after it.
pub open spec fn same_count<T>(r: Result<(T, usize), Diag>, s: Result<(int, usize), Diag>, k: usize) -> bool {
    match s {
        Ok((e, k2)) => r is Ok && r->Ok_0.1 == e && k == k2,
        Err(d) => r is Err && r->Err_0 == d,
    }
}

/// A reader of contents against its statement: the counter after them,
/// or the same error.
pub open spec fn same_k<T>(r: Result<T, Diag>, s: Result<usize, Diag>, k: usize) -> bool {
    match s {
        Ok(k2) => r is Ok && k == k2,
        Err(d) => r is Err && r->Err_0 == d,
    }
}

/// Whether `::` stands at `i`.
pub open spec fn colon2_at(v: Seq<TokV>, i: int, end: int) -> bool {
    punct_of(v, i, end) matches Some(p) && p.ch == ':' && p.joint && i + 1 < end && punct_is(v, i + 1, end, ':')
}

/// Whether a `>` that closes angle brackets stands at `k` (not the end of
/// `->`).
pub open spec fn closes_angle_at(v: Seq<TokV>, k: int, end: int) -> bool {
    punct_is(v, k, end, '>') && (k == 0 || !(v[k - 1] matches TokV::Punct { ch, joint, .. } && ch == '-'
        && joint))
}

/// Where angle brackets close, scanning token trees from `k` with `depth`
/// of them open: just after the `>` that closes the first, or `end`.
pub open spec fn angle_scan(v: Seq<TokV>, k: int, end: int, depth: nat) -> int
    decreases end - k,
{
    if k < end {
        let j = tree_end(v, k, end);
        if punct_is(v, k, end, '<') {
            if k < j <= end {
                angle_scan(v, j, end, depth + 1)
            } else {
                end
            }
        } else if closes_angle_at(v, k, end) && depth > 0 {
            if depth == 1 {
                k + 1
            } else if k < j <= end {
                angle_scan(v, j, end, (depth - 1) as nat)
            } else {
                end
            }
        } else if k < j <= end {
            angle_scan(v, j, end, depth)
        } else {
            end
        }
    } else {
        end
    }
}

/// Where the arguments of a path segment end, scanning from `k` with
/// `depth` angle brackets open: at a `::` outside them not followed by
/// `<`, or at `e`.
pub open spec fn seg_scan(v: Seq<TokV>, k: int, e: int, depth: nat) -> int
    decreases e - k,
{
    if k < e {
        if depth == 0 && colon2_at(v, k, e) && !punct_is(v, k + 2, e, '<') {
            k
        } else {
            let j = tree_end(v, k, e);
            let d = if punct_is(v, k, e, '<') {
                depth + 1
            } else if closes_angle_at(v, k, e) && depth > 0 {
                (depth - 1) as nat
            } else {
                depth
            };
            if k < j <= e {
                seg_scan(v, j, e, d)
            } else {
                e
            }
        }
    } else {
        e
    }
}

/// How many segments a type path has from `i` to `e`: one for each
/// identifier that starts one.
pub open spec fn segs_count(v: Seq<TokV>, i: int, e: int) -> nat
    decreases e - i,
{
    if i < e && v[i] is Ident {
        let k = seg_scan(v, i + 1, e, 0);
        let k2 = if colon2_at(v, k, e) {
            k + 2
        } else {
            k
        };
        if i < k2 <= e {
            1 + segs_count(v, k2, e)
        } else {
            1
        }
    } else {
        0
    }
}

/// Where the segments of a type path from `pos` to `e` start: after a
/// qualified prefix and its `::`, or after a leading `::`.
pub open spec fn tp_start(v: Seq<TokV>, pos: int, e: int) -> int {
    if punct_is(v, pos, e, '<') {
        let a = angle_scan(v, pos, e, 0);
        if colon2_at(v, a, e) {
            a + 2
        } else {
            a
        }
    } else if colon2_at(v, pos, e) {
        pos + 2
    } else {
        pos
    }
}

/// A type path at `pos`: where it ends.
pub open spec fn tp_res(v: Seq<TokV>, pos: int, end: int) -> Result<int, Diag> {
    match fragment_end(Frag::TypePath, v, pos, end) {
        Some(e) => Ok(e),
        None => Err(here(v, pos, Fault::ExpectedType)),
    }
}

/// Whether the path at `pos` is identifiers joined by dots.
pub open spec fn field_path_at(v: Seq<TokV>, pos: int, end: int) -> bool {
    name_view(v, pos, end) is Some && punct_is(v, pos + 1, end, '.')
}

/// A path at `pos`: where it ends.
pub open spec fn path_res(v: Seq<TokV>, pos: int, end: int) -> Result<int, Diag> {
    if field_path_at(v, pos, end) {
        match access_at(v, pos, end) {
            Err(p) => Err(here(v, p, Fault::ExpectedIdent)),
            Ok((_, ae)) => {
                let st = if colon2_at(v, ae, end) {
                    ae + 2
                } else {
                    ae
                };
                if punct_is(v, st, end, '<') {
                    let k = angle_scan(v, st, end, 0);
                    if accepts(Frag::Turbofish, text_of(v, ae, k)) {
                        Ok(k)
                    } else {
                        Ok(ae)
                    }
                } else {
                    Ok(ae)
                }
            },
        }
    } else {
        tp_res(v, pos, end)
    }
}

/// Whether the path at `pos` is long: a type path with a qualified prefix
/// or more than one segment.
pub open spec fn path_long(v: Seq<TokV>, pos: int, end: int) -> bool {
    if field_path_at(v, pos, end) {
        false
    } else {
        match fragment_end(Frag::TypePath, v, pos, end) {
            Some(e) => punct_is(v, pos, e, '<') || segs_count(v, tp_start(v, pos, e), e) > 1,
            None => false,
        }
    }
}

/// The name given to an object at `pos`: where it ends, and whether the
/// name is made up.
pub open spec fn field_res(v: Seq<TokV>, pos: int, end: int) -> Result<(int, bool), Diag> {
    let pubv = word_is(v, pos, end, "pub"@);
    if pubv && fragment_end(Frag::Vis, v, pos, end) is None {
        Err(here(v, pos, Fault::ExpectedIdent))
    } else {
        let has_vis = pubv || word_is(v, pos, end, "ref"@);
        let i1 = vis_end(v, pos, end);
        let i2 = if word_is(v, i1, end, "mut"@) {
            i1 + 1
        } else {
            i1
        };
        let named = name_view(v, i2, end) is Some;
        let i3 = if named {
            i2 + 1
        } else {
            i2
        };
        let ty = if has_vis && word_is(v, i3, end, "as"@) {
            tp_res(v, i3 + 1, end)
        } else {
            Ok(i3)
        };
        match ty {
            Err(d) => Err(d),
            Ok(i4) => if has_vis && !named {
                Err(here(v, i2, Fault::ExpectedIdent))
            } else {
                Ok((i4, !has_vis && !named))
            },
        }
    }
}

/// The counter after a name: moved on when the name is made up.
pub open spec fn count_after(k: usize, auto: bool) -> usize {
    if auto {
        next_count(k)
    } else {
        k
    }
}

/// An expression at `pos`: where it ends.
pub open spec fn expr_res(v: Seq<TokV>, pos: int, end: int) -> Result<int, Diag> {
    match fragment_end(Frag::Expr, v, pos, end) {
        Some(e) => Ok(e),
        None => Err(here(v, pos, Fault::ExpectedExpr)),
    }
}

/// The outer attributes at `pos`: where they end.
pub open spec fn attrs_res(v: Seq<TokV>, pos: int, end: int) -> Result<int, Diag> {
    let a = attrs_end(v, pos, end);
    if a > pos && !accepts(Frag::Attrs, text_of(v, pos, a)) {
        Err(spanned_diag(Fault::ExpectedAttributes, v.subrange(pos, a)))
    } else {
        Ok(a)
    }
}

/// The arguments after the first one, from `i`: each after a comma.
pub open spec fn args_res(v: Seq<TokV>, i: int, end: int) -> Result<int, Diag>
    decreases end - i,
{
    if punct_is(v, i, end, ',') {
        match expr_res(v, i + 1, end) {
            Err(d) => Err(d),
            Ok(e) => if i < e <= end {
                args_res(v, e, end)
            } else {
                Ok(i)
            },
        }
    } else {
        Ok(i)
    }
}

/// The arguments after the first one, from `i`: where each starts (after
/// its comma) and ends.
pub open spec fn arg_list(v: Seq<TokV>, i: int, end: int) -> Seq<(int, int)>
    decreases end - i,
{
    if punct_is(v, i, end, ',') {
        match expr_res(v, i + 1, end) {
            Ok(e) => if i < e <= end {
                seq![(i + 1, e)] + arg_list(v, e, end)
            } else {
                Seq::empty()
            },
            Err(_) => Seq::empty(),
        }
    } else {
        Seq::empty()
    }
}

/// The arguments of a property at `i`: one expression, or (as a `list`)
/// expressions joined by commas.
pub open spec fn arguments_res(v: Seq<TokV>, i: int, end: int, list: bool) -> Result<int, Diag> {
    match expr_res(v, i, end) {
        Err(d) => Err(d),
        Ok(e1) => if list {
            args_res(v, e1, end)
        } else {
            Ok(e1)
        },
    }
}

/// The contents of the group opened at `open` and ending at `te`: the
/// counter after them.
pub open spec fn group_res(v: Seq<TokV>, open: int, te: int, k: usize) -> Result<usize, Diag>
    decreases te - open, 0nat,
{
    let close = group_close(v, open, te);
    if open < close <= te {
        body_res(v, open + 1, close, k)
    } else {
        Ok(k)
    }
}

/// The contents from `i` to `b`, one after the other: the counter after
/// them.
pub open spec fn body_res(v: Seq<TokV>, i: int, b: int, k: usize) -> Result<usize, Diag>
    decreases b - i, 6nat,
{
    if i < b {
        match content_res(v, i, b, k) {
            Err(d) => Err(d),
            Ok((e, k2)) => if i < e <= b {
                body_res(v, e, b, k2)
            } else {
                Ok(k2)
            },
        }
    } else {
        Ok(k)
    }
}

/// A content at `pos`: its attributes, then the rest.
pub open spec fn content_res(v: Seq<TokV>, pos: int, end: int, k: usize) -> Result<(int, usize), Diag>
    decreases end - pos, 5nat,
{
    match attrs_res(v, pos, end) {
        Err(d) => Err(d),
        Ok(a) => if pos <= a <= end {
            with_res(v, a, end, k)
        } else {
            Ok((a, k))
        },
    }
}

/// A content at `pos` once its attributes are read, by its kind.
pub open spec fn with_res(v: Seq<TokV>, pos: int, end: int, k: usize) -> Result<(int, usize), Diag>
    decreases end - pos, 4nat,
{
    match kind_at(v, pos, end) {
        Err(s) => Err(Diag { fault: Fault::UnexpectedLifetime, start: s, end: s }),
        Ok(Kind::Construct) => construct_res(v, pos, end, k),
        Ok(Kind::BindColon) => bind_colon_res(v, pos, end, k),
        Ok(Kind::Bind) => bind_res(v, pos, end, k),
        Ok(Kind::Consume) => match consume_res(v, pos, end) {
            Err(d) => Err(d),
            Ok(e) => Ok((e, k)),
        },
        Ok(Kind::If) => if_chain_res(v, pos, end, k),
        Ok(Kind::Match) => match_res(v, pos, end, k),
        Ok(Kind::Edit) => edit_res(v, pos, end, k),
        Ok(Kind::Property) => prop_res(v, pos, end, k),
    }
}

/// `'bind:` at `pos`: `if`, a condition and braces.
pub open spec fn bind_colon_res(v: Seq<TokV>, pos: int, end: int, k: usize) -> Result<(int, usize), Diag>
    decreases end - pos, 3nat,
{
    let i = pos + 3;
    if !word_is(v, i, end, "if"@) {
        Err(here(v, i, Fault::ExpectedIf))
    } else {
        match expr_res(v, i + 1, end) {
            Err(d) => Err(d),
            Ok(ce) => braced_res(v, pos, ce, end, k),
        }
    }
}

/// `'bind` at `pos`: maybe `#`, then braces or one content.
pub open spec fn bind_res(v: Seq<TokV>, pos: int, end: int, k: usize) -> Result<(int, usize), Diag>
    decreases end - pos, 3nat,
{
    let i = if punct_is(v, pos + 2, end, '#') {
        pos + 3
    } else {
        pos + 2
    };
    if i > end {
        Err(here(v, end, Fault::ExpectedBraces))
    } else if opens(v, i, end, Delim::Brace) {
        braced_res(v, pos, i, end, k)
    } else if pos < i {
        with_res(v, i, end, k)
    } else {
        Ok((i, k))
    }
}

/// `'consume` at `pos`: maybe `mut`, a name, `=`, an expression and maybe
/// `;`: where it ends.
pub open spec fn consume_res(v: Seq<TokV>, pos: int, end: int) -> Result<int, Diag> {
    let i = if word_is(v, pos + 2, end, "mut"@) {
        pos + 3
    } else {
        pos + 2
    };
    if name_view(v, i, end) is None {
        Err(here(v, i, Fault::ExpectedIdent))
    } else if !punct_is(v, i + 1, end, '=') {
        Err(here(v, i + 1, Fault::ExpectedEq))
    } else {
        match expr_res(v, i + 2, end) {
            Err(d) => Err(d),
            Ok(e) => Ok(
                if punct_is(v, e, end, ';') {
                    e + 1
                } else {
                    e
                },
            ),
        }
    }
}

/// `ref` at `pos`: identifiers joined by dots, then braces.
pub open spec fn edit_res(v: Seq<TokV>, pos: int, end: int, k: usize) -> Result<(int, usize), Diag>
    decreases end - pos, 3nat,
{
    match access_at(v, pos + 1, end) {
        Err(p) => Err(here(v, p, Fault::ExpectedIdent)),
        Ok((_, ae)) => braced_res(v, pos, ae, end, k),
    }
}

/// Braces at `b` with their content, for a content started at `pos`.
pub open spec fn braced_res(v: Seq<TokV>, pos: int, b: int, end: int, k: usize) -> Result<(int, usize), Diag>
    decreases end - pos, 2nat,
{
    if !opens(v, b, end, Delim::Brace) {
        Err(here(v, b, Fault::ExpectedBraces))
    } else {
        let te = tree_end(v, b, end);
        if pos <= b < te <= end {
            match group_res(v, b, te, k) {
                Err(d) => Err(d),
                Ok(k2) => Ok((te, k2)),
            }
        } else {
            Ok((te, k))
        }
    }
}

/// A construction at `pos`: its property, then the rest of the body.
pub open spec fn construct_res(v: Seq<TokV>, pos: int, end: int, k: usize) -> Result<(int, usize), Diag>
    decreases end - pos, 3nat,
{
    let i = tilde_next(v, pos, end);
    if pos < i <= end {
        match prop_res(v, i, end, k) {
            Err(d) => Err(d),
            Ok((e, k1)) => if pos < e <= end {
                match body_res(v, e, end, k1) {
                    Err(d) => Err(d),
                    Ok(k2) => Ok((end, k2)),
                }
            } else {
                Ok((e, k1))
            },
        }
    } else {
        Ok((i, k))
    }
}

/// One branch of an `if` chain at `pos`.
pub open spec fn if_res(v: Seq<TokV>, pos: int, end: int, k: usize) -> Result<(int, usize), Diag>
    decreases end - pos, 2nat,
{
    let i1 = if word_is(v, pos, end, "else"@) {
        pos + 1
    } else {
        pos
    };
    match if_head_end(v, pos, end) {
        None => Err(here(v, i1 + 1, Fault::ExpectedExpr)),
        Some(h) => if !opens(v, h, end, Delim::Brace) {
            Err(here(v, h, Fault::ExpectedBraces))
        } else {
            let te = tree_end(v, h, end);
            if pos <= h < te <= end {
                match group_res(v, h, te, k) {
                    Err(d) => Err(d),
                    Ok(k2) => Ok((te, k2)),
                }
            } else {
                Ok((te, k))
            }
        },
    }
}

/// The branches of an `if` chain from `i`, each after `else`.
pub open spec fn elses_res(v: Seq<TokV>, i: int, end: int, k: usize) -> Result<(int, usize), Diag>
    decreases end - i, 3nat,
{
    if word_is(v, i, end, "else"@) {
        match if_res(v, i, end, k) {
            Err(d) => Err(d),
            Ok((e, k2)) => if i < e <= end {
                elses_res(v, e, end, k2)
            } else {
                Ok((e, k2))
            },
        }
    } else {
        Ok((i, k))
    }
}

/// An `if` chain at `pos`.
pub open spec fn if_chain_res(v: Seq<TokV>, pos: int, end: int, k: usize) -> Result<(int, usize), Diag>
    decreases end - pos, 3nat,
{
    match if_res(v, pos, end, k) {
        Err(d) => Err(d),
        Ok((e, k1)) => if pos < e <= end {
            elses_res(v, e, end, k1)
        } else {
            Ok((e, k1))
        },
    }
}

/// A `match` at `pos`: its scrutinee, then its arms in braces.
pub open spec fn match_res(v: Seq<TokV>, pos: int, end: int, k: usize) -> Result<(int, usize), Diag>
    decreases end - pos, 3nat,
{
    match fragment_end(Frag::ExprNoBrace, v, pos + 1, end) {
        None => Err(here(v, pos + 1, Fault::ExpectedExpr)),
        Some(me) => if !opens(v, me, end, Delim::Brace) {
            Err(here(v, me, Fault::ExpectedBraces))
        } else {
            let te = tree_end(v, me, end);
            let close = group_close(v, me, te);
            if pos < me < close <= te <= end {
                match arms_res(v, me + 1, close, k) {
                    Err(d) => Err(d),
                    Ok(k2) => Ok((te, k2)),
                }
            } else {
                Ok((te, k))
            }
        },
    }
}

/// The arms of a `match` from `j` to `close`: the counter after them.
pub open spec fn arms_res(v: Seq<TokV>, j: int, close: int, k: usize) -> Result<usize, Diag>
    decreases close - j, 3nat,
{
    if j < close {
        match arm_res(v, j, close, k) {
            Err(d) => Err(d),
            Ok((e, k2)) => if j < e <= close {
                arms_res(v, e, close, k2)
            } else {
                Ok(k2)
            },
        }
    } else {
        Ok(k)
    }
}

/// One arm of a `match` at `pos`.
pub open spec fn arm_res(v: Seq<TokV>, pos: int, end: int, k: usize) -> Result<(int, usize), Diag>
    decreases end - pos, 2nat,
{
    match attrs_res(v, pos, end) {
        Err(d) => Err(d),
        Ok(a) => match fragment_end(Frag::Pat, v, a, end) {
            None => Err(here(v, a, Fault::ExpectedPattern)),
            Some(p) => {
                let guard = if word_is(v, p, end, "if"@) {
                    expr_res(v, p + 1, end)
                } else {
                    Ok(p)
                };
                match guard {
                    Err(d) => Err(d),
                    Ok(ge) => if !(punct_of(v, ge, end) matches Some(q) && q.ch == '=' && q.joint
                        && punct_is(v, ge + 1, end, '>')) {
                        Err(here(v, ge, Fault::ExpectedArrow))
                    } else {
                        let i = ge + 2;
                        if opens(v, i, end, Delim::Brace) {
                            let te = tree_end(v, i, end);
                            if pos <= i < te <= end {
                                match group_res(v, i, te, k) {
                                    Err(d) => Err(d),
                                    Ok(k2) => Ok((te, k2)),
                                }
                            } else {
                                Ok((te, k))
                            }
                        } else if pos < i <= end {
                            content_res(v, i, end, k)
                        } else {
                            Ok((i, k))
                        }
                    },
                }
            },
        },
    }
}

/// A property at `pos`: its path, `&` or `&mut` after a long path, how it
/// is set, then its arguments, items and `'back`.
pub open spec fn prop_res(v: Seq<TokV>, pos: int, end: int, k: usize) -> Result<(int, usize), Diag>
    decreases end - pos, 2nat,
{
    match path_res(v, pos, end) {
        Err(d) => Err(d),
        Ok(i0) => {
            let amp = path_long(v, pos, end) && punct_is(v, i0, end, '&');
            let i1 = if amp && word_is(v, i0 + 1, end, "mut"@) {
                i0 + 2
            } else if amp {
                i0 + 1
            } else {
                i0
            };
            let st = spec_setter(punct_of(v, i1, end), punct_of(v, i1 + 1, end));
            let i2 = i1 + st.taken;
            if pos < i2 <= end {
                setting_res(v, i2, end, st.args, st.back, k)
            } else {
                Ok((i2, k))
            }
        },
    }
}

/// What follows how a property is set, at `i`: its arguments (when
/// `args`), its items and then a `;`, and its `'back` (when `back`).
pub open spec fn setting_res(v: Seq<TokV>, i: int, end: int, args: bool, back: bool, k: usize) -> Result<
    (int, usize),
    Diag,
>
    decreases end - i, 2nat,
{
    if args {
        match arguments_res(v, i, end, back) {
            Err(d) => Err(d),
            Ok(i3) => if i < i3 <= end {
                        match items_res(v, i3, end, k) {
                            Err(d) => Err(d),
                            Ok((i4, k1)) => {
                                let i5 = if !punct_is(v, i3, end, '@') && punct_is(v, i4, end, ';') {
                                    i4 + 1
                                } else {
                                    i4
                                };
                                if back && i < i5 <= end {
                                    back_res(v, i5, end, k1)
                                } else {
                                    Ok((i5, k1))
                                }
                            },
                        }
            } else {
                Ok((i3, k))
            },
        }
    } else if back {
        back_res(v, i, end, k)
    } else {
        Ok((i, k))
    }
}

/// The items from `i`, each after `@`.
pub open spec fn items_res(v: Seq<TokV>, i: int, end: int, k: usize) -> Result<(int, usize), Diag>
    decreases end - i, 2nat,
{
    if punct_is(v, i, end, '@') {
        match item_res(v, i, end, true, k) {
            Err(d) => Err(d),
            Ok((e, k2)) => if i < e <= end {
                items_res(v, e, end, k2)
            } else {
                Ok((e, k2))
            },
        }
    } else {
        Ok((i, k))
    }
}

/// An item at `pos`, after `@` when `at`: its object, braces with its
/// content, and the punctuation that decides how it is made.
pub open spec fn item_res(v: Seq<TokV>, pos: int, end: int, at: bool, k: usize) -> Result<(int, usize), Diag>
    decreases end - pos, 1nat,
{
    if at && !punct_is(v, pos, end, '@') {
        Err(here(v, pos, Fault::ExpectedAt))
    } else {
        let i0 = if at {
            pos + 1
        } else {
            pos
        };
        let obj: Result<(int, usize, bool, bool), Diag> = if word_is(v, i0, end, "ref"@) {
            match access_at(v, i0 + 1, end) {
                Err(p) => Err(here(v, p, Fault::ExpectedIdent)),
                Ok((_, ae)) => Ok((ae, k, false, false)),
            }
        } else {
            match path_res(v, i0, end) {
                Err(d) => Err(d),
                Ok(pe) => {
                    let grp = opens(v, pe, end, Delim::Paren);
                    let g = if grp {
                        tree_end(v, pe, end)
                    } else {
                        pe
                    };
                    match field_res(v, g, end) {
                        Err(d) => Err(d),
                        Ok((fe, auto)) => Ok((fe, count_after(k, auto), true, grp)),
                    }
                },
            }
        };
        match obj {
            Err(d) => Err(d),
            Ok((b, k1, is_path, grp)) => if !opens(v, b, end, Delim::Brace) {
                Err(here(v, b, Fault::ExpectedBraces))
            } else {
                let te = tree_end(v, b, end);
                if pos <= b < te <= end {
                    match group_res(v, b, te, k1) {
                        Err(d) => Err(d),
                        Ok(k2) => {
                            let taken = spec_item_mode(is_path, grp, punct_of(v, te, end), tok_span(v[b])).1;
                            Ok(
                                (
                                    if taken {
                                        te + 1
                                    } else {
                                        te
                                    },
                                    k2,
                                ),
                            )
                        },
                    }
                } else {
                    Ok((te, k1))
                }
            },
        }
    }
}

/// A `'back` object at `pos`, if one stands there.
pub open spec fn back_res(v: Seq<TokV>, pos: int, end: int, k: usize) -> Result<(int, usize), Diag>
    decreases end - pos, 1nat,
{
    if !back_at(v, pos, end) {
        Ok((pos, k))
    } else {
        match field_res(v, pos + 2, end) {
            Err(d) => Err(d),
            Ok((fe, auto)) => {
                let k1 = count_after(k, auto);
                if !opens(v, fe, end, Delim::Brace) {
                    Err(here(v, fe, Fault::ExpectedBraces))
                } else {
                    let te = tree_end(v, fe, end);
                    if pos <= fe < te <= end {
                        match group_res(v, fe, te, k1) {
                            Err(d) => Err(d),
                            Ok(k2) => Ok(
                                (
                                    if punct_is(v, te, end, '!') {
                                        te + 1
                                    } else {
                                        te
                                    },
                                    k2,
                                ),
                            ),
                        }
                    } else {
                        Ok((te, k1))
                    }
                }
            },
        }
    }
}

/// The named fields of a struct from `i` to `b`.
pub open spec fn fields_res(v: Seq<TokV>, i: int, b: int) -> Result<(), Diag>
    decreases b - i,
{
    if i < b {
        match attrs_res(v, i, b) {
            Err(d) => Err(d),
            Ok(s) => {
                let vis = if word_is(v, s, b, "pub"@) {
                    match fragment_end(Frag::Vis, v, s, b) {
                        Some(ve) => Ok(ve),
                        None => Err(here(v, s, Fault::ExpectedIdent)),
                    }
                } else {
                    Ok(s)
                };
                match vis {
                    Err(d) => Err(d),
                    Ok(j) => if name_view(v, j, b) is None {
                        Err(here(v, j, Fault::ExpectedIdent))
                    } else if !punct_is(v, j + 1, b, ':') {
                        Err(here(v, j + 1, Fault::ExpectedColon))
                    } else {
                        match fragment_end(Frag::Type, v, j + 2, b) {
                            None => Err(here(v, j + 2, Fault::ExpectedType)),
                            Some(e) => {
                                let next = if punct_is(v, e, b, ',') {
                                    e + 1
                                } else {
                                    e
                                };
                                if i < next <= b {
                                    fields_res(v, next, b)
                                } else {
                                    Ok(())
                                }
                            },
                        }
                    },
                }
            },
        }
    } else {
        Ok(())
    }
}

/// A struct root starting at `start`, its attributes ending at `a`.
pub open spec fn struct_res(v: Seq<TokV>, start: int, a: int, end: int) -> Result<int, Diag> {
    let j = struct_brace(v, a, end);
    if !opens(v, j, end, Delim::Brace) {
        Err(
            spanned_diag(
                Fault::StructNeedsBraces,
                v.subrange(
                    start,
                    if j < end {
                        j + 1
                    } else {
                        end
                    },
                ),
            ),
        )
    } else {
        let te = tree_end(v, j, end);
        if !accepts(Frag::Struct, text_of(v, start, te)) {
            Err(spanned_diag(Fault::ExpectedStruct, v.subrange(start, te)))
        } else {
            match fields_res(v, j + 1, group_close(v, j, te)) {
                Err(d) => Err(d),
                Ok(()) => Ok(te),
            }
        }
    }
}

/// Whether a struct root starts at `a`, after the attributes.
pub open spec fn struct_at(v: Seq<TokV>, a: int, n: int) -> bool {
    word_is(v, a, n, "pub"@) || word_is(v, a, n, "struct"@)
}

/// The roots of a view from `i` to `n`: the counter after them, or the
/// first error. The view is well formed when this is `Ok`.
pub open spec fn roots_res(v: Seq<TokV>, i: int, n: int, k: usize) -> Result<usize, Diag>
    decreases n - i,
{
    if i < n {
        match attrs_res(v, i, n) {
            Err(d) => Err(d),
            Ok(a) => if struct_at(v, a, n) {
                match struct_res(v, i, a, n) {
                    Err(d) => Err(d),
                    Ok(e) => if i < e <= n {
                        roots_res(v, e, n, k)
                    } else {
                        Ok(k)
                    },
                }
            } else {
                match item_res(v, a, n, false, k) {
                    Err(d) => Err(d),
                    Ok((e, k2)) => if i < e <= n {
                        roots_res(v, e, n, k2)
                    } else {
                        Ok(k2)
                    },
                }
            },
        }
    } else {
        Ok(k)
    }
}

} // verus!
