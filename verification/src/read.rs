//! Reading a view from its tokens: roots, items, their content and
//! properties. The Rust fragments a view holds (expressions, types,
//! patterns, attributes, visibilities) end where [`crate::fragment`] says;
//! every other choice is the view's own grammar, made here and in
//! [`crate::grammar`]. Expressions are read as one run of tokens each.
//!
//! The readers state what they read in terms of the tokens: where each
//! part starts and ends, the kind each content takes from its first
//! tokens, the tokens each part copies, and the errors met on the way.
//! A content's statement covers its own parts; each read of a body, and
//! each item, states the contents right inside it, and the contents
//! nested deeper are stated by the reads of their own bodies.
use vstd::prelude::*;

use crate::diag::{Diag, Fault};
use crate::fragment::{
    accepts, fragment_end, fragment_end_exec, text_exec, text_of, tree_end_exec, Frag,
};
use crate::diag::fault_text;
use crate::grammar::{
    lifetime_message, lifetime_text, Setter, content_kind, item_mode, name_object, setter, spec_content_kind, spec_item_mode, spec_setter, Kind,
    Lead, Punct,
};
use crate::model::{
    Arm, Back, Bind, BindColon, BindMode, Consume, Construct, Content, Edit, Expr, Field, FieldDef,
    If, IfChain, Item, Match, Object, PathObject, Piece, PieceV, Property, Root, Roots, StructDef,
};
use crate::naming::{decimal, display_text, next_count, Display};
use crate::path::{
    seg_toks, segs_toks, spec_is_long, type_path_toks, Access, AccessV, Name, NameV, Path, Segment,
    TypePath,
};
use crate::spec::spanned_diag;
use crate::state::diag_over;
use crate::syntax::{
    arm_res, back_res, bind_colon_res, bind_res, body_res, braced_res, consume_res, construct_res, edit_res, content_res, group_res, if_chain_res, if_res, item_res,
    match_res, prop_res, arg_list, setting_res, arguments_res, same_count, same_k, with_res, elses_res, arms_res, args_res, items_res,
    roots_res, struct_res, fields_res,
    angle_scan, closes_angle_at, colon2_at, count_after, field_path_at, field_res, path_long, path_res,
    same, seg_scan, segs_count, tp_res, tp_start,
};
use crate::token::{extend, sv, tok_span, Delim, Tok, TokV, CALL_SITE};

verus! {

/// The punctuation at `i`, if one stands there before `end`.
pub open spec fn punct_of(v: Seq<TokV>, i: int, end: int) -> Option<Punct> {
    if 0 <= i < end {
        match v[i] {
            TokV::Punct { ch, joint, span } => Some(Punct { ch, joint, span }),
            _ => None,
        }
    } else {
        None
    }
}

/// Whether the punctuation `c` stands at `i`, before `end`.
pub open spec fn punct_is(v: Seq<TokV>, i: int, end: int, c: char) -> bool {
    match punct_of(v, i, end) {
        Some(p) => p.ch == c,
        None => false,
    }
}

/// Whether the identifier or keyword `w` stands at `i`, before `end`.
pub open spec fn word_is(v: Seq<TokV>, i: int, end: int, w: Seq<char>) -> bool {
    0 <= i < end && (v[i] matches TokV::Ident { text, .. } && text == w)
}

/// Whether a group with delimiter `d` opens at `i`, before `end`.
pub open spec fn opens(v: Seq<TokV>, i: int, end: int, d: Delim) -> bool {
    0 <= i < end && (v[i] matches TokV::Open { delim, .. } && delim == d)
}

/// The kind of content that the tokens at `pos` start: `~` a construction,
/// a lifetime `'bind` (with `:` after it, a conditional one) or
/// `'consume`, the keywords `if`, `match` and `ref`, else a property. Any
/// other lifetime is refused at its quote.
pub open spec fn kind_at(v: Seq<TokV>, pos: int, end: int) -> Result<Kind, u64> {
    if punct_is(v, pos, end, '~') {
        Ok(Kind::Construct)
    } else if punct_is(v, pos, end, '\'') && pos + 1 < end && v[pos + 1] is Ident {
        let name = v[pos + 1]->Ident_text;
        if name == "bind"@ {
            if punct_is(v, pos + 2, end, ':') {
                Ok(Kind::BindColon)
            } else {
                Ok(Kind::Bind)
            }
        } else if name == "consume"@ {
            Ok(Kind::Consume)
        } else {
            Err(tok_span(v[pos]))
        }
    } else if word_is(v, pos, end, "if"@) {
        Ok(Kind::If)
    } else if word_is(v, pos, end, "match"@) {
        Ok(Kind::Match)
    } else if word_is(v, pos, end, "ref"@) {
        Ok(Kind::Edit)
    } else {
        Ok(Kind::Property)
    }
}

/// The kind of a content that was read.
pub open spec fn kind_of(c: Content) -> Kind {
    match c {
        Content::Bind(_) => Kind::Bind,
        Content::BindColon(_) => Kind::BindColon,
        Content::Construct(_) => Kind::Construct,
        Content::Consume(_) => Kind::Consume,
        Content::Edit(_) => Kind::Edit,
        Content::If(_) => Kind::If,
        Content::Match(_) => Kind::Match,
        Content::Property(_) => Kind::Property,
    }
}

/// The name at `i`: an identifier that is not a keyword.
pub open spec fn name_view(v: Seq<TokV>, i: int, end: int) -> Option<NameV> {
    if 0 <= i < end && v[i] is Ident && accepts(Frag::Ident, text_of(v, i, i + 1)) {
        Some(NameV { text: v[i]->Ident_text, span: v[i]->Ident_span })
    } else {
        None
    }
}

/// What follows a name at `i` in identifiers joined by dots: the spans of
/// the dots, the names after them, and where they end; or the position
/// where a name is missing after a dot.
pub open spec fn access_tail(v: Seq<TokV>, i: int, end: int) -> Result<(Seq<u64>, Seq<NameV>, int), int>
    decreases end - i,
{
    if punct_is(v, i, end, '.') {
        match name_view(v, i + 1, end) {
            Some(n) => match access_tail(v, i + 2, end) {
                Ok((ds, ns, e)) => Ok((seq![tok_span(v[i])] + ds, seq![n] + ns, e)),
                Err(p) => Err(p),
            },
            None => Err(i + 1),
        }
    } else {
        Ok((Seq::empty(), Seq::empty(), i))
    }
}

/// Identifiers joined by dots at `pos`, or the position where a name is
/// missing.
pub open spec fn access_at(v: Seq<TokV>, pos: int, end: int) -> Result<(AccessV, int), int> {
    match name_view(v, pos, end) {
        None => Err(pos),
        Some(n) => match access_tail(v, pos + 1, end) {
            Ok((ds, ns, e)) => Ok((AccessV { names: seq![n] + ns, dots: ds }, e)),
            Err(p) => Err(p),
        },
    }
}

/// Whether a construction whose `~` stands at `pos` is the last one (a
/// second `~`), and whether it is closed at once (`/` or `>` next).
pub open spec fn tilde_flags(v: Seq<TokV>, pos: int, end: int) -> (bool, bool) {
    let last = punct_is(v, pos + 1, end, '~');
    let next = if last {
        pos + 2
    } else {
        pos + 1
    };
    (last, punct_is(v, next, end, '/') || punct_is(v, next, end, '>'))
}

/// Where the property of a construction whose `~` stands at `pos` starts:
/// after the tildes and the `/` or `>` that closes it at once.
pub open spec fn tilde_next(v: Seq<TokV>, pos: int, end: int) -> int {
    let (last, object) = tilde_flags(v, pos, end);
    pos + 1 + (if last {
        1int
    } else {
        0int
    }) + (if object {
        1int
    } else {
        0int
    })
}

/// What a content read at `pos` is, as far as its first tokens decide:
/// its kind, and for a construction the span of its `~` and its flags.
pub open spec fn starts_as(v: Seq<TokV>, pos: int, end: int, c: Content) -> bool {
    &&& kind_at(v, pos, end) == Ok::<Kind, u64>(kind_of(c))
    &&& c matches Content::Construct(k) ==> {
        &&& k.tilde_span == tok_span(v[pos])
        &&& (k.last is Some) == tilde_flags(v, pos, end).0
        &&& k.object == tilde_flags(v, pos, end).1
    }
}

/// A consuming content read from `pos` to `e` with the attributes
/// `attrs`: `'consume`, maybe `mut`, the name, `=`, an expression and maybe
/// `;`.
pub open spec fn consume_reads(v: Seq<TokV>, pos: int, end: int, attrs: Seq<TokV>, k: Consume, e: int) -> bool {
    let m = pos + 2;
    let has_mut = word_is(v, m, end, "mut"@);
    let n = if has_mut {
        m + 1
    } else {
        m
    };
    &&& sv(k.attrs@) == attrs
    &&& k.token_span == tok_span(v[pos])
    &&& k.mut_ == (if has_mut {
        Some(tok_span(v[m]))
    } else {
        None
    })
    &&& name_view(v, n, end) == Some(k.name@)
    &&& punct_is(v, n + 1, end, '=')
    &&& k.equal_span == tok_span(v[n + 1])
    &&& fragment_end(Frag::Expr, v, n + 2, end) matches Some(fe) && k.expr@ == seq![
        PieceV::Toks(v.subrange(n + 2, fe)),
    ] && e == (if punct_is(v, fe, end, ';') {
        fe + 1
    } else {
        fe
    })
}

/// A conditional binding read from `pos` to `e` with the attributes
/// `attrs`: `'bind:`, `if` and a condition, then braces.
pub open spec fn bind_colon_reads(v: Seq<TokV>, pos: int, end: int, attrs: Seq<TokV>, b: BindColon, e: int) -> bool {
    &&& sv(b.attrs@) == attrs
    &&& b.token_span == tok_span(v[pos])
    &&& word_is(v, pos + 3, end, "if"@)
    &&& fragment_end(Frag::Expr, v, pos + 4, end) matches Some(ce) && sv(b.cond@) == v.subrange(pos + 3, ce)
        && opens(v, ce, end, Delim::Brace) && b.brace_span == tok_span(v[ce]) && e
        == crate::fragment::tree_end(v, ce, end)
}

/// A binding read from `pos` to `e` with the attributes `attrs`: `'bind`,
/// maybe `#`, then braces or one content.
pub open spec fn bind_reads(v: Seq<TokV>, pos: int, end: int, attrs: Seq<TokV>, b: Bind, e: int) -> bool {
    let i = if punct_is(v, pos + 2, end, '#') {
        pos + 3
    } else {
        pos + 2
    };
    &&& b.token_span == tok_span(v[pos])
    &&& b.init == punct_is(v, pos + 2, end, '#')
    &&& match b.mode {
        BindMode::Braced { attrs: a, brace_span, .. } => {
            &&& opens(v, i, end, Delim::Brace)
            &&& sv(a@) == attrs
            &&& brace_span == tok_span(v[i])
            &&& e == crate::fragment::tree_end(v, i, end)
        },
        BindMode::Unbraced(c) => !opens(v, i, end, Delim::Brace) && starts_as(v, i, end, c),
    }
}

/// An edit read from `pos` to `e` with the attributes `attrs`: `ref`,
/// identifiers joined by dots, then braces.
pub open spec fn edit_reads(v: Seq<TokV>, pos: int, end: int, attrs: Seq<TokV>, x: Edit, e: int) -> bool {
    &&& sv(x.attrs@) == attrs
    &&& access_at(v, pos + 1, end) matches Ok((a, ae)) && x.edit@ == a && opens(v, ae, end, Delim::Brace) && e
        == crate::fragment::tree_end(v, ae, end)
}

/// A `match` read from `pos` to `e` with the attributes `attrs`: `match`
/// and its scrutinee, then braces.
pub open spec fn match_reads(v: Seq<TokV>, pos: int, end: int, attrs: Seq<TokV>, m: Match, e: int) -> bool {
    &&& sv(m.attrs@) == attrs
    &&& fragment_end(Frag::ExprNoBrace, v, pos + 1, end) matches Some(me) && sv(m.head@) == v.subrange(pos, me)
        && opens(v, me, end, Delim::Brace) && m.brace_span == tok_span(v[me]) && e
        == crate::fragment::tree_end(v, me, end)
}

/// Where the path `p` read at `pos` ends.
pub open spec fn path_end(v: Seq<TokV>, pos: int, end: int, p: Path) -> int {
    match p {
        Path::Type(_) => match fragment_end(Frag::TypePath, v, pos, end) {
            Some(e) => e,
            None => pos,
        },
        Path::Field { gens, .. } => match access_at(v, pos, end) {
            Ok((_, ae)) => match gens {
                Some(g) => ae + g@.len(),
                None => ae,
            },
            Err(_) => pos,
        },
    }
}

/// What a property read at `pos` with the attributes `attrs` is, up to
/// its arguments: after its path, a long path may take `&` and `&mut`, and
/// the punctuation then decides how it is set.
pub open spec fn property_reads(v: Seq<TokV>, pos: int, end: int, attrs: Seq<TokV>, p: Property) -> bool {
    let i0 = path_end(v, pos, end, p.path);
    let amp = spec_is_long(p.path) && punct_is(v, i0, end, '&');
    let m = amp && word_is(v, i0 + 1, end, "mut"@);
    let i1 = if m {
        i0 + 2
    } else if amp {
        i0 + 1
    } else {
        i0
    };
    let st = spec_setter(punct_of(v, i1, end), punct_of(v, i1 + 1, end));
    &&& sv(p.attrs@) == attrs
    &&& p.by_ref == (if amp {
        Some(tok_span(v[i0]))
    } else {
        None
    })
    &&& p.mut_ == (if m {
        Some(tok_span(v[i0 + 1]))
    } else {
        None
    })
    &&& p.mode == st.mode
    &&& p.mode_span == st.span
    &&& p.path matches Path::Type(tp) ==> type_path_toks(tp) == v.subrange(pos, i0)
    &&& p.path matches Path::Field { access, .. } ==> (access_at(v, pos, end) matches Ok((a, _)) && access@ == a)
    &&& args_read(v, i1 + st.taken, end, st.args, st.back, p.args@, p.commas@.len())
    &&& !st.args ==> p.items@.len() == 0
    &&& !st.back ==> p.back is None
}

/// The arguments of a property read at `i`, when it takes them: the first
/// expression, then (when a `'back` may follow, which is when the
/// arguments form a list) one after each comma, each as the tokens it was
/// read from, in order.
pub open spec fn args_read(v: Seq<TokV>, i: int, end: int, args: bool, list: bool, xs: Seq<Expr>, commas: nat) -> bool {
    if args {
        fragment_end(Frag::Expr, v, i, end) matches Some(e1) && ({
            let rest = if list {
                arg_list(v, e1, end)
            } else {
                Seq::empty()
            };
            &&& xs.len() == 1 + rest.len()
            &&& commas == rest.len()
            &&& xs[0]@ == seq![PieceV::Toks(v.subrange(i, e1))]
            &&& forall|k: int|
                0 <= k < rest.len() ==> #[trigger] xs[1 + k]@ == seq![PieceV::Toks(v.subrange(rest[k].0, rest[k].1))]
        })
    } else {
        xs.len() == 0 && commas == 0
    }
}

/// What an item read at `pos` (after `@` when `at`) to `e` is, apart from
/// its body and its object's name: its object, ref or path (with
/// arguments in parentheses), and how the punctuation after its braces
/// makes it.
pub open spec fn item_reads(v: Seq<TokV>, pos: int, end: int, at: bool, it: Item, e: int) -> bool {
    let i0 = if at {
        pos + 1
    } else {
        pos
    };
    let has_group = it.object matches Object::Path(po) && po.group is Some;
    &&& at ==> punct_is(v, pos, end, '@') && it.at_span == tok_span(v[pos])
    &&& !at ==> it.at_span == CALL_SITE
    &&& (it.object is Ref <==> word_is(v, i0, end, "ref"@))
    &&& it.object matches Object::Ref(a) ==> (access_at(v, i0 + 1, end) matches Ok((av, _)) && a@ == av)
    &&& it.object matches Object::Path(po) ==> {
        let pe = path_end(v, i0, end, po.path);
        &&& po.path matches Path::Type(tp) ==> type_path_toks(tp) == v.subrange(i0, pe)
        &&& (po.group is Some <==> opens(v, pe, end, Delim::Paren))
        &&& po.group matches Some(g) ==> sv(g@) == v.subrange(pe, crate::fragment::tree_end(v, pe, end))
        &&& field_reads(v, item_field_at(v, i0, end, *po), end, po.field)
    }
    &&& exists|b: int|
        #[trigger] opens(v, b, end, Delim::Brace) && i0 < b && b == item_brace_at(v, i0, end, it.object) && ({
            let te = crate::fragment::tree_end(v, b, end);
            let (m, taken) = spec_item_mode(it.object is Path, has_group, punct_of(v, te, end), tok_span(v[b]));
            &&& it.mode == m
            &&& e == (if taken {
                te + 1
            } else {
                te
            })
            &&& (it.object matches Object::Path(po) ==> (po.field.auto ==> po.field.name.span == tok_span(v[b])))
            &&& exists|ps: Seq<int>|
                #[trigger] body_reads(v, b + 1, group_close(v, b, te), group_close(v, b, te), it.body@, ps)
        })
}

/// The roots `rs` read one after the other from the start of `n` tokens,
/// root `j` from `ps[j]` to `ps[j + 1]`: after its attributes, a struct
/// where `pub` or `struct` follows them, else an item with them.
pub open spec fn roots_read(v: Seq<TokV>, n: int, rs: Seq<Root>, ps: Seq<int>) -> bool {
    &&& ps.len() == rs.len() + 1
    &&& ps[0] == 0
    &&& forall|j: int|
        #![trigger rs[j]]
        0 <= j < rs.len() ==> {
            let a = attrs_end(v, ps[j], n);
            &&& ps[j] < ps[j + 1]
            &&& (rs[j] is Struct <==> word_is(v, a, n, "pub"@) || word_is(v, a, n, "struct"@))
            &&& rs[j] matches Root::Item(it) ==> {
                &&& item_reads(v, a, n, false, it, ps[j + 1])
                &&& it.attrs matches Some(at) && sv(at@) == v.subrange(ps[j], a)
            }
            &&& rs[j] matches Root::Struct(sd) ==> {
                let b = struct_brace(v, a, n);
                &&& opens(v, b, n, Delim::Brace)
                &&& sv(sd.head@) == v.subrange(ps[j], b)
                &&& sd.brace_span == tok_span(v[b])
                &&& ps[j + 1] == crate::fragment::tree_end(v, b, n)
            }
        }
}

/// What a content read from `pos` to `e` is, as far as its own tokens
/// decide (the contents nested in it aside): after its attributes, its
/// kind and the parts that each kind reads.
pub open spec fn content_reads(v: Seq<TokV>, pos: int, end: int, c: Content, e: int) -> bool {
    let a = attrs_end(v, pos, end);
    let attrs = v.subrange(pos, a);
    &&& starts_as(v, a, end, c)
    &&& match c {
        Content::Consume(k) => consume_reads(v, a, end, attrs, *k, e),
        Content::BindColon(b) => bind_colon_reads(v, a, end, attrs, *b, e),
        Content::Bind(b) => bind_reads(v, a, end, attrs, *b, e),
        Content::Edit(x) => edit_reads(v, a, end, attrs, *x, e),
        Content::Match(m) => match_reads(v, a, end, attrs, *m, e) && match_arms_at(v, a, end, *m),
        Content::Property(p) => property_reads(v, a, end, attrs, *p),
        Content::Construct(k) => k.penult matches Content::Property(p) && property_reads(
            v,
            tilde_next(v, a, end),
            end,
            attrs,
            *p,
        ),
        Content::If(ch) => sv(ch.attrs@) == attrs && !word_is(v, e, end, "else"@) && exists|ps: Seq<int>|
            #[trigger] if_chain_reads(v, a, e, end, ch.branches@, ps),
    }
}

/// The contents `s` read one after the other from `a` to `x` within
/// `end`, content `j` from `ps[j]` to `ps[j + 1]`.
pub open spec fn body_reads(v: Seq<TokV>, a: int, x: int, end: int, s: Seq<Content>, ps: Seq<int>) -> bool {
    &&& ps.len() == s.len() + 1
    &&& ps[0] == a
    &&& ps[s.len() as int] == x
    &&& forall|j: int|
        #![trigger s[j]]
        0 <= j < s.len() ==> content_reads(v, ps[j], end, s[j], ps[j + 1]) && ps[j] < ps[j + 1]
}

/// Where the content of the group opened at `open` and ending at `te`
/// ends: before its closing token.
pub open spec fn group_close(v: Seq<TokV>, open: int, te: int) -> int {
    if te - 1 > open && v[te - 1] is Close {
        te - 1
    } else {
        te
    }
}

/// Contents read one after the other, and one more read where they end.
proof fn lemma_body_push(v: Seq<TokV>, a: int, end: int, s: Seq<Content>, ps: Seq<int>, c: Content, e: int)
    requires
        body_reads(v, a, ps[s.len() as int], end, s, ps),
        ps[s.len() as int] < e,
        content_reads(v, ps[s.len() as int], end, c, e),
    ensures
        body_reads(v, a, e, end, s.push(c), ps.push(e)),
{
    let s2 = s.push(c);
    let p2 = ps.push(e);
    assert forall|j: int| #![trigger s2[j]] 0 <= j < s2.len() implies content_reads(v, p2[j], end, s2[j], p2[j + 1])
        && p2[j] < p2[j + 1] by {
        if j < s.len() {
            assert(s2[j] == s[j]);
            assert(p2[j] == ps[j] && p2[j + 1] == ps[j + 1]);
            assert(content_reads(v, ps[j], end, s[j], ps[j + 1]) && ps[j] < ps[j + 1]);
        } else {
            assert(s2[j] == c);
            assert(p2[j] == ps[s.len() as int] && p2[j + 1] == e);
        }
    }
}

/// Where the head of an `if` branch at `pos` ends: after `else`, and
/// after `if` and its condition.
pub open spec fn if_head_end(v: Seq<TokV>, pos: int, end: int) -> Option<int> {
    let i1 = if word_is(v, pos, end, "else"@) {
        pos + 1
    } else {
        pos
    };
    if word_is(v, i1, end, "if"@) {
        fragment_end(Frag::ExprNoBrace, v, i1 + 1, end)
    } else {
        Some(i1)
    }
}

/// What a branch of an `if` chain read from `pos` to `e` is, apart from
/// its body: its head as written, then braces.
pub open spec fn if_head_reads(v: Seq<TokV>, pos: int, end: int, b: If, e: int) -> bool {
    if_head_end(v, pos, end) matches Some(h) && sv(b.head@) == v.subrange(pos, h) && opens(
        v,
        h,
        end,
        Delim::Brace,
    ) && b.brace_span == tok_span(v[h]) && e == crate::fragment::tree_end(v, h, end)
}

/// The branches `bs` of an `if` chain read one after the other from `pos`
/// to `x`, branch `j` from `ps[j]` to `ps[j + 1]`, each after the first
/// starting with `else`.
pub open spec fn if_chain_reads(v: Seq<TokV>, pos: int, x: int, end: int, bs: Seq<If>, ps: Seq<int>) -> bool {
    &&& ps.len() == bs.len() + 1
    &&& ps[0] == pos
    &&& ps[bs.len() as int] == x
    &&& forall|j: int|
        #![trigger bs[j]]
        0 <= j < bs.len() ==> if_head_reads(v, ps[j], end, bs[j], ps[j + 1]) && ps[j] < ps[j + 1] && (j > 0
            ==> word_is(v, ps[j], end, "else"@))
}

/// Branches read one after the other, and one more read where they end.
proof fn lemma_if_push(v: Seq<TokV>, pos: int, end: int, bs: Seq<If>, ps: Seq<int>, b: If, e: int)
    requires
        if_chain_reads(v, pos, ps[bs.len() as int], end, bs, ps),
        ps[bs.len() as int] < e,
        if_head_reads(v, ps[bs.len() as int], end, b, e),
        bs.len() > 0 ==> word_is(v, ps[bs.len() as int], end, "else"@),
    ensures
        if_chain_reads(v, pos, e, end, bs.push(b), ps.push(e)),
{
    let b2 = bs.push(b);
    let p2 = ps.push(e);
    assert forall|j: int| #![trigger b2[j]] 0 <= j < b2.len() implies if_head_reads(v, p2[j], end, b2[j], p2[j + 1])
        && p2[j] < p2[j + 1] && (j > 0 ==> word_is(v, p2[j], end, "else"@)) by {
        if j < bs.len() {
            assert(b2[j] == bs[j]);
            assert(p2[j] == ps[j] && p2[j + 1] == ps[j + 1]);
            assert(if_head_reads(v, ps[j], end, bs[j], ps[j + 1]) && ps[j] < ps[j + 1] && (j > 0 ==> word_is(
                v,
                ps[j],
                end,
                "else"@,
            )));
        } else {
            assert(b2[j] == b);
            assert(p2[j] == ps[bs.len() as int] && p2[j + 1] == e);
        }
    }
}

/// What an arm of a `match` read from `pos` to `e` within `end` is, apart
/// from the contents in its body: attributes, a pattern, maybe `if` and a
/// guard, `=>`, then braces or one content.
pub open spec fn arm_reads(v: Seq<TokV>, pos: int, end: int, arm: Arm, e: int) -> bool {
    let a = attrs_end(v, pos, end);
    match fragment_end(Frag::Pat, v, a, end) {
        None => false,
        Some(p) => {
            let has_guard = word_is(v, p, end, "if"@);
            let guard_end = if has_guard {
                fragment_end(Frag::Expr, v, p + 1, end)
            } else {
                Some(p)
            };
            match guard_end {
                None => false,
                Some(ge) => {
                    &&& sv(arm.attrs@) == v.subrange(pos, a)
                    &&& sv(arm.pat@) == v.subrange(a, p)
                    &&& sv(arm.guard@) == v.subrange(p, ge)
                    &&& punct_of(v, ge, end) matches Some(q) && q.ch == '=' && q.joint
                    &&& punct_is(v, ge + 1, end, '>')
                    &&& sv(arm.arrow@) == v.subrange(ge, ge + 2)
                    &&& if opens(v, ge + 2, end, Delim::Brace) {
                        arm.brace_span == Some(tok_span(v[ge + 2])) && e == crate::fragment::tree_end(v, ge + 2, end)
                    } else {
                        arm.brace_span is None && arm.body@.len() == 1
                    }
                },
            }
        },
    }
}

/// The arms `s` read one after the other from `a` to `x` within `end`, arm
/// `j` from `ps[j]` to `ps[j + 1]`.
pub open spec fn arms_reads(v: Seq<TokV>, a: int, x: int, end: int, s: Seq<Arm>, ps: Seq<int>) -> bool {
    &&& ps.len() == s.len() + 1
    &&& ps[0] == a
    &&& ps[s.len() as int] == x
    &&& forall|j: int| #![trigger s[j]] 0 <= j < s.len() ==> arm_reads(v, ps[j], end, s[j], ps[j + 1]) && ps[j] < ps[j + 1]
}

/// Arms read one after the other, and one more read where they end.
proof fn lemma_arm_push(v: Seq<TokV>, a: int, end: int, s: Seq<Arm>, ps: Seq<int>, c: Arm, e: int)
    requires
        arms_reads(v, a, ps[s.len() as int], end, s, ps),
        ps[s.len() as int] < e,
        arm_reads(v, ps[s.len() as int], end, c, e),
    ensures
        arms_reads(v, a, e, end, s.push(c), ps.push(e)),
{
    let s2 = s.push(c);
    let p2 = ps.push(e);
    assert forall|j: int| #![trigger s2[j]] 0 <= j < s2.len() implies arm_reads(v, p2[j], end, s2[j], p2[j + 1])
        && p2[j] < p2[j + 1] by {
        if j < s.len() {
            assert(s2[j] == s[j]);
            assert(p2[j] == ps[j] && p2[j + 1] == ps[j + 1]);
            assert(arm_reads(v, ps[j], end, s[j], ps[j + 1]) && ps[j] < ps[j + 1]);
        } else {
            assert(s2[j] == c);
            assert(p2[j] == ps[s.len() as int] && p2[j + 1] == e);
        }
    }
}

/// The arms of a `match` read at `pos`, inside its braces.
pub open spec fn match_arms_at(v: Seq<TokV>, pos: int, end: int, m: Match) -> bool {
    fragment_end(Frag::ExprNoBrace, v, pos + 1, end) matches Some(me) && ({
        let close = group_close(v, me, crate::fragment::tree_end(v, me, end));
        exists|ps: Seq<int>| #[trigger] arms_reads(v, me + 1, close, close, m.arms@, ps)
    })
}

/// The items `s`, each after `@`, read one after the other, item `j` from
/// `ps[j]` to `ps[j + 1]` within `end`.
pub open spec fn items_reads(v: Seq<TokV>, end: int, s: Seq<Item>, ps: Seq<int>) -> bool {
    &&& ps.len() == s.len() + 1
    &&& forall|j: int| #![trigger s[j]] 0 <= j < s.len() ==> item_reads(v, ps[j], end, true, s[j], ps[j + 1]) && ps[j] < ps[j + 1]
}

/// Items read one after the other, and one more read where they end.
proof fn lemma_item_push(v: Seq<TokV>, end: int, s: Seq<Item>, ps: Seq<int>, c: Item, e: int)
    requires
        items_reads(v, end, s, ps),
        ps[s.len() as int] < e,
        item_reads(v, ps[s.len() as int], end, true, c, e),
    ensures
        items_reads(v, end, s.push(c), ps.push(e)),
{
    let s2 = s.push(c);
    let p2 = ps.push(e);
    assert forall|j: int| #![trigger s2[j]] 0 <= j < s2.len() implies item_reads(v, p2[j], end, true, s2[j], p2[j + 1])
        && p2[j] < p2[j + 1] by {
        if j < s.len() {
            assert(s2[j] == s[j]);
            assert(p2[j] == ps[j] && p2[j + 1] == ps[j + 1]);
            assert(item_reads(v, ps[j], end, true, s[j], ps[j + 1]) && ps[j] < ps[j + 1]);
        } else {
            assert(s2[j] == c);
            assert(p2[j] == ps[s.len() as int] && p2[j + 1] == e);
        }
    }
}

/// Where the head of a struct, read from `j`, meets the braces of its
/// fields, a `;` or the end: token trees are skipped until then.
pub open spec fn struct_brace(v: Seq<TokV>, j: int, end: int) -> int
    decreases end - j,
{
    if j < end && !opens(v, j, end, Delim::Brace) && !punct_is(v, j, end, ';') {
        let k = crate::fragment::tree_end(v, j, end);
        if j < k <= end {
            struct_brace(v, k, end)
        } else {
            j
        }
    } else {
        j
    }
}

/// Where the visibility (or `ref`) of an object's name read at `pos`
/// ends.
pub open spec fn vis_end(v: Seq<TokV>, pos: int, end: int) -> int {
    if word_is(v, pos, end, "pub"@) {
        match fragment_end(Frag::Vis, v, pos, end) {
            Some(e) => e,
            None => pos,
        }
    } else if word_is(v, pos, end, "ref"@) {
        pos + 1
    } else {
        pos
    }
}

/// The name given to an object, read at `pos`: a visibility as written
/// (none for `ref`), `mut`, and the name written, or else a made-up one.
pub open spec fn field_reads(v: Seq<TokV>, pos: int, end: int, f: Field) -> bool {
    let i1 = vis_end(v, pos, end);
    let m = word_is(v, i1, end, "mut"@);
    let i2 = if m {
        i1 + 1
    } else {
        i1
    };
    &&& (f.vis is Some <==> word_is(v, pos, end, "pub"@) || word_is(v, pos, end, "ref"@))
    &&& f.vis matches Some(x) ==> sv(x@) == (if word_is(v, pos, end, "pub"@) {
        v.subrange(pos, i1)
    } else {
        Seq::empty()
    })
    &&& f.mut_ == (if m {
        Some(tok_span(v[i1]))
    } else {
        None
    })
    &&& match name_view(v, i2, end) {
        Some(n) => !f.auto && f.name@ == n,
        None => f.auto,
    }
}

/// The name of the lifetime whose quote, at or after `i`, has the span
/// `s`: the identifier after the first such quote.
pub open spec fn lifetime_name(v: Seq<TokV>, s: u64, i: int) -> Option<Seq<char>>
    decreases v.len() - i,
{
    if 0 <= i && i + 1 < v.len() {
        if v[i] matches TokV::Punct { ch, span, .. } && ch == '\'' && span == s && v[i + 1] is Ident {
            Some(v[i + 1]->Ident_text)
        } else {
            lifetime_name(v, s, i + 1)
        }
    } else {
        None
    }
}

/// The text of an error met reading the tokens: for a lifetime that starts
/// no content, the message with the lifetime's name; else the fault's own
/// text.
pub open spec fn error_text(v: Seq<TokV>, d: Diag) -> Seq<char> {
    if d.fault == Fault::UnexpectedLifetime && lifetime_name(v, d.start, 0) is Some {
        lifetime_text(lifetime_name(v, d.start, 0)->Some_0)
    } else {
        fault_text(d.fault)
    }
}

/// Whether no two punctuation tokens share a span.
pub open spec fn puncts_distinct(v: Seq<TokV>) -> bool {
    forall|i: int, j: int|
        0 <= i < j < v.len() && v[i] is Punct && v[j] is Punct ==> #[trigger] tok_span(v[i]) != #[trigger] tok_span(
            v[j],
        )
}

/// The first quote with a span is the only one, when spans are distinct.
proof fn lemma_lifetime_name(v: Seq<TokV>, s: u64, i: int, pos: int)
    requires
        puncts_distinct(v),
        0 <= i <= pos,
        pos + 1 < v.len(),
        v[pos] is Punct,
        v[pos]->Punct_ch == '\'',
        tok_span(v[pos]) == s,
        v[pos + 1] is Ident,
    ensures
        lifetime_name(v, s, i) == Some(v[pos + 1]->Ident_text),
    decreases pos - i,
{
    if i < pos {
        if v[i] is Punct {
            assert(tok_span(v[i]) != tok_span(v[pos]));
        }
        lemma_lifetime_name(v, s, i + 1, pos);
    }
}

/// The error for a lifetime that starts no content names the lifetime,
/// when no two punctuation tokens share a span (as when each token has a
/// span of its own).
pub proof fn law_lifetime_error_names_it(v: Seq<TokV>, pos: int, end: int)
    requires
        puncts_distinct(v),
        0 <= pos,
        end <= v.len(),
        kind_at(v, pos, end) is Err,
    ensures
        ({
            let s = kind_at(v, pos, end)->Err_0;
            error_text(v, Diag { fault: Fault::UnexpectedLifetime, start: s, end: s }) == lifetime_text(
                v[pos + 1]->Ident_text,
            )
        }),
{
    lemma_lifetime_name(v, tok_span(v[pos]), 0, pos);
}

/// The text of an error met reading the tokens `t` (see [`error_text`]).
pub fn error_message(t: &Vec<Tok>, d: &Diag) -> (r: String)
    ensures
        r@ == error_text(sv(t@), *d),
{
    if d.fault == Fault::UnexpectedLifetime {
        let mut i: usize = 0;
        while i < t.len() && t.len() - i > 1
            invariant
                lifetime_name(sv(t@), d.start, 0) == lifetime_name(sv(t@), d.start, i as int),
                d.fault == Fault::UnexpectedLifetime,
            decreases t.len() - i,
        {
            let found = match (&t[i], &t[i + 1]) {
                (Tok::Punct { ch, span, .. }, Tok::Ident { text, .. }) => if *ch == '\'' && *span == d.start {
                    Some(text)
                } else {
                    None
                },
                _ => None,
            };
            match found {
                Some(text) => {
                    assert(sv(t@)[i as int] == t@[i as int]@ && sv(t@)[i + 1] == t@[i + 1]@);
                    assert(lifetime_name(sv(t@), d.start, i as int) == Some(text@));
                    return lifetime_message(text);
                },
                None => {},
            }
            i = i + 1;
        }
    }
    d.fault.message()
}

/// Where the name of an item's object starts: after its path and the
/// parentheses after it.
pub open spec fn item_field_at(v: Seq<TokV>, i0: int, end: int, po: PathObject) -> int {
    let pe = path_end(v, i0, end, po.path);
    if opens(v, pe, end, Delim::Paren) {
        crate::fragment::tree_end(v, pe, end)
    } else {
        pe
    }
}

/// Where an item's braces stand: right after its object (its path, its
/// parentheses and its name, or `ref` and the names joined by dots).
pub open spec fn item_brace_at(v: Seq<TokV>, i0: int, end: int, o: Object) -> int {
    match o {
        Object::Ref(_) => match access_at(v, i0 + 1, end) {
            Ok((_, ae)) => ae,
            Err(_) => i0,
        },
        Object::Path(po) => match field_res(v, item_field_at(v, i0, end, *po), end) {
            Ok((fe, _)) => fe,
            Err(_) => i0,
        },
    }
}

/// Whether `'back` stands at `pos`.
pub open spec fn back_at(v: Seq<TokV>, pos: int, end: int) -> bool {
    punct_is(v, pos, end, '\'') && word_is(v, pos + 1, end, "back"@)
}

/// What a `'back` object read at `pos` to `e` is, apart from its body and
/// name: braces, then `!` when it is not built.
pub open spec fn back_reads(v: Seq<TokV>, pos: int, end: int, b: Back, e: int) -> bool {
    &&& back_at(v, pos, end)
    &&& b.token_span == tok_span(v[pos])
    &&& exists|bb: int|
        #[trigger] opens(v, bb, end, Delim::Brace) && pos + 1 < bb && ({
            let te = crate::fragment::tree_end(v, bb, end);
            let bang = punct_is(v, te, end, '!');
            &&& b.build == (if bang {
                None
            } else {
                Some(tok_span(v[bb]))
            })
            &&& e == (if bang {
                te + 1
            } else {
                te
            })
            &&& b.field.auto ==> b.field.name.span == tok_span(v[bb])
        })
}

/// Where the outer attributes at `i` end: after each `#` that brackets
/// follow, and the brackets.
pub open spec fn attrs_end(v: Seq<TokV>, i: int, end: int) -> int
    decreases end - i,
{
    if punct_is(v, i, end, '#') && opens(v, i + 1, end, Delim::Bracket) {
        let j = crate::fragment::tree_end(v, i + 1, end);
        if i < j <= end {
            attrs_end(v, j, end)
        } else {
            i
        }
    } else {
        i
    }
}

/// The punctuation at `i`, if there is one before `end`.
pub fn punct_at(t: &Vec<Tok>, i: usize, end: usize) -> (r: Option<Punct>)
    requires
        end <= t@.len(),
    ensures
        r == punct_of(sv(t@), i as int, end as int),
{
    if i < end {
        match &t[i] {
            Tok::Punct { ch, joint, span } => Some(Punct { ch: *ch, joint: *joint, span: *span }),
            _ => None,
        }
    } else {
        None
    }
}

/// Whether the token at `i`, before `end`, is the punctuation `c`.
pub fn is_punct(t: &Vec<Tok>, i: usize, end: usize, c: char) -> (r: bool)
    requires
        end <= t@.len(),
    ensures
        r == punct_is(sv(t@), i as int, end as int, c),
        r ==> i < end,
{
    match punct_at(t, i, end) {
        Some(p) => p.ch == c,
        None => false,
    }
}

/// Whether the tokens at `i` are `::`.
fn is_colon2(t: &Vec<Tok>, i: usize, end: usize) -> (r: bool)
    requires
        end <= t@.len(),
    ensures
        r ==> i + 1 < end,
        r == colon2_at(sv(t@), i as int, end as int),
{
    match punct_at(t, i, end) {
        Some(p) => p.ch == ':' && p.joint && i + 1 < end && is_punct(t, i + 1, end, ':'),
        None => false,
    }
}

/// Whether the token at `i`, before `end`, is the identifier or keyword `w`.
pub fn word_at(t: &Vec<Tok>, i: usize, end: usize, w: &str) -> (r: bool)
    requires
        end <= t@.len(),
    ensures
        r == word_is(sv(t@), i as int, end as int, w@),
        r ==> i < end,
{
    if i < end {
        match &t[i] {
            Tok::Ident { text, .. } => *text == String::from_str(w),
            _ => false,
        }
    } else {
        false
    }
}

/// Whether the token at `i`, before `end`, opens a group with delimiter `d`.
pub fn is_open(t: &Vec<Tok>, i: usize, end: usize, d: Delim) -> (r: bool)
    requires
        end <= t@.len(),
    ensures
        r == opens(sv(t@), i as int, end as int, d),
        r ==> i < end,
{
    if i < end {
        match &t[i] {
            Tok::Open { delim, .. } => *delim == d,
            _ => false,
        }
    } else {
        false
    }
}

/// The span of the token at `i`, or the call site past the tokens.
pub fn span_at(t: &Vec<Tok>, i: usize) -> (r: u64)
    ensures
        r == span_of(sv(t@), i as int),
{
    if i < t.len() {
        t[i].span()
    } else {
        CALL_SITE
    }
}

/// The span of the token at `i`, or the call site past the tokens.
pub open spec fn span_of(v: Seq<TokV>, i: int) -> u64 {
    if 0 <= i < v.len() {
        tok_span(v[i])
    } else {
        CALL_SITE
    }
}

/// An error at the token at `i`.
fn diag_here(t: &Vec<Tok>, i: usize, fault: Fault) -> (r: Diag)
    ensures
        r == (Diag { fault, start: span_of(sv(t@), i as int), end: span_of(sv(t@), i as int) }),
{
    let s = span_at(t, i);
    Diag { fault, start: s, end: s }
}

/// A copy of the tokens `t[a..b]`.
pub fn copy_range(t: &Vec<Tok>, a: usize, b: usize) -> (r: Vec<Tok>)
    requires
        a <= b <= t@.len(),
    ensures
        sv(r@) == sv(t@).subrange(a as int, b as int),
{
    let mut r: Vec<Tok> = Vec::new();
    let mut i = a;
    while i < b
        invariant
            a <= i <= b <= t@.len(),
            r@.len() == i - a,
            sv(r@) == sv(t@).subrange(a as int, i as int),
        decreases b - i,
    {
        let ghost before = r@;
        let d = t[i].dup();
        r.push(d);
        proof {
            assert forall|k: int| 0 <= k < r@.len() implies #[trigger] sv(r@)[k] == sv(t@)[a + k] by {
                if k < before.len() {
                    assert(r@[k] == before[k]);
                    assert(sv(before)[k] == sv(t@).subrange(a as int, i as int)[k]);
                } else {
                    assert(r@[k] == d);
                }
            }
            assert(sv(r@) =~= sv(t@).subrange(a as int, i + 1));
        }
        i = i + 1;
    }
    r
}

/// The name at `i`: an identifier that is not a keyword.
pub fn name_at(t: &Vec<Tok>, i: usize, end: usize) -> (r: Option<Name>)
    requires
        end <= t@.len(),
    ensures
        r is Some ==> i < end,
        r is Some <==> i < end && sv(t@)[i as int] is Ident && accepts(
            Frag::Ident,
            text_of(sv(t@), i as int, i + 1),
        ),
        r matches Some(n) ==> sv(t@)[i as int] == (TokV::Ident { text: n.text@, span: n.span }),
{
    if i < end {
        match &t[i] {
            Tok::Ident { text, span } => {
                let s = text_exec(t, i, i + 1);
                if crate::fragment::accepts_exec(Frag::Ident, &s) {
                    Some(Name { text: text.clone(), span: *span })
                } else {
                    None
                }
            },
            _ => None,
        }
    } else {
        None
    }
}

/// Where the group opened at `open` and ending at `te` has its content
/// end: before its closing token.
fn body_end(t: &Vec<Tok>, open: usize, te: usize) -> (r: usize)
    requires
        open < te <= t@.len(),
    ensures
        open < r <= te,
        r == group_close(sv(t@), open as int, te as int),
{
    if te - 1 > open {
        match &t[te - 1] {
            Tok::Close { .. } => te - 1,
            _ => te,
        }
    } else {
        te
    }
}

/// The fragment of kind `k` at `pos`, or the error `fault` there.
fn fragment(t: &Vec<Tok>, k: Frag, pos: usize, end: usize, fault: Fault) -> (r: Result<usize, Diag>)
    requires
        pos <= end <= t@.len(),
    ensures
        r is Ok ==> pos < r->Ok_0 <= end,
        match fragment_end(k, sv(t@), pos as int, end as int) {
            Some(e) => r is Ok && r->Ok_0 == e,
            None => r == Err::<usize, Diag>(
                Diag { fault, start: span_of(sv(t@), pos as int), end: span_of(sv(t@), pos as int) },
            ),
        },
{
    match fragment_end_exec(k, t, pos, end) {
        Some(e) => Ok(e),
        None => Err(diag_here(t, pos, fault)),
    }
}

/// The outer attributes at `pos`: each `#` followed by brackets, read
/// together as attributes.
pub fn read_attrs(t: &Vec<Tok>, pos: usize, end: usize) -> (r: Result<usize, Diag>)
    requires
        pos <= end <= t@.len(),
    ensures
        r is Ok ==> pos <= r->Ok_0 <= end,
        match r {
            Ok(a) => a == attrs_end(sv(t@), pos as int, end as int) && (a == pos || accepts(
                Frag::Attrs,
                text_of(sv(t@), pos as int, a as int),
            )),
            Err(d) => {
                let a = attrs_end(sv(t@), pos as int, end as int);
                &&& a > pos
                &&& !accepts(Frag::Attrs, text_of(sv(t@), pos as int, a))
                &&& d == spanned_diag(Fault::ExpectedAttributes, sv(t@).subrange(pos as int, a))
            },
        },
{
    let mut i = pos;
    while is_punct(t, i, end, '#') && is_open(t, i + 1, end, Delim::Bracket)
        invariant
            pos <= i <= end <= t@.len(),
            attrs_end(sv(t@), pos as int, end as int) == attrs_end(sv(t@), i as int, end as int),
        decreases end - i,
    {
        i = tree_end_exec(t, i + 1, end);
    }
    if i > pos {
        let s = text_exec(t, pos, i);
        if !crate::fragment::accepts_exec(Frag::Attrs, &s) {
            return Err(diag_over(Fault::ExpectedAttributes, &copy_range(t, pos, i)));
        }
    }
    Ok(i)
}

/// Identifiers joined by dots, at `pos`.
pub fn read_access(t: &Vec<Tok>, pos: usize, end: usize) -> (r: Result<(Access, usize), Diag>)
    requires
        pos <= end <= t@.len(),
    ensures
        r is Ok ==> pos < r->Ok_0.1 <= end,
        match access_at(sv(t@), pos as int, end as int) {
            Ok((a, e)) => r matches Ok((x, e2)) && x@ == a && e2 == e,
            Err(p) => r == Err::<(Access, usize), Diag>(
                Diag { fault: Fault::ExpectedIdent, start: span_of(sv(t@), p), end: span_of(sv(t@), p) },
            ),
        },
{
    let ghost v = sv(t@);
    let first = match name_at(t, pos, end) {
        Some(n) => n,
        None => {
            return Err(diag_here(t, pos, Fault::ExpectedIdent));
        },
    };
    let ghost n0 = first@;
    let mut names: Vec<Name> = Vec::new();
    names.push(first);
    let mut dots: Vec<u64> = Vec::new();
    let mut i = pos + 1;
    proof {
        assert(AccessV { names: seq![n0], dots: Seq::empty() } == (Access { names, dots })@) by {
            assert((Access { names, dots })@.names =~= seq![n0]);
            assert((Access { names, dots })@.dots =~= Seq::<u64>::empty());
        }
    }
    while is_punct(t, i, end, '.')
        invariant
            pos < i <= end <= t@.len(),
            v == sv(t@),
            name_view(v, pos as int, end as int) == Some(n0),
            (Access { names, dots })@.names.len() >= 1,
            (Access { names, dots })@.names[0] == n0,
            match access_tail(v, i as int, end as int) {
                Ok((ds, ns, e)) => access_tail(v, pos + 1, end as int) == Ok::<
                    (Seq<u64>, Seq<NameV>, int),
                    int,
                >(((Access { names, dots })@.dots + ds, (Access { names, dots })@.names.drop_first() + ns, e)),
                Err(p) => access_tail(v, pos + 1, end as int) == Err::<(Seq<u64>, Seq<NameV>, int), int>(p),
            },
        decreases end - i,
    {
        let ghost before = (Access { names, dots })@;
        let s = span_at(t, i);
        match name_at(t, i + 1, end) {
            Some(n) => {
                let ghost nv = n@;
                dots.push(s);
                names.push(n);
                proof {
                    let after = (Access { names, dots })@;
                    assert(after.names =~= before.names.push(nv));
                    assert(after.dots =~= before.dots.push(s));
                    match access_tail(v, i + 2, end as int) {
                        Ok((ds, ns, e)) => {
                            assert(before.dots + (seq![s] + ds) =~= after.dots + ds);
                            assert(before.names.drop_first() + (seq![nv] + ns) =~= after.names.drop_first() + ns);
                        },
                        Err(p) => {},
                    }
                }
            },
            None => {
                return Err(diag_here(t, i + 1, Fault::ExpectedIdent));
            },
        }
        i = i + 2;
    }
    proof {
        let a = (Access { names, dots })@;
        assert(a.names =~= seq![n0] + a.names.drop_first());
        assert(a.dots =~= a.dots + Seq::<u64>::empty());
        assert(a.names.drop_first() =~= a.names.drop_first() + Seq::<NameV>::empty());
    }
    Ok((Access { names, dots }, i))
}

/// Whether the token at `k` closes angle brackets (a `>` not part of `->`).
fn closes_angle(t: &Vec<Tok>, k: usize, end: usize) -> (r: bool)
    requires
        end <= t@.len(),
    ensures
        r == closes_angle_at(sv(t@), k as int, end as int),
{
    if !is_punct(t, k, end, '>') {
        return false;
    }
    if k == 0 {
        return true;
    }
    match &t[k - 1] {
        Tok::Punct { ch, joint, .. } => !(*ch == '-' && *joint),
        _ => true,
    }
}

/// Where angle brackets opened at `i` close, before `end` (just after the
/// `>`), or `end`.
fn angle_end(t: &Vec<Tok>, i: usize, end: usize) -> (r: usize)
    requires
        i < end <= t@.len(),
    ensures
        i < r <= end,
        r == angle_scan(sv(t@), i as int, end as int, 0),
{
    let mut k = i;
    let mut depth: usize = 0;
    while k < end
        invariant
            i <= k <= end <= t@.len(),
            depth <= k - i,
            angle_scan(sv(t@), i as int, end as int, 0) == angle_scan(sv(t@), k as int, end as int, depth as nat),
            k == i ==> depth == 0,
        decreases end - k,
    {
        if is_punct(t, k, end, '<') {
            depth = depth + 1;
        } else if closes_angle(t, k, end) && depth > 0 {
            depth = depth - 1;
            if depth == 0 {
                return k + 1;
            }
        }
        k = tree_end_exec(t, k, end);
    }
    end
}

/// Whether an identifier stands at `i`, before `e`.
fn ident_at(t: &Vec<Tok>, i: usize, e: usize) -> (r: bool)
    requires
        e <= t@.len(),
    ensures
        r == (i < e && sv(t@)[i as int] is Ident),
{
    if i < e {
        match &t[i] {
            Tok::Ident { .. } => true,
            _ => false,
        }
    } else {
        false
    }
}

/// The tokens of segments with one more segment after them.
pub(crate) proof fn lemma_segs_push(s: Seq<Segment>, x: Segment, i: int)
    requires
        0 <= i <= s.len(),
    ensures
        segs_toks(s.push(x), i) == segs_toks(s, i) + seg_toks(x),
    decreases s.len() - i,
{
    if i < s.len() {
        lemma_segs_push(s, x, i + 1);
        assert(s.push(x)[i] == s[i]);
        assert(segs_toks(s.push(x), i) =~= seg_toks(s[i]) + (segs_toks(s, i + 1) + seg_toks(x)));
    } else {
        assert(segs_toks(s.push(x), i + 1) =~= Seq::<TokV>::empty());
        assert(segs_toks(s.push(x), i) =~= seg_toks(x));
    }
}

/// A type path at `pos`: where it ends is asked of the fragment reader;
/// its parts are then told apart: a qualified or `::` prefix, and each
/// segment with its arguments and the `::` after it. Its tokens are those
/// it was read from.
pub fn read_type_path(t: &Vec<Tok>, pos: usize, end: usize) -> (r: Result<(TypePath, usize), Diag>)
    requires
        pos <= end <= t@.len(),
    ensures
        r is Ok ==> pos < r->Ok_0.1 <= end,
        same(r, tp_res(sv(t@), pos as int, end as int)),
        r matches Ok((p, e)) ==> (p.qself || p.segs@.len() > 1) == (punct_is(sv(t@), pos as int, e as int, '<')
            || segs_count(sv(t@), tp_start(sv(t@), pos as int, e as int), e as int) > 1),
        fragment_end(Frag::TypePath, sv(t@), pos as int, end as int) is None ==> r == Err::<
            (TypePath, usize),
            Diag,
        >(Diag { fault: Fault::ExpectedType, start: span_of(sv(t@), pos as int), end: span_of(sv(t@), pos as int) }),
        r matches Ok((p, e)) ==> {
            &&& fragment_end(Frag::TypePath, sv(t@), pos as int, end as int) == Some(e as int)
            &&& type_path_toks(p) == sv(t@).subrange(pos as int, e as int)
            &&& p.qself == punct_is(sv(t@), pos as int, e as int, '<')
        },
{
    let ghost v = sv(t@);
    let e = match fragment(t, Frag::TypePath, pos, end, Fault::ExpectedType) {
        Ok(e) => e,
        Err(d) => {
            return Err(d);
        },
    };
    let mut i = pos;
    let mut qself = false;
    let mut leading_colon = false;
    if is_punct(t, i, e, '<') {
        qself = true;
        i = angle_end(t, i, e);
        if is_colon2(t, i, e) {
            i = i + 2;
        }
    } else if is_colon2(t, i, e) {
        leading_colon = true;
        i = i + 2;
    }
    let ghost i0 = i as int;
    assert(i0 == tp_start(v, pos as int, e as int));
    let mut leading = copy_range(t, pos, i);
    let mut segs: Vec<Segment> = Vec::new();
    assert(segs_toks(segs@, 0) =~= Seq::<TokV>::empty());
    assert(sv(leading@) + segs_toks(segs@, 0) =~= v.subrange(pos as int, i as int));
    while ident_at(t, i, e)
        invariant
            pos <= i <= e <= end <= t@.len(),
            v == sv(t@),
            fragment_end(Frag::TypePath, v, pos as int, end as int) == Some(e as int),
            sv(leading@) + segs_toks(segs@, 0) == v.subrange(pos as int, i as int),
            segs@.len() + segs_count(v, i as int, e as int) == segs_count(v, i0, e as int),
            i0 <= i,
        decreases e - i,
    {
        let ident = match &t[i] {
            Tok::Ident { text, span } => Name { text: text.clone(), span: *span },
            _ => {
                proof {
                    assert(false);
                }
                Name { text: String::new(), span: CALL_SITE }
            },
        };
        let mut k = i + 1;
        let mut depth: usize = 0;
        while k < e
            invariant
                i < k <= e <= t@.len(),
                depth <= k - (i + 1),
                v == sv(t@),
                seg_scan(v, i + 1, e as int, 0) == seg_scan(v, k as int, e as int, depth as nat),
            ensures
                i < k <= e,
                seg_scan(v, i + 1, e as int, 0) == k,
            decreases e - k,
        {
            if depth == 0 && is_colon2(t, k, e) && !is_punct(t, k + 2, e, '<') {
                break;
            }
            if is_punct(t, k, e, '<') {
                depth = depth + 1;
            } else if closes_angle(t, k, e) && depth > 0 {
                depth = depth - 1;
            }
            assert(depth <= k + 1 - (i + 1));
            k = tree_end_exec(t, k, e);
        }
        assert(seg_scan(v, i + 1, e as int, 0) == k);
        let args = copy_range(t, i + 1, k);
        let k2 = if is_colon2(t, k, e) {
            k + 2
        } else {
            k
        };
        let sep = copy_range(t, k, k2);
        let seg = Segment { ident, args, sep };
        proof {
            assert(seg_toks(seg) =~= v.subrange(i as int, k2 as int));
            lemma_segs_push(segs@, seg, 0);
        }
        let ghost before = segs@;
        segs.push(seg);
        proof {
            assert(segs@ == before.push(seg));
            assert(v.subrange(pos as int, k2 as int) =~= v.subrange(pos as int, i as int) + v.subrange(
                i as int,
                k2 as int,
            ));
        }
        i = k2;
    }
    if i < e {
        // Tokens that start no segment stay with the last separator, or
        // with the prefix when there is no segment.
        let rest = copy_range(t, i, e);
        proof {
            assert(v.subrange(pos as int, e as int) =~= v.subrange(pos as int, i as int) + v.subrange(
                i as int,
                e as int,
            ));
        }
        if segs.len() > 0 {
            let ghost before = segs@;
            let mut last = segs.pop().unwrap();
            let ghost s0 = segs@;
            let ghost l0 = last;
            extend(&mut last.sep, &rest);
            proof {
                assert(before =~= s0.push(l0));
                lemma_segs_push(s0, l0, 0);
                lemma_segs_push(s0, last, 0);
                assert(seg_toks(last) =~= seg_toks(l0) + sv(rest@));
            }
            segs.push(last);
        } else {
            leading = copy_range(t, pos, e);
            assert(segs_toks(segs@, 0) =~= Seq::<TokV>::empty());
        }
    }
    assert(segs@.len() == segs_count(v, i0, e as int));
    Ok((TypePath { qself, leading_colon, leading, segs }, e))
}

/// A path at `pos`: identifiers joined by dots with optional turbofish
/// generics when a dot follows the first one, else a type path.
pub fn read_path(t: &Vec<Tok>, pos: usize, end: usize) -> (r: Result<(Path, usize), Diag>)
    requires
        pos <= end <= t@.len(),
    ensures
        r is Ok ==> pos < r->Ok_0.1 <= end,
        same(r, path_res(sv(t@), pos as int, end as int)),
        r matches Ok((p, _)) ==> spec_is_long(p) == path_long(sv(t@), pos as int, end as int),
        r matches Ok((p, _)) ==> (p is Field <==> name_view(sv(t@), pos as int, end as int) is Some
            && punct_is(sv(t@), pos + 1, end as int, '.')),
        r matches Ok((Path::Type(tp), e)) ==> type_path_toks(tp) == sv(t@).subrange(pos as int, e as int),
        r matches Ok((p, e)) ==> e == path_end(sv(t@), pos as int, end as int, p),
        r matches Ok((Path::Field { access, gens }, e)) ==> access_at(sv(t@), pos as int, end as int) matches Ok(
            (a, ae),
        ) && access@ == a && match gens {
            Some(g) => sv(g@) == sv(t@).subrange(ae, e as int) && accepts(
                Frag::Turbofish,
                text_of(sv(t@), ae, e as int),
            ),
            None => e == ae,
        },
{
    if name_at(t, pos, end).is_some() && is_punct(t, pos + 1, end, '.') {
        let (access, i) = match read_access(t, pos, end) {
            Ok(x) => x,
            Err(d) => {
                return Err(d);
            },
        };
        let start = if is_colon2(t, i, end) {
            i + 2
        } else {
            i
        };
        if is_punct(t, start, end, '<') {
            let k = angle_end(t, start, end);
            let s = text_exec(t, i, k);
            if crate::fragment::accepts_exec(Frag::Turbofish, &s) {
                let g = copy_range(t, i, k);
                assert(g@.len() == sv(g@).len());
                return Ok((Path::Field { access, gens: Some(g) }, k));
            }
        }
        Ok((Path::Field { access, gens: None }, i))
    } else {
        match read_type_path(t, pos, end) {
            Ok((p, e)) => Ok((Path::Type(p), e)),
            Err(d) => Err(d),
        }
    }
}

/// The name given to an object at `pos`: a visibility (or `ref`), `mut`,
/// the name, and a type after `as` when there is a visibility. Without a
/// visibility the name may be left out and is then made up.
pub fn read_field(t: &Vec<Tok>, pos: usize, end: usize, d: Display, counter: &mut usize) -> (r: Result<
    (Field, usize),
    Diag,
>)
    requires
        pos <= end <= t@.len(),
    ensures
        r is Ok ==> pos <= r->Ok_0.1 <= end,
        r is Err ==> *final(counter) == *old(counter),
        match field_res(sv(t@), pos as int, end as int) {
            Ok((e, auto)) => r is Ok && r->Ok_0.1 == e && r->Ok_0.0.auto == auto && *final(counter) == count_after(
                *old(counter),
                auto,
            ),
            Err(x) => r is Err && r->Err_0 == x,
        },
        r matches Ok((f, _)) ==> field_reads(sv(t@), pos as int, end as int, f),
        r matches Ok((f, _)) ==> if f.auto {
            &&& f.vis is None
            &&& f.name@.text == display_text(d) + decimal(*old(counter) as nat)
            &&& *final(counter) == next_count(*old(counter))
        } else {
            *final(counter) == *old(counter)
        },
{
    let mut i = pos;
    let vis: Option<Vec<Tok>> = if word_at(t, i, end, "pub") {
        match fragment(t, Frag::Vis, i, end, Fault::ExpectedIdent) {
            Ok(e) => {
                let v = copy_range(t, i, e);
                i = e;
                Some(v)
            },
            Err(d) => {
                return Err(d);
            },
        }
    } else if word_at(t, i, end, "ref") {
        i = i + 1;
        let none: Vec<Tok> = Vec::new();
        assert(sv(none@) =~= Seq::<TokV>::empty());
        Some(none)
    } else {
        None
    };
    let mut_ = if word_at(t, i, end, "mut") {
        let s = span_at(t, i);
        i = i + 1;
        Some(s)
    } else {
        None
    };
    let name_pos = i;
    let name = name_at(t, i, end);
    if name.is_some() {
        i = i + 1;
    }
    let ty = if vis.is_some() && word_at(t, i, end, "as") {
        match read_type_path(t, i + 1, end) {
            Ok((p, e)) => {
                i = e;
                Some(p)
            },
            Err(d) => {
                return Err(d);
            },
        }
    } else {
        None
    };
    let (name, auto) = if vis.is_some() {
        match name {
            Some(n) => (n, false),
            None => {
                return Err(diag_here(t, name_pos, Fault::ExpectedIdent));
            },
        }
    } else {
        name_object(name.as_ref(), d, counter, CALL_SITE)
    };
    Ok((Field { vis, mut_, name, ty, auto }, i))
}

/// The content of the group opened at `open` (ending at `te`), read in
/// order.
fn read_group_body(t: &Vec<Tok>, open: usize, te: usize, counter: &mut usize) -> (r: Result<Vec<Content>, Diag>)
    requires
        open < te <= t@.len(),
    ensures
        same_k(r, group_res(sv(t@), open as int, te as int, *old(counter)), *final(counter)),
        r is Ok ==> exists|ps: Seq<int>|
            #[trigger] body_reads(
                sv(t@),
                open + 1,
                group_close(sv(t@), open as int, te as int),
                group_close(sv(t@), open as int, te as int),
                r->Ok_0@,
                ps,
            ),
    decreases te - open, 0nat,
{
    let close = body_end(t, open, te);
    let r = read_body(t, open + 1, close, counter);
    proof {
        if r is Ok {
            let v = sv(t@);
            let ps = choose|ps: Seq<int>| #[trigger] body_reads(v, (open + 1) as int, close as int, close as int, r->Ok_0@, ps);
            assert(body_reads(v, open + 1, group_close(v, open as int, te as int), group_close(v, open as int, te as int), r->Ok_0@, ps));
        }
    }
    r
}

/// The content `t[a..b]`, read in order.
pub fn read_body(t: &Vec<Tok>, a: usize, b: usize, counter: &mut usize) -> (r: Result<Vec<Content>, Diag>)
    requires
        a <= b <= t@.len(),
    ensures
        same_k(r, body_res(sv(t@), a as int, b as int, *old(counter)), *final(counter)),
        r matches Ok(body) ==> (body@.len() == 0 <==> a == b),
        r is Ok ==> exists|ps: Seq<int>| #[trigger] body_reads(sv(t@), a as int, b as int, b as int, r->Ok_0@, ps),
    decreases b - a, 6nat,
{
    let mut body: Vec<Content> = Vec::new();
    let mut i = a;
    let ghost mut ps: Seq<int> = seq![a as int];
    while i < b
        invariant
            a <= i <= b <= t@.len(),
            body@.len() == 0 <==> i == a,
            body_reads(sv(t@), a as int, i as int, b as int, body@, ps),
            body_res(sv(t@), a as int, b as int, *old(counter)) == body_res(sv(t@), i as int, b as int, *counter),
        decreases b - i,
    {
        match read_content(t, i, b, counter) {
            Ok((c, e)) => {
                proof {
                    lemma_body_push(sv(t@), a as int, b as int, body@, ps, c, e as int);
                    ps = ps.push(e as int);
                }
                body.push(c);
                i = e;
            },
            Err(d) => {
                return Err(d);
            },
        }
    }
    let r = Ok(body);
    proof {
        assert(body_reads(sv(t@), a as int, b as int, b as int, r->Ok_0@, ps));
    }
    r
}

/// One content at `pos`: its attributes, then the rest.
pub fn read_content(t: &Vec<Tok>, pos: usize, end: usize, counter: &mut usize) -> (r: Result<
    (Content, usize),
    Diag,
>)
    requires
        pos <= end <= t@.len(),
    ensures
        same_count(r, content_res(sv(t@), pos as int, end as int, *old(counter)), *final(counter)),
        r is Ok ==> pos < r->Ok_0.1 <= end,
        r matches Ok((c, _)) ==> starts_as(sv(t@), attrs_end(sv(t@), pos as int, end as int), end as int, c),
        r is Ok ==> content_reads(sv(t@), pos as int, end as int, r->Ok_0.0, r->Ok_0.1 as int),
        ({
            let a = attrs_end(sv(t@), pos as int, end as int);
            a > pos && !accepts(Frag::Attrs, text_of(sv(t@), pos as int, a)) ==> r == Err::<
                (Content, usize),
                Diag,
            >(spanned_diag(Fault::ExpectedAttributes, sv(t@).subrange(pos as int, a)))
        }),
        ({
            let a = attrs_end(sv(t@), pos as int, end as int);
            (a == pos || accepts(Frag::Attrs, text_of(sv(t@), pos as int, a))) ==> (kind_at(
                sv(t@),
                a,
                end as int,
            ) matches Err(s) ==> r == Err::<(Content, usize), Diag>(
                Diag { fault: Fault::UnexpectedLifetime, start: s, end: s },
            ))
        }),
    decreases end - pos, 5nat,
{
    let a = match read_attrs(t, pos, end) {
        Ok(a) => a,
        Err(d) => {
            return Err(d);
        },
    };
    let attrs = copy_range(t, pos, a);
    read_with_attrs(t, a, end, attrs, counter)
}

/// The lead token of a content at `pos`, and whether a `:` follows a
/// lifetime.
fn lead_at(t: &Vec<Tok>, pos: usize, end: usize) -> (r: (Lead, bool))
    requires
        end <= t@.len(),
    ensures
        !(r.0 is Other) ==> pos < end,
        r.0 is Lifetime ==> pos + 1 < end,
        r.1 ==> pos + 2 < end,
        spec_content_kind(r.0, r.1) == kind_at(sv(t@), pos as int, end as int),
{
    if is_punct(t, pos, end, '~') {
        (Lead::Tilde, false)
    } else if is_punct(t, pos, end, '\'') && pos + 1 < end {
        match &t[pos + 1] {
            Tok::Ident { text, .. } => (
                Lead::Lifetime { name: text.clone(), span: span_at(t, pos) },
                is_punct(t, pos + 2, end, ':'),
            ),
            _ => (Lead::Other, false),
        }
    } else if word_at(t, pos, end, "if") {
        (Lead::If, false)
    } else if word_at(t, pos, end, "match") {
        (Lead::Match, false)
    } else if word_at(t, pos, end, "ref") {
        (Lead::Ref, false)
    } else {
        (Lead::Other, false)
    }
}

/// One content at `pos`, once its attributes `attrs` are read.
#[verifier::spinoff_prover]
#[verifier::rlimit(100)]
pub fn read_with_attrs(t: &Vec<Tok>, pos: usize, end: usize, attrs: Vec<Tok>, counter: &mut usize) -> (r: Result<
    (Content, usize),
    Diag,
>)
    requires
        pos <= end <= t@.len(),
    ensures
        same_count(r, with_res(sv(t@), pos as int, end as int, *old(counter)), *final(counter)),
        r is Ok ==> pos < r->Ok_0.1 <= end,
        r matches Ok((c, _)) ==> starts_as(sv(t@), pos as int, end as int, c),
        kind_at(sv(t@), pos as int, end as int) matches Err(s) ==> r == Err::<(Content, usize), Diag>(
            Diag { fault: Fault::UnexpectedLifetime, start: s, end: s },
        ),
        r matches Ok((Content::Consume(k), e)) ==> consume_reads(sv(t@), pos as int, end as int, sv(attrs@), *k, e as int),
        r matches Ok((Content::BindColon(b), e)) ==> bind_colon_reads(sv(t@), pos as int, end as int, sv(attrs@), *b, e as int),
        r matches Ok((Content::Bind(b), e)) ==> bind_reads(sv(t@), pos as int, end as int, sv(attrs@), *b, e as int),
        r matches Ok((Content::Edit(x), e)) ==> edit_reads(sv(t@), pos as int, end as int, sv(attrs@), *x, e as int),
        r matches Ok((Content::Match(m), e)) ==> match_reads(sv(t@), pos as int, end as int, sv(attrs@), *m, e as int),
        (r is Ok && r->Ok_0.0 is Match) ==> match_arms_at(sv(t@), pos as int, end as int, *r->Ok_0.0->Match_0),
        r matches Ok((Content::Property(p), _)) ==> property_reads(sv(t@), pos as int, end as int, sv(attrs@), *p),
        (r is Ok && r->Ok_0.0 is Construct) ==> (prop_res(
            sv(t@),
            tilde_next(sv(t@), pos as int, end as int),
            end as int,
            *old(counter),
        ) matches Ok((pe, _)) && exists|ps: Seq<int>|
            #[trigger] body_reads(sv(t@), pe, end as int, end as int, r->Ok_0.0->Construct_0.rest@, ps)),
        (r is Ok && r->Ok_0.0 is If) ==> ({
            let ch = r->Ok_0.0->If_0;
            let e = r->Ok_0.1 as int;
            &&& sv(ch.attrs@) == sv(attrs@)
            &&& !word_is(sv(t@), e, end as int, "else"@)
            &&& exists|ps: Seq<int>| #[trigger] if_chain_reads(sv(t@), pos as int, e, end as int, ch.branches@, ps)
        }),
        r matches Ok((Content::Construct(k), _)) ==> (k.penult matches Content::Property(p) && property_reads(
            sv(t@),
            tilde_next(sv(t@), pos as int, end as int),
            end as int,
            sv(attrs@),
            *p,
        )),
    decreases end - pos, 4nat,
{
    let (lead, colon_next) = lead_at(t, pos, end);
    let kind = match content_kind(&lead, colon_next) {
        Ok(k) => k,
        Err(s) => {
            return Err(Diag { fault: Fault::UnexpectedLifetime, start: s, end: s });
        },
    };
    match kind {
        Kind::Construct => match read_construct(t, pos, end, attrs, counter) {
            Ok((k, e)) => {
                let ghost kv = k;
                let r = Ok((Content::Construct(Box::new(k)), e));
                proof {
                    assert(r->Ok_0.0->Construct_0 == kv);
                }
                r
            },
            Err(d) => Err(d),
        },
        Kind::BindColon => match read_bind_colon(t, pos, end, attrs, counter) {
            Ok((x, e)) => {
                let ghost xv = x;
                let r = Ok((Content::BindColon(Box::new(x)), e));
                proof {
                    assert(r->Ok_0.0->BindColon_0 == xv);
                }
                r
            },
            Err(d) => Err(d),
        },
        Kind::Bind => match read_bind(t, pos, end, attrs, counter) {
            Ok((x, e)) => {
                let ghost xv = x;
                let r = Ok((Content::Bind(Box::new(x)), e));
                proof {
                    assert(r->Ok_0.0->Bind_0 == xv);
                }
                r
            },
            Err(d) => Err(d),
        },
        Kind::Consume => match read_consume(t, pos, end, attrs, counter) {
            Ok((x, e)) => {
                let ghost xv = x;
                let r = Ok((Content::Consume(Box::new(x)), e));
                proof {
                    assert(r->Ok_0.0->Consume_0 == xv);
                }
                r
            },
            Err(d) => Err(d),
        },
        Kind::If => match read_if_chain(t, pos, end, attrs, counter) {
            Ok((ch, e)) => {
                let ghost bs = ch.branches@;
                let ghost ps = choose|ps: Seq<int>|
                    #[trigger] if_chain_reads(sv(t@), pos as int, e as int, end as int, bs, ps);
                let r = Ok((Content::If(Box::new(ch)), e));
                proof {
                    assert(if_chain_reads(sv(t@), pos as int, e as int, end as int, r->Ok_0.0->If_0.branches@, ps));
                }
                r
            },
            Err(d) => Err(d),
        },
        Kind::Match => match read_match(t, pos, end, attrs, counter) {
            Ok((m, e)) => {
                let ghost mv = m;
                let r = Ok((Content::Match(Box::new(m)), e));
                proof {
                    assert(r->Ok_0.0->Match_0 == mv);
                }
                r
            },
            Err(d) => Err(d),
        },
        Kind::Edit => match read_edit(t, pos, end, attrs, counter) {
            Ok((x, e)) => {
                let ghost xv = x;
                let r = Ok((Content::Edit(Box::new(x)), e));
                proof {
                    assert(r->Ok_0.0->Edit_0 == xv);
                }
                r
            },
            Err(d) => Err(d),
        },
        Kind::Property => {
            match read_property(t, pos, end, attrs, counter) {
                Ok((p, e)) => Ok((Content::Property(Box::new(p)), e)),
                Err(d) => Err(d),
            }
        },
    }
}

/// `'bind:` at `pos`: `if`, a condition and braces.
fn read_bind_colon(t: &Vec<Tok>, pos: usize, end: usize, attrs: Vec<Tok>, counter: &mut usize) -> (r: Result<(BindColon, usize), Diag>)
    requires
        pos <= end <= t@.len(),
        kind_at(sv(t@), pos as int, end as int) == Ok::<Kind, u64>(Kind::BindColon),
    ensures
        same_count(r, bind_colon_res(sv(t@), pos as int, end as int, *old(counter)), *final(counter)),
        r is Ok ==> pos < r->Ok_0.1 <= end,
        r matches Ok((x, e)) ==> bind_colon_reads(sv(t@), pos as int, end as int, sv(attrs@), x, e as int),
    decreases end - pos, 3nat,
{
    let token_span = span_at(t, pos);
    let i = pos + 3;
    if !word_at(t, i, end, "if") {
        return Err(diag_here(t, i, Fault::ExpectedIf));
    }
    let e = match fragment(t, Frag::Expr, i + 1, end, Fault::ExpectedExpr) {
        Ok(e) => e,
        Err(d) => {
            return Err(d);
        },
    };
    let cond = copy_range(t, i, e);
    if !is_open(t, e, end, Delim::Brace) {
        return Err(diag_here(t, e, Fault::ExpectedBraces));
    }
    let te = tree_end_exec(t, e, end);
    let body = match read_group_body(t, e, te, counter) {
        Ok(b) => b,
        Err(d) => {
            return Err(d);
        },
    };
    let b = BindColon { attrs, token_span, cond, brace_span: span_at(t, e), body };
    Ok((b, te))
}

/// `'bind` at `pos`: maybe `#`, then braces or one content.
fn read_bind(t: &Vec<Tok>, pos: usize, end: usize, attrs: Vec<Tok>, counter: &mut usize) -> (r: Result<(Bind, usize), Diag>)
    requires
        pos <= end <= t@.len(),
        kind_at(sv(t@), pos as int, end as int) == Ok::<Kind, u64>(Kind::Bind),
    ensures
        same_count(r, bind_res(sv(t@), pos as int, end as int, *old(counter)), *final(counter)),
        r is Ok ==> pos < r->Ok_0.1 <= end,
        r matches Ok((x, e)) ==> bind_reads(sv(t@), pos as int, end as int, sv(attrs@), x, e as int),
    decreases end - pos, 3nat,
{
    let token_span = span_at(t, pos);
    let mut i = pos + 2;
    let init = is_punct(t, i, end, '#');
    if init {
        i = i + 1;
    }
    if i > end {
        return Err(diag_here(t, end, Fault::ExpectedBraces));
    }
    if is_open(t, i, end, Delim::Brace) {
        let te = tree_end_exec(t, i, end);
        let body = match read_group_body(t, i, te, counter) {
            Ok(b) => b,
            Err(d) => {
                return Err(d);
            },
        };
        let mode = BindMode::Braced { attrs, brace_span: span_at(t, i), body };
        Ok((Bind { token_span, init, mode }, te))
    } else {
        match read_with_attrs(t, i, end, attrs, counter) {
            Ok((c, e)) => Ok((Bind { token_span, init, mode: BindMode::Unbraced(c) }, e)),
            Err(d) => Err(d),
        }
    }
}

/// `'consume` at `pos`: maybe `mut`, a name, `=`, an expression and maybe `;`.
fn read_consume(t: &Vec<Tok>, pos: usize, end: usize, attrs: Vec<Tok>, counter: &mut usize) -> (r: Result<(Consume, usize), Diag>)
    requires
        pos <= end <= t@.len(),
        kind_at(sv(t@), pos as int, end as int) == Ok::<Kind, u64>(Kind::Consume),
    ensures
        same(r, consume_res(sv(t@), pos as int, end as int)) && *final(counter) == *old(counter),
        r is Ok ==> pos < r->Ok_0.1 <= end,
        r matches Ok((x, e)) ==> consume_reads(sv(t@), pos as int, end as int, sv(attrs@), x, e as int),
    decreases end - pos, 3nat,
{
    let token_span = span_at(t, pos);
    let mut i = pos + 2;
    let mut_ = if word_at(t, i, end, "mut") {
        let s = span_at(t, i);
        i = i + 1;
        Some(s)
    } else {
        None
    };
    let name = match name_at(t, i, end) {
        Some(n) => n,
        None => {
            return Err(diag_here(t, i, Fault::ExpectedIdent));
        },
    };
    i = i + 1;
    if !is_punct(t, i, end, '=') {
        return Err(diag_here(t, i, Fault::ExpectedEq));
    }
    let equal_span = span_at(t, i);
    let (expr, e) = match read_expr(t, i + 1, end) {
        Ok(x) => x,
        Err(d) => {
            return Err(d);
        },
    };
    let next = if is_punct(t, e, end, ';') {
        e + 1
    } else {
        e
    };
    let k = Consume { attrs, token_span, mut_, name, equal_span, expr };
    Ok((k, next))
}

/// `ref` at `pos`: identifiers joined by dots, then braces.
fn read_edit(t: &Vec<Tok>, pos: usize, end: usize, attrs: Vec<Tok>, counter: &mut usize) -> (r: Result<(Edit, usize), Diag>)
    requires
        pos <= end <= t@.len(),
        kind_at(sv(t@), pos as int, end as int) == Ok::<Kind, u64>(Kind::Edit),
    ensures
        same_count(r, edit_res(sv(t@), pos as int, end as int, *old(counter)), *final(counter)),
        r is Ok ==> pos < r->Ok_0.1 <= end,
        r matches Ok((x, e)) ==> edit_reads(sv(t@), pos as int, end as int, sv(attrs@), x, e as int),
    decreases end - pos, 3nat,
{
    let (edit, e) = match read_access(t, pos + 1, end) {
        Ok(x) => x,
        Err(d) => {
            return Err(d);
        },
    };
    if !is_open(t, e, end, Delim::Brace) {
        return Err(diag_here(t, e, Fault::ExpectedBraces));
    }
    let te = tree_end_exec(t, e, end);
    let body = match read_group_body(t, e, te, counter) {
        Ok(b) => b,
        Err(d) => {
            return Err(d);
        },
    };
    Ok((Edit { attrs, edit, body }, te))
}

/// An `if` chain at `pos` with the attributes `attrs`: its first branch,
/// then a branch for each `else`.
fn read_if_chain(t: &Vec<Tok>, pos: usize, end: usize, attrs: Vec<Tok>, counter: &mut usize) -> (r: Result<
    (IfChain, usize),
    Diag,
>)
    requires
        pos <= end <= t@.len(),
    ensures
        same_count(r, if_chain_res(sv(t@), pos as int, end as int, *old(counter)), *final(counter)),
        r is Ok ==> pos < r->Ok_0.1 <= end,
        r is Ok ==> sv(r->Ok_0.0.attrs@) == sv(attrs@) && !word_is(sv(t@), r->Ok_0.1 as int, end as int, "else"@)
            && exists|ps: Seq<int>|
            #[trigger] if_chain_reads(sv(t@), pos as int, r->Ok_0.1 as int, end as int, r->Ok_0.0.branches@, ps),
    decreases end - pos, 3nat,
{
    let mut branches: Vec<If> = Vec::new();
    let ghost mut ps: Seq<int> = seq![pos as int];
    let (first, e) = match read_if(t, pos, end, counter) {
        Ok(x) => x,
        Err(d) => {
            return Err(d);
        },
    };
    proof {
        lemma_if_push(sv(t@), pos as int, end as int, branches@, ps, first, e as int);
        ps = ps.push(e as int);
    }
    branches.push(first);
    let mut i = e;
    while word_at(t, i, end, "else")
        invariant
            pos < i <= end <= t@.len(),
            branches@.len() > 0,
            if_chain_reads(sv(t@), pos as int, i as int, end as int, branches@, ps),
            if_chain_res(sv(t@), pos as int, end as int, *old(counter)) == elses_res(
                sv(t@),
                i as int,
                end as int,
                *counter,
            ),
        decreases end - i,
    {
        match read_if(t, i, end, counter) {
            Ok((b, e)) => {
                proof {
                    lemma_if_push(sv(t@), pos as int, end as int, branches@, ps, b, e as int);
                    ps = ps.push(e as int);
                }
                branches.push(b);
                i = e;
            },
            Err(d) => {
                return Err(d);
            },
        }
    }
    let r = Ok((IfChain { attrs, branches }, i));
    proof {
        assert(if_chain_reads(sv(t@), pos as int, i as int, end as int, r->Ok_0.0.branches@, ps));
    }
    r
}

/// A `match` at `pos` with the attributes `attrs`: `match` and its
/// scrutinee, then its arms in braces.
fn read_match(t: &Vec<Tok>, pos: usize, end: usize, attrs: Vec<Tok>, counter: &mut usize) -> (r: Result<
    (Match, usize),
    Diag,
>)
    requires
        pos < end <= t@.len(),
    ensures
        same_count(r, match_res(sv(t@), pos as int, end as int, *old(counter)), *final(counter)),
        r is Ok ==> pos < r->Ok_0.1 <= end,
        r is Ok ==> match_reads(sv(t@), pos as int, end as int, sv(attrs@), r->Ok_0.0, r->Ok_0.1 as int),
        r is Ok ==> match_arms_at(sv(t@), pos as int, end as int, r->Ok_0.0),
    decreases end - pos, 3nat,
{
    let ghost av = sv(attrs@);
    let e = match fragment(t, Frag::ExprNoBrace, pos + 1, end, Fault::ExpectedExpr) {
        Ok(e) => e,
        Err(d) => {
            return Err(d);
        },
    };
    let head = copy_range(t, pos, e);
    if !is_open(t, e, end, Delim::Brace) {
        return Err(diag_here(t, e, Fault::ExpectedBraces));
    }
    let te = tree_end_exec(t, e, end);
    let close = body_end(t, e, te);
    let mut arms: Vec<Arm> = Vec::new();
    let mut j = e + 1;
    let ghost mut ps: Seq<int> = seq![j as int];
    while j < close
        invariant
            e < j <= close <= te <= end <= t@.len(),
            pos < e,
            arms_reads(sv(t@), e + 1, j as int, close as int, arms@, ps),
            te == crate::fragment::tree_end(sv(t@), e as int, end as int),
            close == group_close(sv(t@), e as int, te as int),
            match_res(sv(t@), pos as int, end as int, *old(counter)) == (match arms_res(
                sv(t@),
                j as int,
                close as int,
                *counter,
            ) {
                Ok(k2) => Ok::<(int, usize), Diag>((te as int, k2)),
                Err(d) => Err(d),
            }),
        decreases close - j,
    {
        match read_arm(t, j, close, counter) {
            Ok((a, k)) => {
                proof {
                    lemma_arm_push(sv(t@), e + 1, close as int, arms@, ps, a, k as int);
                    ps = ps.push(k as int);
                }
                arms.push(a);
                j = k;
            },
            Err(d) => {
                return Err(d);
            },
        }
    }
    let r = Ok((Match { attrs, head, brace_span: span_at(t, e), arms }, te));
    proof {
        assert(arms_reads(sv(t@), e + 1, close as int, close as int, r->Ok_0.0.arms@, ps));
    }
    r
}

/// A construction at `pos` with the attributes `attrs`: `~`, maybe a
/// second `~`, maybe `/` or `>`, a property, then the rest of the body.
#[verifier::rlimit(100)]
#[verifier::spinoff_prover]
fn read_construct(t: &Vec<Tok>, pos: usize, end: usize, attrs: Vec<Tok>, counter: &mut usize) -> (r: Result<
    (Construct, usize),
    Diag,
>)
    requires
        pos < end <= t@.len(),
    ensures
        r is Ok ==> (prop_res(sv(t@), tilde_next(sv(t@), pos as int, end as int), end as int, *old(counter)) matches Ok(
            (pe, _),
        ) && exists|ps: Seq<int>| #[trigger] body_reads(sv(t@), pe, end as int, end as int, r->Ok_0.0.rest@, ps)),
        same_count(r, construct_res(sv(t@), pos as int, end as int, *old(counter)), *final(counter)),
        r is Ok ==> r->Ok_0.1 == end,
        r matches Ok((k, _)) ==> {
            &&& k.tilde_span == tok_span(sv(t@)[pos as int])
            &&& (k.last is Some) == tilde_flags(sv(t@), pos as int, end as int).0
            &&& k.object == tilde_flags(sv(t@), pos as int, end as int).1
            &&& k.penult matches Content::Property(p) && property_reads(
                sv(t@),
                tilde_next(sv(t@), pos as int, end as int),
                end as int,
                sv(attrs@),
                *p,
            )
        },
    decreases end - pos, 3nat,
{
    let ghost av = sv(attrs@);
    let tilde_span = span_at(t, pos);
    let mut i = pos + 1;
    let last = if is_punct(t, i, end, '~') {
        let s = span_at(t, i);
        i = i + 1;
        Some(s)
    } else {
        None
    };
    let object = if is_punct(t, i, end, '/') || is_punct(t, i, end, '>') {
        i = i + 1;
        true
    } else {
        false
    };
    let (penult, e) = match read_property(t, i, end, attrs, counter) {
        Ok(x) => x,
        Err(d) => {
            return Err(d);
        },
    };
    let rest = match read_body(t, e, end, counter) {
        Ok(b) => b,
        Err(d) => {
            return Err(d);
        },
    };
    let ghost ps = choose|ps: Seq<int>| #[trigger] body_reads(sv(t@), e as int, end as int, end as int, rest@, ps);
    let ghost pv = penult;
    let k = Construct { object, tilde_span, last, penult: Content::Property(Box::new(penult)), rest };
    let r = Ok((k, end));
    proof {
        assert(r->Ok_0.0.penult->Property_0 == pv);
        assert(body_reads(sv(t@), e as int, end as int, end as int, r->Ok_0.0.rest@, ps));
    }
    r
}

/// One branch of an `if` chain at `pos`: `else`, `if` and a condition as
/// written, then braces.
fn read_if(t: &Vec<Tok>, pos: usize, end: usize, counter: &mut usize) -> (r: Result<(If, usize), Diag>)
    requires
        pos <= end <= t@.len(),
    ensures
        same_count(r, if_res(sv(t@), pos as int, end as int, *old(counter)), *final(counter)),
        r is Ok ==> pos < r->Ok_0.1 <= end,
        r matches Ok((b, e)) ==> if_head_reads(sv(t@), pos as int, end as int, b, e as int),
    decreases end - pos, 2nat,
{
    let mut i = pos;
    if word_at(t, i, end, "else") {
        i = i + 1;
    }
    if word_at(t, i, end, "if") {
        match fragment(t, Frag::ExprNoBrace, i + 1, end, Fault::ExpectedExpr) {
            Ok(e) => {
                i = e;
            },
            Err(d) => {
                return Err(d);
            },
        }
    }
    let head = copy_range(t, pos, i);
    if !is_open(t, i, end, Delim::Brace) {
        return Err(diag_here(t, i, Fault::ExpectedBraces));
    }
    let te = tree_end_exec(t, i, end);
    match read_group_body(t, i, te, counter) {
        Ok(body) => Ok((If { head, brace_span: span_at(t, i), body }, te)),
        Err(d) => Err(d),
    }
}

/// One arm of a `match` at `pos`: attributes, a pattern, a guard, `=>`,
/// and a body in braces or one content.
fn read_arm(t: &Vec<Tok>, pos: usize, end: usize, counter: &mut usize) -> (r: Result<(Arm, usize), Diag>)
    requires
        pos <= end <= t@.len(),
    ensures
        same_count(r, arm_res(sv(t@), pos as int, end as int, *old(counter)), *final(counter)),
        r is Ok ==> pos < r->Ok_0.1 <= end,
        r matches Ok((a, e)) ==> arm_reads(sv(t@), pos as int, end as int, a, e as int),
    decreases end - pos, 2nat,
{
    let a = match read_attrs(t, pos, end) {
        Ok(a) => a,
        Err(d) => {
            return Err(d);
        },
    };
    let p = match fragment(t, Frag::Pat, a, end, Fault::ExpectedPattern) {
        Ok(p) => p,
        Err(d) => {
            return Err(d);
        },
    };
    let mut i = p;
    let guard = if word_at(t, i, end, "if") {
        match fragment(t, Frag::Expr, i + 1, end, Fault::ExpectedExpr) {
            Ok(e) => {
                let g = copy_range(t, i, e);
                i = e;
                g
            },
            Err(d) => {
                return Err(d);
            },
        }
    } else {
        let g: Vec<Tok> = Vec::new();
        assert(sv(g@) =~= sv(t@).subrange(p as int, p as int));
        g
    };
    assert(sv(guard@) == sv(t@).subrange(p as int, i as int));
    let arrow_ok = match punct_at(t, i, end) {
        Some(q) => q.ch == '=' && q.joint && is_punct(t, i + 1, end, '>'),
        None => false,
    };
    if !arrow_ok {
        return Err(diag_here(t, i, Fault::ExpectedArrow));
    }
    let arrow = copy_range(t, i, i + 2);
    i = i + 2;
    let attrs = copy_range(t, pos, a);
    let pat = copy_range(t, a, p);
    if is_open(t, i, end, Delim::Brace) {
        let te = tree_end_exec(t, i, end);
        match read_group_body(t, i, te, counter) {
            Ok(body) => Ok((Arm { attrs, pat, guard, arrow, brace_span: Some(span_at(t, i)), body }, te)),
            Err(d) => Err(d),
        }
    } else {
        match read_content(t, i, end, counter) {
            Ok((c, e)) => {
                let mut body: Vec<Content> = Vec::new();
                body.push(c);
                Ok((Arm { attrs, pat, guard, arrow, brace_span: None, body }, e))
            },
            Err(d) => Err(d),
        }
    }
}

/// An item at `pos`: `@` (when it has no attributes of its own), `ref` and
/// identifiers joined by dots or a path with optional arguments and a
/// name, braces with its content, then `?` or `!` choosing how its object
/// is made.
#[verifier::rlimit(100)]
pub fn read_item(t: &Vec<Tok>, pos: usize, end: usize, attrs: Option<Vec<Tok>>, counter: &mut usize) -> (r: Result<
    (Item, usize),
    Diag,
>)
    requires
        pos <= end <= t@.len(),
    ensures
        same_count(r, item_res(sv(t@), pos as int, end as int, attrs is None, *old(counter)), *final(counter)),
        r is Ok ==> pos < r->Ok_0.1 <= end,
        r matches Ok((it, e)) ==> item_reads(sv(t@), pos as int, end as int, attrs is None, it, e as int),
        r matches Ok((it, _)) ==> it.attrs == attrs,
    decreases end - pos, 1nat,
{
    let ghost at = attrs is None;
    let mut i = pos;
    let at_span = match attrs {
        None => {
            if !is_punct(t, i, end, '@') {
                return Err(diag_here(t, i, Fault::ExpectedAt));
            }
            i = i + 1;
            span_at(t, pos)
        },
        Some(_) => CALL_SITE,
    };
    let mut object = if word_at(t, i, end, "ref") {
        match read_access(t, i + 1, end) {
            Ok((a, e)) => {
                i = e;
                Object::Ref(a)
            },
            Err(d) => {
                return Err(d);
            },
        }
    } else {
        let (path, e) = match read_path(t, i, end) {
            Ok(x) => x,
            Err(d) => {
                return Err(d);
            },
        };
        i = e;
        let group = if is_open(t, i, end, Delim::Paren) {
            let te = tree_end_exec(t, i, end);
            let g = copy_range(t, i, te);
            i = te;
            Some(g)
        } else {
            None
        };
        let (field, e) = match read_field(t, i, end, Display::Path(&path), counter) {
            Ok(x) => x,
            Err(d) => {
                return Err(d);
            },
        };
        i = e;
        Object::Path(Box::new(PathObject { path, group, field }))
    };
    if !is_open(t, i, end, Delim::Brace) {
        return Err(diag_here(t, i, Fault::ExpectedBraces));
    }
    let brace_span = span_at(t, i);
    let ghost bpos = i as int;
    let te = tree_end_exec(t, i, end);
    let (is_path, has_group) = match &mut object {
        Object::Path(p) => {
            if p.field.auto {
                p.field.name.span = brace_span;
            }
            (true, p.group.is_some())
        },
        Object::Ref(_) => (false, false),
    };
    let body = match read_group_body(t, i, te, counter) {
        Ok(b) => b,
        Err(d) => {
            return Err(d);
        },
    };
    i = te;
    let (mode, taken) = item_mode(is_path, has_group, punct_at(t, i, end), brace_span);
    if taken && i < end {
        i = i + 1;
    }
    let it = Item { attrs, at_span, object, mode, body };
    proof {
        let v = sv(t@);
        let ps = choose|ps: Seq<int>|
            #[trigger] body_reads(v, bpos + 1, group_close(v, bpos, te as int), group_close(v, bpos, te as int), it.body@, ps);
        assert(body_reads(v, bpos + 1, group_close(v, bpos, te as int), group_close(v, bpos, te as int), it.body@, ps));
        assert(opens(v, bpos, end as int, Delim::Brace));
    }
    Ok((it, i))
}

/// The object a method returns, at `pos` if `'back` stands there: a name as
/// for an item, braces with its content, and `!` when it is not built.
fn read_back(t: &Vec<Tok>, pos: usize, end: usize, counter: &mut usize) -> (r: Result<
    (Option<Box<Back>>, usize),
    Diag,
>)
    requires
        pos <= end <= t@.len(),
    ensures
        same_count(r, back_res(sv(t@), pos as int, end as int, *old(counter)), *final(counter)),
        r is Ok ==> pos <= r->Ok_0.1 <= end,
        !back_at(sv(t@), pos as int, end as int) ==> r == Ok::<(Option<Box<Back>>, usize), Diag>((None, pos)),
        r matches Ok((Some(b), e)) ==> back_reads(sv(t@), pos as int, end as int, *b, e as int),
    decreases end - pos, 1nat,
{
    if !(is_punct(t, pos, end, '\'') && word_at(t, pos + 1, end, "back")) {
        return Ok((None, pos));
    }
    let token_span = span_at(t, pos);
    let (mut field, mut i) = match read_field(t, pos + 2, end, Display::Back, counter) {
        Ok(x) => x,
        Err(d) => {
            return Err(d);
        },
    };
    if !is_open(t, i, end, Delim::Brace) {
        return Err(diag_here(t, i, Fault::ExpectedBraces));
    }
    let brace_span = span_at(t, i);
    let te = tree_end_exec(t, i, end);
    if field.auto {
        field.name.span = brace_span;
    }
    let body = match read_group_body(t, i, te, counter) {
        Ok(b) => b,
        Err(d) => {
            return Err(d);
        },
    };
    i = te;
    let build = if is_punct(t, i, end, '!') {
        i = i + 1;
        None
    } else {
        Some(brace_span)
    };
    Ok((Some(Box::new(Back { token_span, field, body, build })), i))
}

/// An expression at `pos`, as one run of tokens.
fn read_expr(t: &Vec<Tok>, pos: usize, end: usize) -> (r: Result<(Expr, usize), Diag>)
    requires
        pos <= end <= t@.len(),
    ensures
        r is Ok ==> pos < r->Ok_0.1 <= end,
        match fragment_end(Frag::Expr, sv(t@), pos as int, end as int) {
            Some(e) => r matches Ok((x, e2)) && e2 == e && x@ == seq![
                PieceV::Toks(sv(t@).subrange(pos as int, e)),
            ],
            None => r == Err::<(Expr, usize), Diag>(
                Diag {
                    fault: Fault::ExpectedExpr,
                    start: span_of(sv(t@), pos as int),
                    end: span_of(sv(t@), pos as int),
                },
            ),
        },
{
    match fragment(t, Frag::Expr, pos, end, Fault::ExpectedExpr) {
        Ok(e) => {
            let mut pieces: Vec<Piece> = Vec::new();
            pieces.push(Piece::Toks(copy_range(t, pos, e)));
            let x = Expr { pieces };
            assert(x@ =~= seq![PieceV::Toks(sv(t@).subrange(pos as int, e as int))]);
            Ok((x, e))
        },
        Err(d) => Err(d),
    }
}

/// A property at `pos`: a path (a long one may be followed by `&` or
/// `&mut`), how it is set, its arguments, its items after `@`, and a
/// `'back` object.
#[verifier::rlimit(100)]
#[verifier::spinoff_prover]
pub fn read_property(t: &Vec<Tok>, pos: usize, end: usize, attrs: Vec<Tok>, counter: &mut usize) -> (r: Result<
    (Property, usize),
    Diag,
>)
    requires
        pos <= end <= t@.len(),
    ensures
        same_count(r, prop_res(sv(t@), pos as int, end as int, *old(counter)), *final(counter)),
        r is Ok ==> pos < r->Ok_0.1 <= end,
        r matches Ok((p, _)) ==> property_reads(sv(t@), pos as int, end as int, sv(attrs@), p),
        r is Ok ==> exists|ps: Seq<int>| #[trigger] items_reads(sv(t@), end as int, r->Ok_0.0.items@, ps),
        (r is Ok && r->Ok_0.0.back is Some) ==> exists|q: int, x: int|
            #[trigger] back_reads(sv(t@), q, end as int, *r->Ok_0.0.back->Some_0, x),
    decreases end - pos, 2nat,
{
    let ghost av = sv(attrs@);
    let (path, by_ref, mut_, s, j) = match read_prop_head(t, pos, end) {
        Ok(x) => x,
        Err(d) => {
            return Err(d);
        },
    };
    let mut i = j;
    let (set, e) = match read_setting(t, i, end, s.args, s.back, counter) {
        Ok(x) => x,
        Err(d) => {
            return Err(d);
        },
    };
    let ghost ips = choose|ps: Seq<int>| #[trigger] items_reads(sv(t@), end as int, set.items@, ps);
    let ghost bqx = choose|q: int, x: int| #[trigger] back_reads(sv(t@), q, end as int, *set.back->Some_0, x);
    let ghost sv0 = set;
    let Setting { args, commas, items, back } = set;
    i = e;
    let p = Property { attrs, path, by_ref, mut_, mode: s.mode, mode_span: s.span, args, commas, items, back };
    let r = Ok((p, i));
    proof {
        assert(r->Ok_0.0.items@ == sv0.items@);
        assert(items_reads(sv(t@), end as int, r->Ok_0.0.items@, ips));
        if r->Ok_0.0.back is Some {
            assert(r->Ok_0.0.back == sv0.back);
            assert(back_reads(sv(t@), bqx.0, end as int, *r->Ok_0.0.back->Some_0, bqx.1));
        }
    }
    r
}

/// The head of a property at `pos`: its path, `&` and `&mut` after a long
/// path, and how it is set; and where what follows starts.
pub open spec fn head_reads(v: Seq<TokV>, pos: int, end: int, path: Path, by_ref: Option<u64>, mut_: Option<u64>, st: Setter, j: int) -> bool {
    path_res(v, pos, end) matches Ok(i0) && ({
        let amp = path_long(v, pos, end) && punct_is(v, i0, end, '&');
        let m = amp && word_is(v, i0 + 1, end, "mut"@);
        let i1 = if m {
            i0 + 2
        } else if amp {
            i0 + 1
        } else {
            i0
        };
        &&& i0 == path_end(v, pos, end, path)
        &&& spec_is_long(path) == path_long(v, pos, end)
        &&& path matches Path::Type(tp) ==> type_path_toks(tp) == v.subrange(pos, i0)
        &&& path matches Path::Field { access, .. } ==> (access_at(v, pos, end) matches Ok((a, _)) && access@ == a)
        &&& by_ref == (if amp {
            Some(tok_span(v[i0]))
        } else {
            None
        })
        &&& mut_ == (if m {
            Some(tok_span(v[i0 + 1]))
        } else {
            None
        })
        &&& st == spec_setter(punct_of(v, i1, end), punct_of(v, i1 + 1, end))
        &&& j == i1 + st.taken
        &&& pos < j <= end
    })
}

/// Reads the head of a property at `pos` (see [`head_reads`]).
fn read_prop_head(t: &Vec<Tok>, pos: usize, end: usize) -> (r: Result<(Path, Option<u64>, Option<u64>, Setter, usize), Diag>)
    requires
        pos <= end <= t@.len(),
    ensures
        match path_res(sv(t@), pos as int, end as int) {
            Ok(_) => r is Ok,
            Err(d) => r is Err && r->Err_0 == d,
        },
        r matches Ok((path, by_ref, mut_, st, j)) ==> head_reads(sv(t@), pos as int, end as int, path, by_ref, mut_, st, j as int),
{
    let (path, mut i) = match read_path(t, pos, end) {
        Ok(x) => x,
        Err(d) => {
            return Err(d);
        },
    };
    let mut by_ref: Option<u64> = None;
    let mut mut_: Option<u64> = None;
    if path.is_long() && is_punct(t, i, end, '&') {
        by_ref = Some(span_at(t, i));
        i = i + 1;
        if word_at(t, i, end, "mut") {
            mut_ = Some(span_at(t, i));
            i = i + 1;
        }
    }
    let next = if i < end {
        punct_at(t, i + 1, end)
    } else {
        None
    };
    assert(next == punct_of(sv(t@), i + 1, end as int));
    let s = setter(punct_at(t, i, end), next);
    if s.taken >= 1 && i < end {
        i = i + 1;
    }
    if s.taken >= 2 && i < end {
        i = i + 1;
    }
    Ok((path, by_ref, mut_, s, i))
}

/// What a property holds after how it is set.
struct Setting {
    args: Vec<Expr>,
    commas: Vec<u64>,
    items: Vec<Item>,
    back: Option<Box<Back>>,
}

/// What follows how a property is set, at `i`: its arguments (when
/// `with_args`), its items and then a `;`, and its `'back` (when
/// `with_back`).
#[verifier::rlimit(100)]
#[verifier::spinoff_prover]
fn read_setting(t: &Vec<Tok>, i: usize, end: usize, with_args: bool, with_back: bool, counter: &mut usize) -> (r: Result<
    (Setting, usize),
    Diag,
>)
    requires
        i <= end <= t@.len(),
    ensures
        same_count(r, setting_res(sv(t@), i as int, end as int, with_args, with_back, *old(counter)), *final(counter)),
        r is Ok ==> i <= r->Ok_0.1 <= end,
        r is Ok ==> args_read(sv(t@), i as int, end as int, with_args, with_back, r->Ok_0.0.args@, r->Ok_0.0.commas@.len()),
        r is Ok && !with_args ==> r->Ok_0.0.items@.len() == 0,
        r is Ok && !with_back ==> r->Ok_0.0.back is None,
        r is Ok ==> exists|ps: Seq<int>| #[trigger] items_reads(sv(t@), end as int, r->Ok_0.0.items@, ps),
        (r is Ok && r->Ok_0.0.back is Some) ==> exists|q: int, x: int|
            #[trigger] back_reads(sv(t@), q, end as int, *r->Ok_0.0.back->Some_0, x),
    decreases end - i, 2nat,
{
    let ghost v = sv(t@);
    let mut j = i;
    let mut args: Vec<Expr> = Vec::new();
    let mut commas: Vec<u64> = Vec::new();
    let mut items: Vec<Item> = Vec::new();
    let mut back: Option<Box<Back>> = None;
    let ghost mut ips: Seq<int> = seq![0int];
    let ghost mut bq: int = 0;
    let ghost mut bx: int = 0;
    if with_args {
        match read_arguments(t, j, end, with_back) {
            Ok((xs, cs, e)) => {
                args = xs;
                commas = cs;
                j = e;
            },
            Err(d) => {
                return Err(d);
            },
        }
        let ghost i3 = j as int;
        match read_items(t, j, end, counter) {
            Ok((x, e)) => {
                proof {
                    ips = choose|ps: Seq<int>| #[trigger] items_reads(v, end as int, x@, ps);
                }
                items = x;
                j = e;
            },
            Err(d) => {
                return Err(d);
            },
        }
        if items.len() == 0 && is_punct(t, j, end, ';') {
            j = j + 1;
        }
        if with_back {
            match read_back(t, j, end, counter) {
                Ok((b, e)) => {
                    proof {
                        bq = j as int;
                        bx = e as int;
                    }
                    back = b;
                    j = e;
                },
                Err(d) => {
                    return Err(d);
                },
            }
        }
    } else if with_back {
        match read_back(t, j, end, counter) {
            Ok((b, e)) => {
                proof {
                    bq = j as int;
                    bx = e as int;
                }
                back = b;
                j = e;
            },
            Err(d) => {
                return Err(d);
            },
        }
    }
    let r = Ok((Setting { args, commas, items, back }, j));
    proof {
        assert(items_reads(v, end as int, r->Ok_0.0.items@, ips));
        if r->Ok_0.0.back is Some {
            assert(back_reads(v, bq, end as int, *r->Ok_0.0.back->Some_0, bx));
        }
    }
    r
}

/// The arguments of a property at `i`: one expression, or (as a `list`)
/// expressions joined by commas, with the span of each comma.
fn read_arguments(t: &Vec<Tok>, i: usize, end: usize, list: bool) -> (r: Result<(Vec<Expr>, Vec<u64>, usize), Diag>)
    requires
        i <= end <= t@.len(),
    ensures
        match arguments_res(sv(t@), i as int, end as int, list) {
            Ok(e) => r is Ok && r->Ok_0.2 == e,
            Err(d) => r is Err && r->Err_0 == d,
        },
        r is Ok ==> i < r->Ok_0.2 <= end,
        r is Ok ==> args_read(sv(t@), i as int, end as int, true, list, r->Ok_0.0@, r->Ok_0.1@.len()),
{
    let mut args: Vec<Expr> = Vec::new();
    let mut commas: Vec<u64> = Vec::new();
    let (a, e) = match read_expr(t, i, end) {
        Ok(x) => x,
        Err(d) => {
            return Err(d);
        },
    };
    args.push(a);
    let mut j = e;
    if list {
        match read_args(t, j, end, &mut args, &mut commas) {
            Ok(e) => {
                j = e;
            },
            Err(d) => {
                return Err(d);
            },
        }
    }
    proof {
        if !list {
            assert(args@.len() == 1 && commas@.len() == 0);
        }
    }
    Ok((args, commas, j))
}

/// The arguments after the first one, at `i`: each after a comma, in
/// order, appended to `args`, with the span of each comma.
fn read_args(t: &Vec<Tok>, i: usize, end: usize, args: &mut Vec<Expr>, commas: &mut Vec<u64>) -> (r: Result<
    usize,
    Diag,
>)
    requires
        i <= end <= t@.len(),
    ensures
        match args_res(sv(t@), i as int, end as int) {
            Ok(e) => r is Ok && r->Ok_0 == e,
            Err(d) => r is Err && r->Err_0 == d,
        },
        r is Ok ==> i <= r->Ok_0 <= end,
        r is Ok ==> {
            let list = arg_list(sv(t@), i as int, end as int);
            &&& final(args)@.len() == old(args)@.len() + list.len()
            &&& forall|k: int| 0 <= k < old(args)@.len() ==> #[trigger] final(args)@[k] == old(args)@[k]
            &&& forall|k: int|
                0 <= k < list.len() ==> #[trigger] final(args)@[old(args)@.len() + k]@ == seq![
                    PieceV::Toks(sv(t@).subrange(list[k].0, list[k].1)),
                ]
            &&& final(commas)@.len() == old(commas)@.len() + list.len()
        },
{
    let ghost v = sv(t@);
    let ghost a0 = args@;
    let ghost c0 = commas@;
    let ghost mut done: Seq<(int, int)> = Seq::empty();
    let mut j = i;
    while is_punct(t, j, end, ',')
        invariant
            i <= j <= end <= t@.len(),
            v == sv(t@),
            args_res(v, i as int, end as int) == args_res(v, j as int, end as int),
            arg_list(v, i as int, end as int) == done + arg_list(v, j as int, end as int),
            args@.len() == a0.len() + done.len(),
            commas@.len() == c0.len() + done.len(),
            forall|k: int| 0 <= k < a0.len() ==> #[trigger] args@[k] == a0[k],
            forall|k: int|
                0 <= k < done.len() ==> #[trigger] args@[a0.len() + k]@ == seq![
                    PieceV::Toks(v.subrange(done[k].0, done[k].1)),
                ],
        decreases end - j,
    {
        commas.push(span_at(t, j));
        match read_expr(t, j + 1, end) {
            Ok((a, e)) => {
                let ghost before = args@;
                let ghost d0 = done;
                args.push(a);
                proof {
                    done = d0.push((j + 1, e as int));
                    assert(arg_list(v, j as int, end as int) =~= seq![(j + 1, e as int)] + arg_list(
                        v,
                        e as int,
                        end as int,
                    ));
                    assert(d0 + arg_list(v, j as int, end as int) =~= done + arg_list(v, e as int, end as int));
                    assert forall|k: int| 0 <= k < a0.len() implies #[trigger] args@[k] == a0[k] by {
                        assert(args@[k] == before[k]);
                    }
                    assert forall|k: int| 0 <= k < done.len() implies #[trigger] args@[a0.len() + k]@ == seq![
                        PieceV::Toks(v.subrange(done[k].0, done[k].1)),
                    ] by {
                        if k < d0.len() {
                            assert(args@[a0.len() + k] == before[a0.len() + k]);
                        }
                    }
                }
                j = e;
            },
            Err(d) => {
                return Err(d);
            },
        }
    }
    proof {
        assert(done + arg_list(v, j as int, end as int) =~= done);
    }
    Ok(j)
}

/// The items at `i`, each after `@`.
#[verifier::spinoff_prover]
fn read_items(t: &Vec<Tok>, i: usize, end: usize, counter: &mut usize) -> (r: Result<(Vec<Item>, usize), Diag>)
    requires
        i <= end <= t@.len(),
    ensures
        same_count(r, items_res(sv(t@), i as int, end as int, *old(counter)), *final(counter)),
        r is Ok ==> i <= r->Ok_0.1 <= end,
        r is Ok ==> (r->Ok_0.0@.len() == 0 <==> !punct_is(sv(t@), i as int, end as int, '@')),
        r is Ok && r->Ok_0.0@.len() == 0 ==> r->Ok_0.1 == i,
        r is Ok ==> exists|ps: Seq<int>| #[trigger] items_reads(sv(t@), end as int, r->Ok_0.0@, ps),
    decreases end - i, 2nat,
{
    let mut items: Vec<Item> = Vec::new();
    let ghost mut ips: Seq<int> = seq![0int];
    let mut j = i;
    while is_punct(t, j, end, '@')
        invariant
            i <= j <= end <= t@.len(),
            items_res(sv(t@), i as int, end as int, *old(counter)) == items_res(sv(t@), j as int, end as int, *counter),
            items@.len() == 0 ==> j == i,
            items@.len() > 0 ==> punct_is(sv(t@), i as int, end as int, '@') && i < j,
            items_reads(sv(t@), end as int, items@, ips),
            items@.len() > 0 ==> ips[items@.len() as int] == j,
        decreases end - j,
    {
        match read_item(t, j, end, None, counter) {
            Ok((it, e)) => {
                proof {
                    let ips0 = if items@.len() == 0 {
                        seq![j as int]
                    } else {
                        ips
                    };
                    assert(items_reads(sv(t@), end as int, items@, ips0));
                    lemma_item_push(sv(t@), end as int, items@, ips0, it, e as int);
                    ips = ips0.push(e as int);
                }
                items.push(it);
                j = e;
            },
            Err(d) => {
                return Err(d);
            },
        }
    }
    let r = Ok((items, j));
    proof {
        assert(items_reads(sv(t@), end as int, r->Ok_0.0@, ips));
    }
    r
}

/// The fields `t[a..b]` of a struct: attributes, a visibility, a name, `:`,
/// a type and a comma for each.
fn read_fields(t: &Vec<Tok>, a: usize, b: usize) -> (r: Result<Vec<FieldDef>, Diag>)
    requires
        a <= b <= t@.len(),
    ensures
        match fields_res(sv(t@), a as int, b as int) {
            Ok(_) => r is Ok,
            Err(d) => r is Err && r->Err_0 == d,
        },
{
    let mut fields: Vec<FieldDef> = Vec::new();
    let mut i = a;
    while i < b
        invariant
            a <= i <= b <= t@.len(),
            fields_res(sv(t@), a as int, b as int) == fields_res(sv(t@), i as int, b as int),
        decreases b - i,
    {
        let s = match read_attrs(t, i, b) {
            Ok(s) => s,
            Err(d) => {
                return Err(d);
            },
        };
        let mut j = s;
        let vis = if word_at(t, j, b, "pub") {
            match fragment(t, Frag::Vis, j, b, Fault::ExpectedIdent) {
                Ok(e) => {
                    let v = copy_range(t, j, e);
                    j = e;
                    v
                },
                Err(d) => {
                    return Err(d);
                },
            }
        } else {
            Vec::new()
        };
        let name = match name_at(t, j, b) {
            Some(n) => n,
            None => {
                return Err(diag_here(t, j, Fault::ExpectedIdent));
            },
        };
        j = j + 1;
        if !is_punct(t, j, b, ':') {
            return Err(diag_here(t, j, Fault::ExpectedColon));
        }
        let colon = span_at(t, j);
        let e = match fragment(t, Frag::Type, j + 1, b, Fault::ExpectedType) {
            Ok(e) => e,
            Err(d) => {
                return Err(d);
            },
        };
        let ty = copy_range(t, j + 1, e);
        let comma = if is_punct(t, e, b, ',') {
            Some(span_at(t, e))
        } else {
            None
        };
        fields.push(FieldDef { attrs: copy_range(t, i, s), vis, name, colon, ty, comma });
        i = if comma.is_some() {
            e + 1
        } else {
            e
        };
    }
    Ok(fields)
}

/// A struct root starting at `start`, its attributes ending at `a`: its
/// head up to the braces of its named fields, then the fields.
fn read_struct(t: &Vec<Tok>, start: usize, a: usize, end: usize) -> (r: Result<(StructDef, usize), Diag>)
    requires
        start <= a <= end <= t@.len(),
    ensures
        same(r, struct_res(sv(t@), start as int, a as int, end as int)),
        r is Ok ==> a < r->Ok_0.1 <= end,
        ({
            let v = sv(t@);
            let j = struct_brace(v, a as int, end as int);
            let te = crate::fragment::tree_end(v, j, end as int);
            &&& !opens(v, j, end as int, Delim::Brace) ==> r == Err::<(StructDef, usize), Diag>(
                spanned_diag(Fault::StructNeedsBraces, v.subrange(start as int, if j < end { j + 1 } else { end as int })),
            )
            &&& opens(v, j, end as int, Delim::Brace) && !accepts(Frag::Struct, text_of(v, start as int, te)) ==> r
                == Err::<(StructDef, usize), Diag>(spanned_diag(Fault::ExpectedStruct, v.subrange(start as int, te)))
            &&& r matches Ok((sd, e)) ==> {
                &&& opens(v, j, end as int, Delim::Brace)
                &&& accepts(Frag::Struct, text_of(v, start as int, te))
                &&& sv(sd.head@) == v.subrange(start as int, j)
                &&& sd.brace_span == tok_span(v[j])
                &&& e == te
            }
        }),
{
    let mut j = a;
    while j < end && !is_open(t, j, end, Delim::Brace) && !is_punct(t, j, end, ';')
        invariant
            a <= j <= end <= t@.len(),
            struct_brace(sv(t@), a as int, end as int) == struct_brace(sv(t@), j as int, end as int),
        decreases end - j,
    {
        j = tree_end_exec(t, j, end);
    }
    if !is_open(t, j, end, Delim::Brace) {
        let stop = if j < end {
            j + 1
        } else {
            end
        };
        return Err(diag_over(Fault::StructNeedsBraces, &copy_range(t, start, stop)));
    }
    let te = tree_end_exec(t, j, end);
    let s = text_exec(t, start, te);
    if !crate::fragment::accepts_exec(Frag::Struct, &s) {
        return Err(diag_over(Fault::ExpectedStruct, &copy_range(t, start, te)));
    }
    let close = body_end(t, j, te);
    let fields = match read_fields(t, j + 1, close) {
        Ok(f) => f,
        Err(d) => {
            return Err(d);
        },
    };
    Ok((StructDef { head: copy_range(t, start, j), brace_span: span_at(t, j), fields }, te))
}

/// The roots of a view: structs (after `pub` or `struct`) and items, each
/// after its attributes, until the tokens end.
pub fn read_roots(t: &Vec<Tok>, counter: &mut usize) -> (r: Result<Roots, Diag>)
    ensures
        match roots_res(sv(t@), 0, t@.len() as int, *old(counter)) {
            Ok(k) => r is Ok && *final(counter) == k,
            Err(d) => r is Err && r->Err_0 == d,
        },
        r matches Ok(rs) ==> (rs.roots@.len() == 0 <==> t@.len() == 0),
        r is Ok ==> exists|ps: Seq<int>|
            #[trigger] roots_read(sv(t@), t@.len() as int, r->Ok_0.roots@, ps) && ps[r->Ok_0.roots@.len() as int]
                == t@.len(),
{
    let n = t.len();
    let ghost v = sv(t@);
    let ghost mut ps: Seq<int> = seq![0int];
    let mut roots: Vec<Root> = Vec::new();
    let mut i: usize = 0;
    while i < n
        invariant
            i <= n == t@.len(),
            v == sv(t@),
            roots@.len() == 0 <==> i == 0,
            roots_res(v, 0, n as int, *old(counter)) == roots_res(v, i as int, n as int, *counter),
            roots_read(v, n as int, roots@, ps),
            ps[roots@.len() as int] == i,
        decreases n - i,
    {
        let a = match read_attrs(t, i, n) {
            Ok(a) => a,
            Err(d) => {
                return Err(d);
            },
        };
        let ghost before = roots@;
        let ghost ps0 = ps;
        if word_at(t, a, n, "pub") || word_at(t, a, n, "struct") {
            match read_struct(t, i, a, n) {
                Ok((s, e)) => {
                    roots.push(Root::Struct(s));
                    proof {
                        ps = ps0.push(e as int);
                    }
                    i = e;
                },
                Err(d) => {
                    return Err(d);
                },
            }
        } else {
            let attrs = copy_range(t, i, a);
            match read_item(t, a, n, Some(attrs), counter) {
                Ok((it, e)) => {
                    roots.push(Root::Item(it));
                    proof {
                        ps = ps0.push(e as int);
                    }
                    i = e;
                },
                Err(d) => {
                    return Err(d);
                },
            }
        }
        proof {
            assert forall|j: int| #![trigger roots@[j]] 0 <= j < roots@.len() implies {
                let aa = attrs_end(v, ps[j], n as int);
                &&& ps[j] < ps[j + 1]
                &&& (roots@[j] is Struct <==> word_is(v, aa, n as int, "pub"@) || word_is(v, aa, n as int, "struct"@))
                &&& roots@[j] matches Root::Item(it) ==> {
                    &&& item_reads(v, aa, n as int, false, it, ps[j + 1])
                    &&& it.attrs matches Some(at) && sv(at@) == v.subrange(ps[j], aa)
                }
                &&& roots@[j] matches Root::Struct(sd) ==> {
                    let bb = struct_brace(v, aa, n as int);
                    &&& opens(v, bb, n as int, Delim::Brace)
                    &&& sv(sd.head@) == v.subrange(ps[j], bb)
                    &&& sd.brace_span == tok_span(v[bb])
                    &&& ps[j + 1] == crate::fragment::tree_end(v, bb, n as int)
                }
            } by {
                if j < before.len() {
                    assert(roots@[j] == before[j]);
                    assert(ps[j] == ps0[j] && ps[j + 1] == ps0[j + 1]);
                } else {
                    assert(ps[j] == ps0[before.len() as int]);
                }
            }
        }
    }
    let r = Ok(Roots { roots });
    proof {
        assert(roots_read(v, n as int, r->Ok_0.roots@, ps));
    }
    r
}

} // verus!
