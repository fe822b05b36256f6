//! Where the Rust fragments inside a view end: an expression, a type, a
//! pattern, attributes, a visibility. Whether a text is such a fragment is
//! asked of `syn`; a fragment is the longest run of whole token trees, from
//! where it starts, that `syn` reads as one.
use vstd::prelude::*;

use syn::parse::Parser;

use crate::token::{Delim, Tok, TokV};

verus! {

/// Whether `syn` reads the whole text as an expression.
pub uninterp spec fn rust_expr(text: Seq<char>) -> bool;

/// Whether `syn` reads the whole text as an expression in which braces do
/// not start a struct literal.
pub uninterp spec fn rust_expr_no_brace(text: Seq<char>) -> bool;

/// Whether `syn` reads the whole text as a type.
pub uninterp spec fn rust_type(text: Seq<char>) -> bool;

/// Whether `syn` reads the whole text as a type path.
pub uninterp spec fn rust_type_path(text: Seq<char>) -> bool;

/// Whether `syn` reads the whole text as a pattern with alternatives.
pub uninterp spec fn rust_pat(text: Seq<char>) -> bool;

/// Whether `syn` reads the whole text as a visibility.
pub uninterp spec fn rust_vis(text: Seq<char>) -> bool;

/// Whether `syn` reads the whole text as outer attributes.
pub uninterp spec fn rust_attrs(text: Seq<char>) -> bool;

/// Whether `syn` reads the whole text as an identifier (not a keyword).
pub uninterp spec fn rust_ident(text: Seq<char>) -> bool;

/// Whether `syn` reads the whole text as turbofish generic arguments.
pub uninterp spec fn rust_turbofish(text: Seq<char>) -> bool;

/// Whether `syn` reads the whole text as a struct item.
pub uninterp spec fn rust_struct(text: Seq<char>) -> bool;

/// `syn::parse_str::<syn::Expr>` succeeds on the text.
#[verifier::external_body]
fn accepts_expr(text: &String) -> (r: bool)
    ensures
        r == rust_expr(text@),
{
    syn::parse_str::<syn::Expr>(text).is_ok()
}

/// `syn::Expr::parse_without_eager_brace` reads the whole text.
#[verifier::external_body]
fn accepts_expr_no_brace(text: &String) -> (r: bool)
    ensures
        r == rust_expr_no_brace(text@),
{
    syn::Expr::parse_without_eager_brace.parse_str(text).is_ok()
}

/// `syn::parse_str::<syn::Type>` succeeds on the text.
#[verifier::external_body]
fn accepts_type(text: &String) -> (r: bool)
    ensures
        r == rust_type(text@),
{
    syn::parse_str::<syn::Type>(text).is_ok()
}

/// `syn::parse_str::<syn::TypePath>` succeeds on the text.
#[verifier::external_body]
fn accepts_type_path(text: &String) -> (r: bool)
    ensures
        r == rust_type_path(text@),
{
    syn::parse_str::<syn::TypePath>(text).is_ok()
}

/// `syn::Pat::parse_multi_with_leading_vert` reads the whole text.
#[verifier::external_body]
fn accepts_pat(text: &String) -> (r: bool)
    ensures
        r == rust_pat(text@),
{
    syn::Pat::parse_multi_with_leading_vert.parse_str(text).is_ok()
}

/// `syn::parse_str::<syn::Visibility>` succeeds on the text.
#[verifier::external_body]
fn accepts_vis(text: &String) -> (r: bool)
    ensures
        r == rust_vis(text@),
{
    syn::parse_str::<syn::Visibility>(text).is_ok()
}

/// `syn::Attribute::parse_outer` reads the whole text.
#[verifier::external_body]
fn accepts_attrs(text: &String) -> (r: bool)
    ensures
        r == rust_attrs(text@),
{
    syn::Attribute::parse_outer.parse_str(text).is_ok()
}

/// `syn::parse_str::<syn::Ident>` succeeds on the text.
#[verifier::external_body]
fn accepts_ident(text: &String) -> (r: bool)
    ensures
        r == rust_ident(text@),
{
    syn::parse_str::<syn::Ident>(text).is_ok()
}

/// `syn::AngleBracketedGenericArguments::parse_turbofish` reads the whole text.
#[verifier::external_body]
fn accepts_turbofish(text: &String) -> (r: bool)
    ensures
        r == rust_turbofish(text@),
{
    syn::AngleBracketedGenericArguments::parse_turbofish.parse_str(text).is_ok()
}

/// `syn::parse_str::<syn::ItemStruct>` succeeds on the text.
#[verifier::external_body]
fn accepts_struct(text: &String) -> (r: bool)
    ensures
        r == rust_struct(text@),
{
    syn::parse_str::<syn::ItemStruct>(text).is_ok()
}

/// The kinds of fragments.
#[derive(Clone, Copy, Debug, PartialEq, Eq, Structural)]
pub enum Frag {
    Expr,
    ExprNoBrace,
    Type,
    TypePath,
    Pat,
    Vis,
    Attrs,
    Ident,
    Turbofish,
    Struct,
}

/// Whether a text is a fragment of the given kind.
pub open spec fn accepts(k: Frag, text: Seq<char>) -> bool {
    match k {
        Frag::Expr => rust_expr(text),
        Frag::ExprNoBrace => rust_expr_no_brace(text),
        Frag::Type => rust_type(text),
        Frag::TypePath => rust_type_path(text),
        Frag::Pat => rust_pat(text),
        Frag::Vis => rust_vis(text),
        Frag::Attrs => rust_attrs(text),
        Frag::Ident => rust_ident(text),
        Frag::Turbofish => rust_turbofish(text),
        Frag::Struct => rust_struct(text),
    }
}

/// Whether a text is a fragment of the given kind.
pub fn accepts_exec(k: Frag, text: &String) -> (r: bool)
    ensures
        r == accepts(k, text@),
{
    match k {
        Frag::Expr => accepts_expr(text),
        Frag::ExprNoBrace => accepts_expr_no_brace(text),
        Frag::Type => accepts_type(text),
        Frag::TypePath => accepts_type_path(text),
        Frag::Pat => accepts_pat(text),
        Frag::Vis => accepts_vis(text),
        Frag::Attrs => accepts_attrs(text),
        Frag::Ident => accepts_ident(text),
        Frag::Turbofish => accepts_turbofish(text),
        Frag::Struct => accepts_struct(text),
    }
}

/// The text an opening delimiter is written as.
pub open spec fn open_text(d: Delim) -> Seq<char> {
    match d {
        Delim::Paren => "( "@,
        Delim::Brace => "{ "@,
        Delim::Bracket => "[ "@,
        Delim::Invisible => Seq::empty(),
    }
}

/// The text a closing delimiter is written as.
pub open spec fn close_text(d: Delim) -> Seq<char> {
    match d {
        Delim::Paren => ") "@,
        Delim::Brace => "} "@,
        Delim::Bracket => "] "@,
        Delim::Invisible => Seq::empty(),
    }
}

/// The text a token is written as: a punctuation glued to the next one is
/// followed by nothing, every other token by a space.
pub open spec fn tok_text(t: TokV) -> Seq<char> {
    match t {
        TokV::Ident { text, .. } => text + " "@,
        TokV::Punct { ch, joint, .. } => if joint {
            seq![ch]
        } else {
            seq![ch, ' ']
        },
        TokV::Lit { text, .. } => text + " "@,
        TokV::Open { delim, .. } => open_text(delim),
        TokV::Close { delim, .. } => close_text(delim),
        TokV::Fail { .. } => Seq::empty(),
    }
}

/// The text of the tokens `t[a..b]`.
pub open spec fn text_of(t: Seq<TokV>, a: int, b: int) -> Seq<char>
    decreases b - a,
{
    if b <= a {
        Seq::empty()
    } else {
        text_of(t, a, b - 1) + tok_text(t[b - 1])
    }
}

/// The text of the tokens `t[a..b]`.
pub fn text_exec(t: &Vec<Tok>, a: usize, b: usize) -> (r: String)
    requires
        a <= b <= t@.len(),
    ensures
        r@ == text_of(crate::token::sv(t@), a as int, b as int),
{
    let ghost v = crate::token::sv(t@);
    let mut s = String::new();
    let mut i = a;
    assert(s@ =~= text_of(v, a as int, a as int));
    while i < b
        invariant
            a <= i <= b <= t@.len(),
            v == crate::token::sv(t@),
            s@ == text_of(v, a as int, i as int),
        decreases b - i,
    {
        let ghost before = s@;
        proof {
            reveal_strlit(" ");
            reveal_strlit("( ");
            reveal_strlit("{ ");
            reveal_strlit("[ ");
            reveal_strlit(") ");
            reveal_strlit("} ");
            reveal_strlit("] ");
        }
        match &t[i] {
            Tok::Ident { text, .. } => {
                s.append(text.as_str());
                s.append(" ");
            },
            Tok::Punct { ch, joint, .. } => {
                crate::naming::push_char(&mut s, *ch);
                if !*joint {
                    s.append(" ");
                }
            },
            Tok::Lit { text, .. } => {
                s.append(text.as_str());
                s.append(" ");
            },
            Tok::Open { delim, .. } => match delim {
                Delim::Paren => s.append("( "),
                Delim::Brace => s.append("{ "),
                Delim::Bracket => s.append("[ "),
                Delim::Invisible => {},
            },
            Tok::Close { delim, .. } => match delim {
                Delim::Paren => s.append(") "),
                Delim::Brace => s.append("} "),
                Delim::Bracket => s.append("] "),
                Delim::Invisible => {},
            },
            Tok::Fail { .. } => {},
        }
        assert(s@ =~= before + tok_text(v[i as int]));
        i = i + 1;
    }
    s
}

/// Where the group opened before `j` ends, `depth` groups being open:
/// just after the closing token that brings the depth back to zero, or
/// `end` when the group is not closed before it.
pub open spec fn scan_close(t: Seq<TokV>, j: int, end: int, depth: nat) -> int
    decreases end - j,
{
    if j >= end || j < 0 {
        end
    } else {
        match t[j] {
            TokV::Open { .. } => scan_close(t, j + 1, end, depth + 1),
            TokV::Close { .. } => if depth <= 1 {
                j + 1
            } else {
                scan_close(t, j + 1, end, (depth - 1) as nat)
            },
            _ => scan_close(t, j + 1, end, depth),
        }
    }
}

/// Where the token tree at `i` ends: after its group for an opening token,
/// else just after it.
pub open spec fn tree_end(t: Seq<TokV>, i: int, end: int) -> int {
    match t[i] {
        TokV::Open { .. } => scan_close(t, i + 1, end, 1),
        _ => i + 1,
    }
}

/// A scan ends after where it starts and no later than `end`.
pub proof fn lemma_scan_close(t: Seq<TokV>, j: int, end: int, depth: nat)
    requires
        0 <= j <= end,
    ensures
        j <= scan_close(t, j, end, depth) <= end,
        j < end ==> j < scan_close(t, j, end, depth),
    decreases end - j,
{
    if j < end {
        lemma_scan_close(t, j + 1, end, depth + 1);
        lemma_scan_close(t, j + 1, end, depth);
        if depth > 1 {
            lemma_scan_close(t, j + 1, end, (depth - 1) as nat);
        }
    }
}

/// A token tree ends after where it starts and no later than `end`.
pub proof fn lemma_tree_end(t: Seq<TokV>, i: int, end: int)
    requires
        0 <= i < end,
    ensures
        i < tree_end(t, i, end) <= end,
{
    lemma_scan_close(t, i + 1, end, 1);
}

/// Where the token tree at `i` ends (see [`tree_end`]).
pub fn tree_end_exec(t: &Vec<Tok>, i: usize, end: usize) -> (r: usize)
    requires
        i < end <= t@.len(),
    ensures
        r == tree_end(crate::token::sv(t@), i as int, end as int),
        i < r <= end,
{
    let ghost v = crate::token::sv(t@);
    proof {
        lemma_tree_end(v, i as int, end as int);
    }
    match &t[i] {
        Tok::Open { .. } => {},
        _ => {
            return i + 1;
        },
    }
    let mut j = i + 1;
    let mut depth: usize = 1;
    while j < end
        invariant
            i < j <= end <= t@.len(),
            v == crate::token::sv(t@),
            1 <= depth <= j - i,
            scan_close(v, j as int, end as int, depth as nat) == tree_end(v, i as int, end as int),
        decreases end - j,
    {
        match &t[j] {
            Tok::Open { .. } => {
                depth = depth + 1;
            },
            Tok::Close { .. } => {
                if depth <= 1 {
                    return j + 1;
                }
                depth = depth - 1;
            },
            _ => {},
        }
        j = j + 1;
    }
    end
}

/// The scan for the longest fragment starting at `start`: `i` is the next
/// tree boundary to try, `last` the longest fragment end found so far.
pub open spec fn frag_scan(k: Frag, t: Seq<TokV>, start: int, i: int, end: int, last: Option<int>) -> Option<
    int,
>
    decreases end - i,
{
    if i >= end || i < 0 || end > t.len() {
        last
    } else {
        let j = tree_end(t, i, end);
        proof {
            lemma_tree_end(t, i, end);
        }
        frag_scan(
            k,
            t,
            start,
            j,
            end,
            if accepts(k, text_of(t, start, j)) {
                Some(j)
            } else {
                last
            },
        )
    }
}

/// Where the fragment of kind `k` starting at `start` ends, before `end`:
/// the end of the longest run of whole token trees that is such a fragment,
/// if any.
pub open spec fn fragment_end(k: Frag, t: Seq<TokV>, start: int, end: int) -> Option<int> {
    frag_scan(k, t, start, start, end, None)
}

/// A fragment found ends after its start and no later than `end`.
proof fn lemma_frag_scan(k: Frag, t: Seq<TokV>, start: int, i: int, end: int, last: Option<int>)
    requires
        0 <= start <= i <= end <= t.len(),
        last matches Some(e) ==> start < e <= end,
    ensures
        frag_scan(k, t, start, i, end, last) matches Some(e) ==> start < e <= end,
    decreases end - i,
{
    if i < end {
        lemma_tree_end(t, i, end);
        let j = tree_end(t, i, end);
        lemma_frag_scan(k, t, start, j, end, if accepts(k, text_of(t, start, j)) {
            Some(j)
        } else {
            last
        });
    }
}

/// Where the fragment of kind `k` starting at `start` ends, before `end`
/// (see [`fragment_end`]).
pub fn fragment_end_exec(k: Frag, t: &Vec<Tok>, start: usize, end: usize) -> (r: Option<usize>)
    requires
        start <= end <= t@.len(),
    ensures
        match r {
            Some(e) => fragment_end(k, crate::token::sv(t@), start as int, end as int) == Some(e as int)
                && start < e <= end,
            None => fragment_end(k, crate::token::sv(t@), start as int, end as int) is None,
        },
{
    let ghost v = crate::token::sv(t@);
    let mut last: Option<usize> = None;
    let mut i = start;
    while i < end
        invariant
            start <= i <= end <= t@.len(),
            v == crate::token::sv(t@),
            last matches Some(e) ==> start < e <= i,
            fragment_end(k, v, start as int, end as int) == frag_scan(
                k,
                v,
                start as int,
                i as int,
                end as int,
                match last {
                    Some(e) => Some(e as int),
                    None => None,
                },
            ),
        decreases end - i,
    {
        let j = tree_end_exec(t, i, end);
        let text = text_exec(t, start, j);
        if accepts_exec(k, &text) {
            last = Some(j);
        }
        i = j;
    }
    proof {
        lemma_frag_scan(k, v, start as int, i as int, end as int, match last {
            Some(e) => Some(e as int),
            None => None,
        });
    }
    last
}

} // verus!
