//! A plain-value model of a token stream.
//!
//! A stream is a flat vector of tokens in which every delimited group is
//! written as an `Open` token, its content and a `Close` token; both carry the
//! span of the whole group. Spans are opaque numbers handed out by the caller
//! that converts real tokens into this model (`0` is the call site).
use vstd::prelude::*;

use crate::diag::Fault;

verus! {

/// The span that stands for the call site of the macro.
pub const CALL_SITE: u64 = 0;

/// Delimiter of a token group.
#[derive(Clone, Copy, Debug, PartialEq, Eq, Structural)]
pub enum Delim {
    Paren,
    Brace,
    Bracket,
    Invisible,
}

/// One token of a stream.
#[derive(Debug)]
pub enum Tok {
    /// An identifier (keywords included).
    Ident { text: String, span: u64 },
    /// One punctuation character; `joint` when it is glued to the next one.
    Punct { ch: char, joint: bool, span: u64 },
    /// A literal, kept as its source text.
    Lit { text: String, span: u64 },
    /// The start of a delimited group, with the group's span.
    Open { delim: Delim, span: u64 },
    /// The end of a delimited group, with the group's span.
    Close { delim: Delim, span: u64 },
    /// A compile error to report at the given span range.
    Fail { fault: Fault, start: u64, end: u64 },
}

/// The mathematical value of a token: its text as a sequence of characters.
pub enum TokV {
    Ident { text: Seq<char>, span: u64 },
    Punct { ch: char, joint: bool, span: u64 },
    Lit { text: Seq<char>, span: u64 },
    Open { delim: Delim, span: u64 },
    Close { delim: Delim, span: u64 },
    Fail { fault: Fault, start: u64, end: u64 },
}

impl View for Tok {
    type V = TokV;

    open spec fn view(&self) -> TokV {
        match self {
            Tok::Ident { text, span } => TokV::Ident { text: text@, span: *span },
            Tok::Punct { ch, joint, span } => TokV::Punct { ch: *ch, joint: *joint, span: *span },
            Tok::Lit { text, span } => TokV::Lit { text: text@, span: *span },
            Tok::Open { delim, span } => TokV::Open { delim: *delim, span: *span },
            Tok::Close { delim, span } => TokV::Close { delim: *delim, span: *span },
            Tok::Fail { fault, start, end } => TokV::Fail { fault: *fault, start: *start, end: *end },
        }
    }
}

/// The value of a token vector.
pub open spec fn sv(v: Seq<Tok>) -> Seq<TokV> {
    Seq::new(v.len(), |i: int| v[i]@)
}

/// The span at which a group's content starts: the span of the first token,
/// or the call site for an empty stream.
pub open spec fn first_span(s: Seq<TokV>) -> u64 {
    if s.len() == 0 {
        CALL_SITE
    } else {
        tok_span(s[0])
    }
}

/// The span at which a stream ends: that of its last token, or the first
/// span when it has a single token.
pub open spec fn last_span(s: Seq<TokV>) -> u64 {
    if s.len() == 0 {
        CALL_SITE
    } else {
        tok_span(s[s.len() - 1])
    }
}

/// The span of one token.
pub open spec fn tok_span(t: TokV) -> u64 {
    match t {
        TokV::Ident { span, .. } => span,
        TokV::Punct { span, .. } => span,
        TokV::Lit { span, .. } => span,
        TokV::Open { span, .. } => span,
        TokV::Close { span, .. } => span,
        TokV::Fail { start, .. } => start,
    }
}

/// An identifier token.
pub open spec fn id(text: Seq<char>, span: u64) -> TokV {
    TokV::Ident { text, span }
}

/// A punctuation token that stands alone.
pub open spec fn pn(ch: char, span: u64) -> TokV {
    TokV::Punct { ch, joint: false, span }
}

/// A punctuation token glued to the next one.
pub open spec fn pj(ch: char, span: u64) -> TokV {
    TokV::Punct { ch, joint: true, span }
}

/// A group around `inner`.
pub open spec fn group(delim: Delim, span: u64, inner: Seq<TokV>) -> Seq<TokV> {
    seq![TokV::Open { delim, span }] + inner + seq![TokV::Close { delim, span }]
}

impl Tok {
    /// A copy of this token.
    pub fn dup(&self) -> (r: Tok)
        ensures
            r@ == self@,
    {
        match self {
            Tok::Ident { text, span } => Tok::Ident { text: text.clone(), span: *span },
            Tok::Punct { ch, joint, span } => Tok::Punct { ch: *ch, joint: *joint, span: *span },
            Tok::Lit { text, span } => Tok::Lit { text: text.clone(), span: *span },
            Tok::Open { delim, span } => Tok::Open { delim: *delim, span: *span },
            Tok::Close { delim, span } => Tok::Close { delim: *delim, span: *span },
            Tok::Fail { fault, start, end } => Tok::Fail { fault: *fault, start: *start, end: *end },
        }
    }

    /// The span of this token.
    pub fn span(&self) -> (r: u64)
        ensures
            r == tok_span(self@),
    {
        match self {
            Tok::Ident { span, .. } => *span,
            Tok::Punct { span, .. } => *span,
            Tok::Lit { span, .. } => *span,
            Tok::Open { span, .. } => *span,
            Tok::Close { span, .. } => *span,
            Tok::Fail { start, .. } => *start,
        }
    }
}

/// Appends a copy of `src` to `dst`.
pub fn extend(dst: &mut Vec<Tok>, src: &Vec<Tok>)
    ensures
        sv(final(dst)@) == sv(old(dst)@) + sv(src@),
{
    let ghost start = sv(dst@);
    let mut i: usize = 0;
    while i < src.len()
        invariant
            i <= src.len(),
            sv(dst@) == start + sv(src@).take(i as int),
        decreases src.len() - i,
    {
        let ghost prev = dst@;
        let t = src[i].dup();
        dst.push(t);
        assert(sv(dst@) =~= sv(prev).push(src@[i as int]@));
        i = i + 1;
        assert(sv(src@).take(i as int) =~= sv(src@).take(i - 1).push(src@[i - 1]@));
    }
    assert(sv(src@).take(i as int) =~= sv(src@));
}

/// A copy of a token vector.
pub fn copy(src: &Vec<Tok>) -> (r: Vec<Tok>)
    ensures
        sv(r@) == sv(src@),
{
    let mut r: Vec<Tok> = Vec::new();
    assert(sv(r@) =~= Seq::<TokV>::empty());
    extend(&mut r, src);
    r
}

/// Appends a token to a stream.
pub fn push(dst: &mut Vec<Tok>, t: Tok)
    ensures
        sv(final(dst)@) == sv(old(dst)@).push(t@),
{
    dst.push(t);
    assert(sv(dst@) =~= sv(old(dst)@).push(t@));
}

/// An identifier token made from a literal name.
pub fn ident(text: &str, span: u64) -> (r: Tok)
    ensures
        r@ == id(text@, span),
{
    Tok::Ident { text: String::from_str(text), span }
}

/// Appends a punctuation token standing alone.
pub fn punct(dst: &mut Vec<Tok>, ch: char, span: u64)
    ensures
        sv(final(dst)@) == sv(old(dst)@).push(pn(ch, span)),
{
    push(dst, Tok::Punct { ch, joint: false, span });
}

/// Appends a punctuation token glued to the next one.
pub fn punct_joint(dst: &mut Vec<Tok>, ch: char, span: u64)
    ensures
        sv(final(dst)@) == sv(old(dst)@).push(pj(ch, span)),
{
    push(dst, Tok::Punct { ch, joint: true, span });
}

/// Appends the opening token of a group.
pub fn open(dst: &mut Vec<Tok>, delim: Delim, span: u64)
    ensures
        sv(final(dst)@) == sv(old(dst)@).push(TokV::Open { delim, span }),
{
    push(dst, Tok::Open { delim, span });
}

/// Appends the closing token of a group.
pub fn close(dst: &mut Vec<Tok>, delim: Delim, span: u64)
    ensures
        sv(final(dst)@) == sv(old(dst)@).push(TokV::Close { delim, span }),
{
    push(dst, Tok::Close { delim, span });
}

/// Appends `inner` wrapped in a group.
pub fn extend_group(dst: &mut Vec<Tok>, delim: Delim, span: u64, inner: &Vec<Tok>)
    ensures
        sv(final(dst)@) == sv(old(dst)@) + group(delim, span, sv(inner@)),
{
    open(dst, delim, span);
    extend(dst, inner);
    close(dst, delim, span);
    assert(sv(dst@) =~= sv(old(dst)@) + group(delim, span, sv(inner@)));
}

/// The span range that an error about the tokens `s` covers.
pub fn span_range(s: &Vec<Tok>) -> (r: (u64, u64))
    ensures
        r == (first_span(sv(s@)), last_span(sv(s@))),
{
    if s.len() == 0 {
        (CALL_SITE, CALL_SITE)
    } else {
        (s[0].span(), s[s.len() - 1].span())
    }
}

} // verus!
