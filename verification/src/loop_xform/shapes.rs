//! Pieces of code that the transformations assemble.

use crate::tokens::{
    extend_toks, ident_v, lemma_toks_view, lemma_toks_view_add, push_group, push_ident,
    push_joint_punct, push_punct, toks_view, Delimiter, Spans, Tok, TokV, group_v, punct_v,
};
use vstd::prelude::*;

verus! {

/// `s` written `n` times in a row.
pub open spec fn repeat_seq(s: Seq<TokV>, n: nat) -> Seq<TokV>
    decreases n,
{
    if n == 0 {
        Seq::empty()
    } else {
        repeat_seq(s, (n - 1) as nat) + s
    }
}

/// Part `k` of `s` cut into parts of `len` tokens each.
pub open spec fn chunk(s: Seq<TokV>, len: nat, k: nat) -> Seq<TokV> {
    s.subrange((k * len) as int, ((k + 1) * len) as int)
}

/// `s` written `n` times is `n` parts of `s.len()` tokens, each of them `s`.
pub proof fn lemma_repeat_chunks(s: Seq<TokV>, n: nat)
    ensures
        repeat_seq(s, n).len() == n * s.len(),
        forall|k: nat| k < n ==> #[trigger] chunk(repeat_seq(s, n), s.len(), k) == s,
    decreases n,
{
    if n > 0 {
        let m = (n - 1) as nat;
        lemma_repeat_chunks(s, m);
        let r = repeat_seq(s, n);
        let q = repeat_seq(s, m);
        assert(r == q + s);
        assert(n * s.len() == m * s.len() + s.len()) by (nonlinear_arith)
            requires
                n == m + 1,
        ;
        assert forall|k: nat| k < n implies #[trigger] chunk(r, s.len(), k) == s by {
            let a = k * s.len();
            let b = (k + 1) * s.len();
            assert(b == a + s.len()) by (nonlinear_arith)
                requires
                    a == k * s.len(),
                    b == (k + 1) * s.len(),
            ;
            if k < m {
                assert(b <= m * s.len()) by (nonlinear_arith)
                    requires
                        k < m,
                        b == (k + 1) * s.len(),
                ;
                assert(chunk(q, s.len(), k) == s);
                assert(chunk(r, s.len(), k) =~= chunk(q, s.len(), k));
            } else {
                assert(a == m * s.len());
                assert(chunk(r, s.len(), k) =~= s) by {
                    assert(chunk(r, s.len(), k) == r.subrange(a as int, b as int));
                }
            }
        }
    }
}

/// An identifier that `quote!` writes, with the call-site span.
pub open spec fn kw(text: Seq<char>, sp: Spans) -> TokV {
    ident_v(text, sp.call)
}

/// A punctuation character that `quote!` writes, standing alone.
pub open spec fn pc(ch: char, sp: Spans) -> TokV {
    punct_v(ch, sp.call)
}

/// A group that `quote!` writes.
pub open spec fn grp(delim: Delimiter, stream: Seq<TokV>, sp: Spans) -> TokV {
    group_v(delim, stream, sp.call)
}

/// The lifetime `'name` with the mixed-site span.
pub open spec fn mixed_lifetime(name: Seq<char>, sp: Spans) -> Seq<TokV> {
    seq![TokV::Punct { ch: '\'', joint: true, span: sp.mixed }, ident_v(name, sp.mixed)]
}

/// The lifetime of a loop with the label tokens `label` (`'name :`): the
/// label's own lifetime, or `'loop_label` where it has none.
pub open spec fn lifetime_of(label: Seq<TokV>, sp: Spans) -> Seq<TokV> {
    if label.len() >= 2 {
        label.take(2)
    } else {
        mixed_lifetime("loop_label"@, sp)
    }
}

/// The iterator variable `r#iter`.
pub open spec fn iter_var(sp: Spans) -> TokV {
    ident_v("r#iter"@, sp.mixed)
}

/// `break lifetime ;`.
pub open spec fn break_with(lifetime: Seq<TokV>, sp: Spans) -> Seq<TokV> {
    seq![kw("break"@, sp)] + lifetime + seq![pc(';', sp)]
}

/// `if let Some ( pat ) = r#iter . next ( ) { body } else { otherwise }`.
pub open spec fn if_next(
    pat: Seq<TokV>,
    body: Seq<TokV>,
    otherwise: Seq<TokV>,
    sp: Spans,
) -> Seq<TokV> {
    seq![
        kw("if"@, sp),
        kw("let"@, sp),
        kw("Some"@, sp),
        grp(Delimiter::Parenthesis, pat, sp),
        pc('=', sp),
        iter_var(sp),
        pc('.', sp),
        kw("next"@, sp),
        grp(Delimiter::Parenthesis, Seq::empty(), sp),
        grp(Delimiter::Brace, body, sp),
        kw("else"@, sp),
        grp(Delimiter::Brace, otherwise, sp),
    ]
}

/// `if cond { body } else { otherwise }`.
pub open spec fn if_cond(
    cond: Seq<TokV>,
    body: Seq<TokV>,
    otherwise: Seq<TokV>,
    sp: Spans,
) -> Seq<TokV> {
    seq![kw("if"@, sp)] + cond + seq![
        grp(Delimiter::Brace, body, sp),
        kw("else"@, sp),
        grp(Delimiter::Brace, otherwise, sp),
    ]
}

/// `let mut r#iter = expr ;`.
pub open spec fn let_iter(expr: Seq<TokV>, sp: Spans) -> Seq<TokV> {
    seq![kw("let"@, sp), kw("mut"@, sp), iter_var(sp), pc('=', sp)] + expr + seq![pc(';', sp)]
}

/// Appends `n` copies of `src`.
pub fn extend_repeat(out: &mut Vec<Tok>, src: &Vec<Tok>, n: usize)
    ensures
        toks_view(final(out)@) == toks_view(old(out)@) + repeat_seq(toks_view(src@), n as nat),
{
    let mut i: usize = 0;
    assert(toks_view(old(out)@) + repeat_seq(toks_view(src@), 0) =~= toks_view(old(out)@));
    while i < n
        invariant
            i <= n,
            toks_view(out@) == toks_view(old(out)@) + repeat_seq(toks_view(src@), i as nat),
        decreases n - i,
    {
        extend_toks(out, src);
        assert(repeat_seq(toks_view(src@), (i + 1) as nat) == repeat_seq(toks_view(src@), i as nat)
            + toks_view(src@));
        assert(toks_view(out@) =~= toks_view(old(out)@) + repeat_seq(toks_view(src@), (i
            + 1) as nat));
        i = i + 1;
    }
}

/// Appends the lifetime `'name` with the mixed-site span.
pub fn push_mixed_lifetime(out: &mut Vec<Tok>, name: &str, sp: Spans)
    ensures
        toks_view(final(out)@) == toks_view(old(out)@) + mixed_lifetime(name@, sp),
{
    push_joint_punct(out, '\'', sp.mixed);
    push_ident(out, name, sp.mixed);
    assert(toks_view(out@) =~= toks_view(old(out)@) + mixed_lifetime(name@, sp));
}

/// The lifetime of a loop with the label tokens `label`.
pub fn lifetime_toks(label: &Vec<Tok>, sp: Spans) -> (r: Vec<Tok>)
    ensures
        toks_view(r@) == lifetime_of(toks_view(label@), sp),
{
    proof {
        lemma_toks_view(label@);
    }
    let mut out: Vec<Tok> = Vec::new();
    if label.len() >= 2 {
        crate::tokens::push_clone(&mut out, &label[0]);
        crate::tokens::push_clone(&mut out, &label[1]);
        assert(toks_view(out@) =~= toks_view(label@).take(2));
    } else {
        push_mixed_lifetime(&mut out, "loop_label", sp);
        assert(toks_view(out@) =~= mixed_lifetime("loop_label"@, sp));
    }
    out
}

/// `break lifetime ;`.
pub fn break_with_toks(lifetime: &Vec<Tok>, sp: Spans) -> (r: Vec<Tok>)
    ensures
        toks_view(r@) == break_with(toks_view(lifetime@), sp),
{
    let mut out: Vec<Tok> = Vec::new();
    push_ident(&mut out, "break", sp.call);
    extend_toks(&mut out, lifetime);
    push_punct(&mut out, ';', sp.call);
    assert(toks_view(out@) =~= break_with(toks_view(lifetime@), sp));
    out
}

/// `if let Some ( pat ) = r#iter . next ( ) { body } else { otherwise }`.
pub fn if_next_toks(pat: &Vec<Tok>, body: &Vec<Tok>, otherwise: Vec<Tok>, sp: Spans) -> (r: Vec<
    Tok,
>)
    ensures
        toks_view(r@) == if_next(toks_view(pat@), toks_view(body@), toks_view(otherwise@), sp),
{
    let mut out: Vec<Tok> = Vec::new();
    push_ident(&mut out, "if", sp.call);
    push_ident(&mut out, "let", sp.call);
    push_ident(&mut out, "Some", sp.call);
    push_group(&mut out, Delimiter::Parenthesis, crate::tokens::toks_clone(pat), sp.call);
    push_punct(&mut out, '=', sp.call);
    push_ident(&mut out, "r#iter", sp.mixed);
    push_punct(&mut out, '.', sp.call);
    push_ident(&mut out, "next", sp.call);
    let empty: Vec<Tok> = Vec::new();
    proof {
        lemma_toks_view(empty@);
    }
    push_group(&mut out, Delimiter::Parenthesis, empty, sp.call);
    push_group(&mut out, Delimiter::Brace, crate::tokens::toks_clone(body), sp.call);
    push_ident(&mut out, "else", sp.call);
    push_group(&mut out, Delimiter::Brace, otherwise, sp.call);
    assert(toks_view(out@) =~= if_next(
        toks_view(pat@),
        toks_view(body@),
        toks_view(otherwise@),
        sp,
    ));
    out
}

/// `if cond { body } else { otherwise }`.
pub fn if_cond_toks(cond: &Vec<Tok>, body: &Vec<Tok>, otherwise: Vec<Tok>, sp: Spans) -> (r: Vec<
    Tok,
>)
    ensures
        toks_view(r@) == if_cond(toks_view(cond@), toks_view(body@), toks_view(otherwise@), sp),
{
    let mut out: Vec<Tok> = Vec::new();
    push_ident(&mut out, "if", sp.call);
    extend_toks(&mut out, cond);
    push_group(&mut out, Delimiter::Brace, crate::tokens::toks_clone(body), sp.call);
    push_ident(&mut out, "else", sp.call);
    push_group(&mut out, Delimiter::Brace, otherwise, sp.call);
    assert(toks_view(out@) =~= if_cond(
        toks_view(cond@),
        toks_view(body@),
        toks_view(otherwise@),
        sp,
    ));
    out
}

/// Appends `let mut r#iter = expr ;`.
pub fn push_let_iter(out: &mut Vec<Tok>, expr: &Vec<Tok>, sp: Spans)
    ensures
        toks_view(final(out)@) == toks_view(old(out)@) + let_iter(toks_view(expr@), sp),
{
    push_ident(out, "let", sp.call);
    push_ident(out, "mut", sp.call);
    push_ident(out, "r#iter", sp.mixed);
    push_punct(out, '=', sp.call);
    extend_toks(out, expr);
    push_punct(out, ';', sp.call);
    assert(toks_view(out@) =~= toks_view(old(out)@) + let_iter(toks_view(expr@), sp));
}

} // verus!
