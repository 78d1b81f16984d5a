//! Peeling: the first iterations of a loop run as straight-line copies of
//! its body before the loop itself.

use crate::loop_xform::labeller::{label_breaks_spec, label_unlabelled_breaks};
use crate::loop_xform::shapes::{
    break_with, break_with_toks, chunk, extend_repeat, grp, if_cond, if_cond_toks, if_next,
    if_next_toks, iter_var, kw, lemma_repeat_chunks, let_iter, lifetime_of, lifetime_toks, pc,
    push_let_iter, repeat_seq,
};
use crate::loop_xform::{ForLoop, Loop, LoopPeelParams, LoopV, LoopXFormConf, PlainLoop, WhileLoop};
use crate::tokens::{
    extend_toks, push_group, push_ident, push_punct, toks_clone, toks_view, Delimiter, Spans, Tok,
    TokV,
};
use vstd::prelude::*;

verus! {

/// `lifetime : while true { inner } rest`: a loop that runs once, which the
/// peeled code leaves with `break lifetime`.
pub open spec fn run_once(
    lifetime: Seq<TokV>,
    inner: Seq<TokV>,
    rest: Seq<TokV>,
    sp: Spans,
) -> Seq<TokV> {
    lifetime + seq![
        pc(':', sp),
        kw("while"@, sp),
        kw("true"@, sp),
        grp(Delimiter::Brace, inner, sp),
    ] + rest
}

/// The loop `l` with its first `params.peel_count` iterations peeled off,
/// followed by `rest`. The body's unlabelled `break`s get the loop's
/// lifetime (`'loop_label` where it has no label), which then labels the
/// loop that runs the peeled iterations and the loop once.
pub open spec fn peel_spec(params: LoopPeelParams, l: LoopV, rest: Seq<TokV>, sp: Spans) -> Seq<
    TokV,
> {
    let n = params.peel_count as nat;
    let lt = lifetime_of(l.label(), sp);
    let body = label_breaks_spec(l.body(), lt);
    let leave = break_with(lt, sp);
    match l {
        LoopV::For { pat, expr, .. } => {
            let prelude = if_next(pat, body, leave, sp);
            let inner = let_iter(expr, sp) + repeat_seq(prelude, n) + seq![kw("for"@, sp)] + pat
                + seq![kw("in"@, sp), iter_var(sp), grp(Delimiter::Brace, body, sp)] + leave;
            run_once(lt, inner, rest, sp)
        },
        LoopV::While { cond, .. } => {
            let prelude = if_cond(cond, body, leave, sp);
            let inner = repeat_seq(prelude, n) + seq![kw("while"@, sp)] + cond + seq![
                grp(Delimiter::Brace, body, sp),
            ] + leave;
            run_once(lt, inner, rest, sp)
        },
        LoopV::Plain { .. } => {
            let prelude = seq![grp(Delimiter::Brace, body, sp)];
            let inner = repeat_seq(prelude, n) + seq![
                kw("loop"@, sp),
                grp(Delimiter::Brace, body, sp),
            ] + leave;
            run_once(lt, inner, rest, sp)
        },
    }
}

/// `lifetime : while true { inner } rest`.
fn run_once_toks(lifetime: &Vec<Tok>, inner: Vec<Tok>, rest: &Vec<Tok>, sp: Spans) -> (r: Vec<Tok>)
    ensures
        toks_view(r@) == run_once(toks_view(lifetime@), toks_view(inner@), toks_view(rest@), sp),
{
    let mut out = toks_clone(lifetime);
    push_punct(&mut out, ':', sp.call);
    push_ident(&mut out, "while", sp.call);
    push_ident(&mut out, "true", sp.call);
    push_group(&mut out, Delimiter::Brace, inner, sp.call);
    extend_toks(&mut out, rest);
    assert(toks_view(out@) =~= run_once(
        toks_view(lifetime@),
        toks_view(inner@),
        toks_view(rest@),
        sp,
    ));
    out
}

#[allow(non_snake_case)]
fn transform_ExprForLoop(params: LoopPeelParams, l: &ForLoop, rest: &Vec<Tok>, sp: Spans) -> (r: Vec<
    Tok,
>)
    ensures
        toks_view(r@) == peel_spec(params, Loop::ExprForLoop(*l)@, toks_view(rest@), sp),
{
    let lt = lifetime_toks(&l.label, sp);
    let body = label_unlabelled_breaks(&l.body, &lt);
    let leave = break_with_toks(&lt, sp);
    let prelude = if_next_toks(&l.pat, &body, leave, sp);
    let mut inner: Vec<Tok> = Vec::new();
    push_let_iter(&mut inner, &l.expr, sp);
    extend_repeat(&mut inner, &prelude, params.peel_count);
    push_ident(&mut inner, "for", sp.call);
    extend_toks(&mut inner, &l.pat);
    push_ident(&mut inner, "in", sp.call);
    push_ident(&mut inner, "r#iter", sp.mixed);
    push_group(&mut inner, Delimiter::Brace, body, sp.call);
    let leave = break_with_toks(&lt, sp);
    extend_toks(&mut inner, &leave);
    let ghost l_v = Loop::ExprForLoop(*l)@;
    let ghost body_v = label_breaks_spec(l_v.body(), toks_view(lt@));
    assert(toks_view(inner@) =~= let_iter(toks_view(l.expr@), sp) + repeat_seq(
        if_next(toks_view(l.pat@), body_v, break_with(toks_view(lt@), sp), sp),
        params.peel_count as nat,
    ) + seq![kw("for"@, sp)] + toks_view(l.pat@) + seq![
        kw("in"@, sp),
        iter_var(sp),
        grp(Delimiter::Brace, body_v, sp),
    ] + break_with(toks_view(lt@), sp));
    run_once_toks(&lt, inner, rest, sp)
}

#[allow(non_snake_case)]
fn transform_ExprWhile(params: LoopPeelParams, l: &WhileLoop, rest: &Vec<Tok>, sp: Spans) -> (r: Vec<
    Tok,
>)
    ensures
        toks_view(r@) == peel_spec(params, Loop::ExprWhile(*l)@, toks_view(rest@), sp),
{
    let lt = lifetime_toks(&l.label, sp);
    let body = label_unlabelled_breaks(&l.body, &lt);
    let leave = break_with_toks(&lt, sp);
    let prelude = if_cond_toks(&l.cond, &body, leave, sp);
    let mut inner: Vec<Tok> = Vec::new();
    extend_repeat(&mut inner, &prelude, params.peel_count);
    push_ident(&mut inner, "while", sp.call);
    extend_toks(&mut inner, &l.cond);
    push_group(&mut inner, Delimiter::Brace, body, sp.call);
    let leave = break_with_toks(&lt, sp);
    extend_toks(&mut inner, &leave);
    let ghost l_v = Loop::ExprWhile(*l)@;
    let ghost body_v = label_breaks_spec(l_v.body(), toks_view(lt@));
    assert(toks_view(inner@) =~= repeat_seq(
        if_cond(toks_view(l.cond@), body_v, break_with(toks_view(lt@), sp), sp),
        params.peel_count as nat,
    ) + seq![kw("while"@, sp)] + toks_view(l.cond@) + seq![grp(Delimiter::Brace, body_v, sp)]
        + break_with(toks_view(lt@), sp));
    run_once_toks(&lt, inner, rest, sp)
}

#[allow(non_snake_case)]
fn transform_ExprLoop(params: LoopPeelParams, l: &PlainLoop, rest: &Vec<Tok>, sp: Spans) -> (r: Vec<
    Tok,
>)
    ensures
        toks_view(r@) == peel_spec(params, Loop::ExprLoop(*l)@, toks_view(rest@), sp),
{
    let lt = lifetime_toks(&l.label, sp);
    let body = label_unlabelled_breaks(&l.body, &lt);
    let mut prelude: Vec<Tok> = Vec::new();
    push_group(&mut prelude, Delimiter::Brace, toks_clone(&body), sp.call);
    let mut inner: Vec<Tok> = Vec::new();
    extend_repeat(&mut inner, &prelude, params.peel_count);
    push_ident(&mut inner, "loop", sp.call);
    push_group(&mut inner, Delimiter::Brace, body, sp.call);
    let leave = break_with_toks(&lt, sp);
    extend_toks(&mut inner, &leave);
    let ghost l_v = Loop::ExprLoop(*l)@;
    let ghost body_v = label_breaks_spec(l_v.body(), toks_view(lt@));
    assert(toks_view(prelude@) =~= seq![grp(Delimiter::Brace, body_v, sp)]);
    assert(toks_view(inner@) =~= repeat_seq(
        seq![grp(Delimiter::Brace, body_v, sp)],
        params.peel_count as nat,
    ) + seq![kw("loop"@, sp), grp(Delimiter::Brace, body_v, sp)] + break_with(
        toks_view(lt@),
        sp,
    ));
    run_once_toks(&lt, inner, rest, sp)
}

/// The configured loop with its first iterations peeled off, followed by
/// the rest of the tokens.
pub fn transform(ast: LoopXFormConf<LoopPeelParams>, sp: Spans) -> (r: Vec<Tok>)
    ensures
        toks_view(r@) == peel_spec(ast.params, ast.the_loop@, ast.rest(), sp),
{
    let LoopXFormConf { params, the_loop, rest_of_tokenstream } = ast;
    match the_loop {
        Loop::ExprForLoop(expr_for_loop) => transform_ExprForLoop(
            params,
            &expr_for_loop,
            &rest_of_tokenstream,
            sp,
        ),
        Loop::ExprWhile(expr_while) => transform_ExprWhile(
            params,
            &expr_while,
            &rest_of_tokenstream,
            sp,
        ),
        Loop::ExprLoop(expr_loop) => transform_ExprLoop(
            params,
            &expr_loop,
            &rest_of_tokenstream,
            sp,
        ),
    }
}

/// Peeling keeps the loop's label: when the loop is labelled `'name :`, the
/// peeled code is `'name : while true { .. break 'name ; }` followed by the
/// tokens after the loop, so a `break 'name` written in the body still
/// leaves it; a loop without a label gets `'loop_label` instead.
pub proof fn law_peel_keeps_the_label(
    params: LoopPeelParams,
    l: LoopV,
    rest: Seq<TokV>,
    sp: Spans,
)
    requires
        l.label().len() == 3 || l.label().len() == 0,
    ensures
        ({
            let out = peel_spec(params, l, rest, sp);
            let lt = if l.label().len() == 3 {
                l.label().take(2)
            } else {
                seq![
                    TokV::Punct { ch: '\'', joint: true, span: sp.mixed },
                    TokV::Ident { text: "loop_label"@, span: sp.mixed },
                ]
            };
            &&& out.len() == 6 + rest.len()
            &&& out.take(2) == lt
            &&& out[2] == pc(':', sp)
            &&& out[3] == kw("while"@, sp)
            &&& out[4] == kw("true"@, sp)
            &&& out[5] matches TokV::Group { delim, stream, .. } && delim == Delimiter::Brace
                && stream.len() >= 4 && stream.skip(stream.len() - 4) == seq![
                kw("break"@, sp),
                lt[0],
                lt[1],
                pc(';', sp),
            ]
            &&& out.skip(6) == rest
        }),
{
    let out = peel_spec(params, l, rest, sp);
    let lt = lifetime_of(l.label(), sp);
    let body = label_breaks_spec(l.body(), lt);
    let leave = break_with(lt, sp);
    let inner = match l {
        LoopV::For { pat, expr, .. } => {
            let prelude = if_next(pat, body, leave, sp);
            let_iter(expr, sp) + repeat_seq(prelude, params.peel_count as nat) + seq![
                kw("for"@, sp),
            ] + pat + seq![kw("in"@, sp), iter_var(sp), grp(Delimiter::Brace, body, sp)] + leave
        },
        LoopV::While { cond, .. } => {
            let prelude = if_cond(cond, body, leave, sp);
            repeat_seq(prelude, params.peel_count as nat) + seq![kw("while"@, sp)] + cond + seq![
                grp(Delimiter::Brace, body, sp),
            ] + leave
        },
        LoopV::Plain { .. } => {
            let prelude = seq![grp(Delimiter::Brace, body, sp)];
            repeat_seq(prelude, params.peel_count as nat) + seq![
                kw("loop"@, sp),
                grp(Delimiter::Brace, body, sp),
            ] + leave
        },
    };
    assert(out == run_once(lt, inner, rest, sp));
    assert(lt.len() == 2);
    assert(out.take(2) =~= lt);
    assert(out.skip(6) =~= rest);
    assert(out[5] == grp(Delimiter::Brace, inner, sp));
    assert(inner.skip(inner.len() - 4) =~= leave);
    if l.label().len() == 0 {
        assert(lt =~= seq![
            TokV::Punct { ch: '\'', joint: true, span: sp.mixed },
            TokV::Ident { text: "loop_label"@, span: sp.mixed },
        ]);
    }
}

/// Peeling runs `peel_count` guarded copies of the body first, then the
/// loop itself, then leaves: inside `'name : while true { .. }` stand
/// exactly `peel_count` copies of `if cond { body } else { break 'name; }`
/// (for a `for` loop, after `let mut r#iter = expr;`, copies of `if let
/// Some(pat) = r#iter.next() { body } else { break 'name; }`; for a plain
/// `loop`, blocks `{ body }`), then the loop over the same body, then
/// `break 'name;`. The body is the loop's, its unlabelled `break`s labelled
/// with `'name` (`'loop_label` for a loop without a label).
pub proof fn law_peel_runs_copies_then_the_loop(
    params: LoopPeelParams,
    l: LoopV,
    rest: Seq<TokV>,
    sp: Spans,
)
    ensures
        ({
            let out = peel_spec(params, l, rest, sp);
            let n = params.peel_count as nat;
            let lt = lifetime_of(l.label(), sp);
            let body = label_breaks_spec(l.body(), lt);
            let leave = seq![kw("break"@, sp)] + lt + seq![pc(';', sp)];
            out[lt.len() + 3int] matches TokV::Group { stream: inner, .. } && match l {
                LoopV::While { cond, .. } => {
                    let guarded = seq![kw("if"@, sp)] + cond + seq![
                        grp(Delimiter::Brace, body, sp),
                        kw("else"@, sp),
                        grp(Delimiter::Brace, leave, sp),
                    ];
                    let m = n * guarded.len();
                    &&& inner.len() == m + cond.len() + 2 + leave.len()
                    &&& forall|k: nat|
                        k < n ==> #[trigger] chunk(inner, guarded.len(), k) == guarded
                    &&& inner.skip(m as int) == seq![kw("while"@, sp)] + cond + seq![
                        grp(Delimiter::Brace, body, sp),
                    ] + leave
                },
                LoopV::For { pat, expr, .. } => {
                    let start = seq![kw("let"@, sp), kw("mut"@, sp), iter_var(sp), pc('=', sp)]
                        + expr + seq![pc(';', sp)];
                    let guarded = seq![
                        kw("if"@, sp),
                        kw("let"@, sp),
                        kw("Some"@, sp),
                        grp(Delimiter::Parenthesis, pat, sp),
                        pc('=', sp),
                        iter_var(sp),
                        pc('.', sp),
                        kw("next"@, sp),
                        grp(Delimiter::Parenthesis, Seq::empty(), sp),
                        grp(Delimiter::Brace, body, sp),
                        kw("else"@, sp),
                        grp(Delimiter::Brace, leave, sp),
                    ];
                    let m = start.len() + n * 12;
                    &&& inner.take(start.len() as int) == start
                    &&& forall|k: nat|
                        k < n ==> #[trigger] chunk(inner.skip(start.len() as int), 12, k)
                            == guarded
                    &&& inner.skip(m as int) == seq![kw("for"@, sp)] + pat + seq![
                        kw("in"@, sp),
                        iter_var(sp),
                        grp(Delimiter::Brace, body, sp),
                    ] + leave
                },
                LoopV::Plain { .. } => {
                    &&& forall|k: int|
                        0 <= k < n ==> #[trigger] inner[k] == grp(Delimiter::Brace, body, sp)
                    &&& inner.skip(n as int) == seq![
                        kw("loop"@, sp),
                        grp(Delimiter::Brace, body, sp),
                    ] + leave
                },
            }
        }),
{
    let out = peel_spec(params, l, rest, sp);
    let n = params.peel_count as nat;
    let lt = lifetime_of(l.label(), sp);
    let body = label_breaks_spec(l.body(), lt);
    let leave = break_with(lt, sp);
    assert(lt.len() == 2);
    match l {
        LoopV::For { pat, expr, .. } => {
            let prelude = if_next(pat, body, leave, sp);
            lemma_repeat_chunks(prelude, n);
            let start = let_iter(expr, sp);
            let tail = seq![kw("for"@, sp)] + pat + seq![
                kw("in"@, sp),
                iter_var(sp),
                grp(Delimiter::Brace, body, sp),
            ] + leave;
            let inner = let_iter(expr, sp) + repeat_seq(prelude, n) + seq![kw("for"@, sp)] + pat
                + seq![kw("in"@, sp), iter_var(sp), grp(Delimiter::Brace, body, sp)] + leave;
            assert(out == run_once(lt, inner, rest, sp));
            assert(inner =~= start + repeat_seq(prelude, n) + tail);
            assert(out[lt.len() + 3int] == grp(Delimiter::Brace, inner, sp));
            assert(inner.take(start.len() as int) =~= start);
            assert(inner.skip(start.len() as int) =~= repeat_seq(prelude, n) + tail);
            assert forall|k: nat| k < n implies #[trigger] chunk(
                inner.skip(start.len() as int),
                12,
                k,
            ) == prelude by {
                assert(chunk(repeat_seq(prelude, n), 12, k) == prelude);
                assert(chunk(inner.skip(start.len() as int), 12, k) =~= chunk(
                    repeat_seq(prelude, n),
                    12,
                    k,
                )) by {
                    assert((k + 1) * 12 <= n * 12) by (nonlinear_arith)
                        requires
                            k < n,
                    ;
                }
            }
            assert(inner.skip((start.len() + n * 12) as int) =~= tail);
        },
        LoopV::While { cond, .. } => {
            let prelude = if_cond(cond, body, leave, sp);
            lemma_repeat_chunks(prelude, n);
            let tail = seq![kw("while"@, sp)] + cond + seq![grp(Delimiter::Brace, body, sp)]
                + leave;
            let inner = repeat_seq(prelude, n) + seq![kw("while"@, sp)] + cond + seq![
                grp(Delimiter::Brace, body, sp),
            ] + leave;
            assert(out == run_once(lt, inner, rest, sp));
            assert(inner =~= repeat_seq(prelude, n) + tail);
            assert(out[lt.len() + 3int] == grp(Delimiter::Brace, inner, sp));
            let m = n * prelude.len();
            assert forall|k: nat| k < n implies #[trigger] chunk(inner, prelude.len(), k)
                == prelude by {
                assert(chunk(repeat_seq(prelude, n), prelude.len(), k) == prelude);
                assert((k + 1) * prelude.len() <= n * prelude.len()) by (nonlinear_arith)
                    requires
                        k < n,
                ;
                let a = k * prelude.len();
                let b = (k + 1) * prelude.len();
                assert(b == a + prelude.len()) by (nonlinear_arith)
                    requires
                        a == k * prelude.len(),
                        b == (k + 1) * prelude.len(),
                ;
                assert(b <= repeat_seq(prelude, n).len());
                assert(chunk(inner, prelude.len(), k) == inner.subrange(a as int, b as int));
                assert(chunk(repeat_seq(prelude, n), prelude.len(), k) == repeat_seq(prelude, n).subrange(
                    a as int,
                    b as int,
                ));
                assert(inner.subrange(a as int, b as int) =~= repeat_seq(prelude, n).subrange(
                    a as int,
                    b as int,
                ));
            }
            assert(inner.skip(m as int) =~= tail);
        },
        LoopV::Plain { .. } => {
            let prelude = seq![grp(Delimiter::Brace, body, sp)];
            lemma_repeat_chunks(prelude, n);
            let tail = seq![kw("loop"@, sp), grp(Delimiter::Brace, body, sp)] + leave;
            let copies = repeat_seq(prelude, n);
            let inner = copies + seq![kw("loop"@, sp), grp(Delimiter::Brace, body, sp)] + leave;
            assert(out == run_once(lt, inner, rest, sp));
            assert(inner =~= copies + tail);
            assert(out[lt.len() + 3int] == grp(Delimiter::Brace, inner, sp));
            assert(copies.len() == n) by {
                assert(n * 1 == n);
            }
            assert forall|k: int| 0 <= k < n implies #[trigger] inner[k] == grp(
                Delimiter::Brace,
                body,
                sp,
            ) by {
                assert(chunk(copies, prelude.len(), k as nat) == prelude);
                assert(k * 1 == k && (k + 1) * 1 == k + 1);
                assert(chunk(copies, prelude.len(), k as nat)[0] == copies[k]);
            }
            assert(inner.skip(n as int) =~= tail);
        },
    }
}

} // verus!
