//! Unrolling where every copy of the body checks whether the loop goes on.

use crate::loop_xform::shapes::{
    chunk, extend_repeat, grp, if_cond, if_cond_toks, if_next, if_next_toks, iter_var, kw,
    lemma_repeat_chunks, let_iter, pc, push_let_iter, repeat_seq,
};
use crate::loop_xform::{ForLoop, Loop, LoopUnrollParams, LoopV, LoopXFormConf, PlainLoop, WhileLoop};
use crate::tokens::{
    extend_toks, push_group, push_ident, push_punct, toks_clone, toks_view, Delimiter, Spans, Tok,
    TokV,
};
use vstd::prelude::*;

verus! {

/// `break ;`.
pub open spec fn plain_break(sp: Spans) -> Seq<TokV> {
    seq![kw("break"@, sp), pc(';', sp)]
}

/// The loop `l` unrolled `params.unroll_factor` times, each copy of the
/// body guarded by the loop's own test, followed by `rest`. The loop keeps
/// its label; a `for` loop becomes a `while true` loop over the iterator,
/// in a block of its own.
pub open spec fn unroll_runtime_spec(
    params: LoopUnrollParams,
    l: LoopV,
    rest: Seq<TokV>,
    sp: Spans,
) -> Seq<TokV> {
    let n = params.unroll_factor as nat;
    match l {
        LoopV::For { label, pat, expr, body } => {
            let copies = repeat_seq(if_next(pat, body, plain_break(sp), sp), n);
            seq![
                grp(
                    Delimiter::Brace,
                    let_iter(expr, sp) + label + seq![
                        kw("while"@, sp),
                        kw("true"@, sp),
                        grp(Delimiter::Brace, copies, sp),
                    ],
                    sp,
                ),
            ] + rest
        },
        LoopV::While { label, cond, body } => {
            let copies = repeat_seq(if_cond(cond, body, plain_break(sp), sp), n);
            label + seq![kw("while"@, sp), kw("true"@, sp), grp(Delimiter::Brace, copies, sp)]
                + rest
        },
        LoopV::Plain { label, body } => {
            let copies = repeat_seq(seq![grp(Delimiter::Brace, body, sp)], n);
            label + seq![kw("loop"@, sp), grp(Delimiter::Brace, copies, sp)] + rest
        },
    }
}

fn plain_break_toks(sp: Spans) -> (r: Vec<Tok>)
    ensures
        toks_view(r@) == plain_break(sp),
{
    let mut out: Vec<Tok> = Vec::new();
    push_ident(&mut out, "break", sp.call);
    push_punct(&mut out, ';', sp.call);
    assert(toks_view(out@) =~= plain_break(sp));
    out
}

#[allow(non_snake_case)]
fn transform_ExprForLoop(params: LoopUnrollParams, l: &ForLoop, rest: &Vec<Tok>, sp: Spans) -> (r: Vec<
    Tok,
>)
    ensures
        toks_view(r@) == unroll_runtime_spec(params, Loop::ExprForLoop(*l)@, toks_view(rest@), sp),
{
    let one = if_next_toks(&l.pat, &l.body, plain_break_toks(sp), sp);
    let mut copies: Vec<Tok> = Vec::new();
    extend_repeat(&mut copies, &one, params.unroll_factor);
    let mut block: Vec<Tok> = Vec::new();
    push_let_iter(&mut block, &l.expr, sp);
    extend_toks(&mut block, &l.label);
    push_ident(&mut block, "while", sp.call);
    push_ident(&mut block, "true", sp.call);
    let ghost copies_v = repeat_seq(
        if_next(toks_view(l.pat@), toks_view(l.body@), plain_break(sp), sp),
        params.unroll_factor as nat,
    );
    push_group(&mut block, Delimiter::Brace, copies, sp.call);
    assert(toks_view(block@) =~= let_iter(toks_view(l.expr@), sp) + toks_view(l.label@) + seq![
        kw("while"@, sp),
        kw("true"@, sp),
        grp(Delimiter::Brace, copies_v, sp),
    ]);
    let mut out: Vec<Tok> = Vec::new();
    push_group(&mut out, Delimiter::Brace, block, sp.call);
    extend_toks(&mut out, rest);
    assert(toks_view(out@) =~= unroll_runtime_spec(
        params,
        Loop::ExprForLoop(*l)@,
        toks_view(rest@),
        sp,
    ));
    out
}

#[allow(non_snake_case)]
fn transform_ExprWhile(params: LoopUnrollParams, l: &WhileLoop, rest: &Vec<Tok>, sp: Spans) -> (r: Vec<
    Tok,
>)
    ensures
        toks_view(r@) == unroll_runtime_spec(params, Loop::ExprWhile(*l)@, toks_view(rest@), sp),
{
    let one = if_cond_toks(&l.cond, &l.body, plain_break_toks(sp), sp);
    let mut copies: Vec<Tok> = Vec::new();
    extend_repeat(&mut copies, &one, params.unroll_factor);
    let mut out = toks_clone(&l.label);
    push_ident(&mut out, "while", sp.call);
    push_ident(&mut out, "true", sp.call);
    push_group(&mut out, Delimiter::Brace, copies, sp.call);
    extend_toks(&mut out, rest);
    assert(toks_view(out@) =~= unroll_runtime_spec(
        params,
        Loop::ExprWhile(*l)@,
        toks_view(rest@),
        sp,
    ));
    out
}

#[allow(non_snake_case)]
fn transform_ExprLoop(params: LoopUnrollParams, l: &PlainLoop, rest: &Vec<Tok>, sp: Spans) -> (r: Vec<
    Tok,
>)
    ensures
        toks_view(r@) == unroll_runtime_spec(params, Loop::ExprLoop(*l)@, toks_view(rest@), sp),
{
    let mut one: Vec<Tok> = Vec::new();
    push_group(&mut one, Delimiter::Brace, toks_clone(&l.body), sp.call);
    let mut copies: Vec<Tok> = Vec::new();
    extend_repeat(&mut copies, &one, params.unroll_factor);
    let mut out = toks_clone(&l.label);
    push_ident(&mut out, "loop", sp.call);
    push_group(&mut out, Delimiter::Brace, copies, sp.call);
    extend_toks(&mut out, rest);
    assert(toks_view(one@) =~= seq![grp(Delimiter::Brace, toks_view(l.body@), sp)]);
    assert(toks_view(out@) =~= unroll_runtime_spec(
        params,
        Loop::ExprLoop(*l)@,
        toks_view(rest@),
        sp,
    ));
    out
}

/// The configured loop unrolled with a test before each copy of the body,
/// followed by the rest of the tokens.
pub fn transform(ast: &LoopXFormConf<LoopUnrollParams>, sp: Spans) -> (r: Vec<Tok>)
    ensures
        toks_view(r@) == unroll_runtime_spec(ast.params, ast.the_loop@, ast.rest(), sp),
{
    match &ast.the_loop {
        Loop::ExprForLoop(expr_for_loop) => transform_ExprForLoop(
            ast.params,
            expr_for_loop,
            &ast.rest_of_tokenstream,
            sp,
        ),
        Loop::ExprWhile(expr_while) => transform_ExprWhile(
            ast.params,
            expr_while,
            &ast.rest_of_tokenstream,
            sp,
        ),
        Loop::ExprLoop(expr_loop) => transform_ExprLoop(
            ast.params,
            expr_loop,
            &ast.rest_of_tokenstream,
            sp,
        ),
    }
}

/// Unrolling a `while` loop at runtime keeps its label and the tokens after
/// it, and makes its body exactly `unroll_factor` copies of `if cond {
/// body } else { break; }`: no copy of the body runs unless the loop's
/// condition was just found true.
pub proof fn law_runtime_while_guards_every_copy(
    params: LoopUnrollParams,
    label: Seq<TokV>,
    cond: Seq<TokV>,
    body: Seq<TokV>,
    rest: Seq<TokV>,
    sp: Spans,
)
    ensures
        ({
            let out = unroll_runtime_spec(params, LoopV::While { label, cond, body }, rest, sp);
            let n = params.unroll_factor as nat;
            let g = out[label.len() + 2int];
            let guarded = seq![kw("if"@, sp)] + cond + seq![
                grp(Delimiter::Brace, body, sp),
                kw("else"@, sp),
                grp(Delimiter::Brace, seq![kw("break"@, sp), pc(';', sp)], sp),
            ];
            &&& out.len() == label.len() + 3 + rest.len()
            &&& out.take(label.len() as int) == label
            &&& out[label.len() as int] == kw("while"@, sp)
            &&& out[label.len() + 1int] == kw("true"@, sp)
            &&& g matches TokV::Group { delim, stream, .. } && delim == Delimiter::Brace && stream.len()
                == n * guarded.len() && forall|k: nat|
                k < n ==> #[trigger] chunk(stream, guarded.len(), k) == guarded
            &&& out.skip(label.len() + 3int) == rest
        }),
{
    let out = unroll_runtime_spec(params, LoopV::While { label, cond, body }, rest, sp);
    let n = params.unroll_factor as nat;
    let guarded = if_cond(cond, body, plain_break(sp), sp);
    lemma_repeat_chunks(guarded, n);
    let copies = repeat_seq(guarded, n);
    let head = label + seq![kw("while"@, sp), kw("true"@, sp), grp(Delimiter::Brace, copies, sp)];
    assert(out == head + rest);
    assert(guarded =~= seq![kw("if"@, sp)] + cond + seq![
        grp(Delimiter::Brace, body, sp),
        kw("else"@, sp),
        grp(Delimiter::Brace, seq![kw("break"@, sp), pc(';', sp)], sp),
    ]);
    assert(out.take(label.len() as int) =~= label);
    assert(out.skip(label.len() + 3int) =~= rest);
    assert(out[label.len() + 2int] == grp(Delimiter::Brace, copies, sp));
}

/// Unrolling a `for` loop at runtime puts, in a block of its own, the
/// iterator into `r#iter` and then a loop, with the original label, whose
/// body is exactly `unroll_factor` copies of `if let Some(pat) =
/// r#iter.next() { body } else { break; }`: each copy takes the next item
/// and runs the body on it, or leaves when there is none. The tokens after
/// the loop follow the block.
pub proof fn law_runtime_for_takes_one_item_per_copy(
    params: LoopUnrollParams,
    label: Seq<TokV>,
    pat: Seq<TokV>,
    expr: Seq<TokV>,
    body: Seq<TokV>,
    rest: Seq<TokV>,
    sp: Spans,
)
    ensures
        ({
            let out = unroll_runtime_spec(params, LoopV::For { label, pat, expr, body }, rest, sp);
            let n = params.unroll_factor as nat;
            let guarded = seq![
                kw("if"@, sp),
                kw("let"@, sp),
                kw("Some"@, sp),
                grp(Delimiter::Parenthesis, pat, sp),
                pc('=', sp),
                iter_var(sp),
                pc('.', sp),
                kw("next"@, sp),
                grp(Delimiter::Parenthesis, Seq::empty(), sp),
                grp(Delimiter::Brace, body, sp),
                kw("else"@, sp),
                grp(Delimiter::Brace, seq![kw("break"@, sp), pc(';', sp)], sp),
            ];
            let head = seq![kw("let"@, sp), kw("mut"@, sp), iter_var(sp), pc('=', sp)] + expr
                + seq![pc(';', sp)] + label + seq![kw("while"@, sp), kw("true"@, sp)];
            &&& out.len() == 1 + rest.len()
            &&& out.skip(1) == rest
            &&& out[0] matches TokV::Group { delim, stream: b, .. } && delim == Delimiter::Brace
                && b.len() == head.len() + 1 && b.take(head.len() as int) == head && (b[head.len()
                as int] matches TokV::Group { delim: d, stream: c, .. } && d == Delimiter::Brace
                && c.len() == n * 12 && forall|k: nat|
                k < n ==> #[trigger] chunk(c, 12, k) == guarded)
        }),
{
    let out = unroll_runtime_spec(params, LoopV::For { label, pat, expr, body }, rest, sp);
    let n = params.unroll_factor as nat;
    let guarded = if_next(pat, body, plain_break(sp), sp);
    lemma_repeat_chunks(guarded, n);
    let copies = repeat_seq(guarded, n);
    let head = seq![kw("let"@, sp), kw("mut"@, sp), iter_var(sp), pc('=', sp)] + expr + seq![
        pc(';', sp),
    ] + label + seq![kw("while"@, sp), kw("true"@, sp)];
    let b = let_iter(expr, sp) + label + seq![
        kw("while"@, sp),
        kw("true"@, sp),
        grp(Delimiter::Brace, copies, sp),
    ];
    assert(b =~= head + seq![grp(Delimiter::Brace, copies, sp)]);
    assert(out == seq![grp(Delimiter::Brace, b, sp)] + rest);
    assert(out.skip(1) =~= rest);
    assert(b.take(head.len() as int) =~= head);
    assert(b[head.len() as int] == grp(Delimiter::Brace, copies, sp));
}

/// Unrolling a plain `loop` at runtime keeps its label and the tokens after
/// it, and makes its body exactly `unroll_factor` blocks `{ body }`.
pub proof fn law_runtime_loop_repeats_the_body(
    params: LoopUnrollParams,
    label: Seq<TokV>,
    body: Seq<TokV>,
    rest: Seq<TokV>,
    sp: Spans,
)
    ensures
        ({
            let out = unroll_runtime_spec(params, LoopV::Plain { label, body }, rest, sp);
            let n = params.unroll_factor as nat;
            &&& out.len() == label.len() + 2 + rest.len()
            &&& out.take(label.len() as int) == label
            &&& out[label.len() as int] == kw("loop"@, sp)
            &&& out[label.len() + 1int] matches TokV::Group { delim, stream, .. } && delim
                == Delimiter::Brace && stream.len() == n && forall|k: int|
                0 <= k < n ==> #[trigger] stream[k] == grp(Delimiter::Brace, body, sp)
            &&& out.skip(label.len() + 2int) == rest
        }),
{
    let out = unroll_runtime_spec(params, LoopV::Plain { label, body }, rest, sp);
    let n = params.unroll_factor as nat;
    let one = seq![grp(Delimiter::Brace, body, sp)];
    lemma_repeat_chunks(one, n);
    let copies = repeat_seq(one, n);
    assert(copies.len() == n) by {
        assert(n * 1 == n);
    }
    assert(out == label + seq![kw("loop"@, sp), grp(Delimiter::Brace, copies, sp)] + rest);
    assert(out.take(label.len() as int) =~= label);
    assert(out.skip(label.len() + 2int) =~= rest);
    assert(out[label.len() + 1int] == grp(Delimiter::Brace, copies, sp));
    assert forall|k: int| 0 <= k < n implies #[trigger] copies[k] == grp(
        Delimiter::Brace,
        body,
        sp,
    ) by {
        assert(one.len() == 1);
        assert(chunk(copies, one.len(), k as nat) == one);
        assert(k * 1 == k && (k + 1) * 1 == k + 1);
        assert(chunk(copies, one.len(), k as nat)[0] == copies[k]);
    }
}

} // verus!
