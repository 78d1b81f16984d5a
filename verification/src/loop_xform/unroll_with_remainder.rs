//! Unrolling where whole groups of iterations run together: the iterator
//! is asked for `factor` items ahead, the copies of the body run only when
//! all of them came, and the items of an incomplete last group run after.

use crate::loop_xform::labeller::{label_breaks_spec, label_unlabelled_breaks};
use crate::loop_xform::numbers::{dec_string, usize_to_dec};
use crate::loop_xform::shapes::{
    break_with, break_with_toks, chunk, grp, iter_var, kw, let_iter, lifetime_of, lifetime_toks,
    mixed_lifetime, pc, push_let_iter, push_mixed_lifetime,
};
use crate::loop_xform::{ForLoop, Loop, LoopUnrollParams, LoopV, LoopXFormConf, LoopXformError};
use crate::tokens::{
    extend_toks, ident_v, lemma_toks_view, push_clone, push_group, push_ident, push_ident_string,
    push_joint_punct, push_punct, toks_clone, toks_view, Delimiter, Spans, Tok, TokV,
};
use vstd::prelude::*;
use vstd::string::StringExecFns;

verus! {

/// The parts of a `for` loop that the unrolled code is built from.
pub struct Pieces {
    pub label_outer: Vec<Tok>,
    pub pat: Vec<Tok>,
    pub expr: Vec<Tok>,
    pub body_stmts: Vec<Tok>,
    pub remainder: Vec<Tok>,
    pub label_inner: Vec<Tok>,
    pub iter: Tok,
    pub iter_evals: Vec<Tok>,
    pub iter_elts: Vec<Tok>,
}

/// What the pieces are.
pub struct PiecesV {
    pub label_outer: Seq<TokV>,
    pub pat: Seq<TokV>,
    pub expr: Seq<TokV>,
    pub body_stmts: Seq<TokV>,
    pub remainder: Seq<TokV>,
    pub label_inner: Seq<TokV>,
    pub iter: TokV,
    pub iter_evals: Seq<TokV>,
    pub iter_elts: Seq<TokV>,
}

impl View for Pieces {
    type V = PiecesV;

    open spec fn view(&self) -> PiecesV {
        PiecesV {
            label_outer: toks_view(self.label_outer@),
            pat: toks_view(self.pat@),
            expr: toks_view(self.expr@),
            body_stmts: toks_view(self.body_stmts@),
            remainder: toks_view(self.remainder@),
            label_inner: toks_view(self.label_inner@),
            iter: self.iter@,
            iter_evals: toks_view(self.iter_evals@),
            iter_elts: toks_view(self.iter_elts@),
        }
    }
}

/// `( )`.
pub open spec fn unit(sp: Spans) -> TokV {
    grp(Delimiter::Parenthesis, Seq::empty(), sp)
}

/// `let mut v = None ;`.
pub open spec fn let_none(v: TokV, sp: Spans) -> Seq<TokV> {
    seq![kw("let"@, sp), kw("mut"@, sp), v, pc('=', sp), kw("None"@, sp), pc(';', sp)]
}

/// The declarations of the item slots, the last slot first.
pub open spec fn prologue(p: PiecesV, k: nat, sp: Spans) -> Seq<TokV>
    decreases k,
{
    if k == 0 {
        Seq::empty()
    } else {
        let_none(p.iter_evals[k - 1], sp) + prologue(p, (k - 1) as nat, sp)
    }
}

/// `it . next ( )`.
pub open spec fn next_of(it: TokV, sp: Spans) -> Seq<TokV> {
    seq![it, pc('.', sp), kw("next"@, sp), unit(sp)]
}

/// Fills slot `i`: from the iterator for the first slot, and for each
/// other slot only when the slot before it got an item.
pub open spec fn init_item(p: PiecesV, i: int, sp: Spans) -> Seq<TokV> {
    if i == 0 {
        seq![p.iter_evals[0], pc('=', sp)] + next_of(p.iter, sp) + seq![pc(';', sp)]
    } else {
        seq![
            p.iter_evals[i],
            pc('=', sp),
            kw("if"@, sp),
            p.iter_evals[i - 1],
            pc('.', sp),
            kw("is_some"@, sp),
            unit(sp),
            grp(Delimiter::Brace, next_of(p.iter, sp), sp),
            kw("else"@, sp),
            grp(Delimiter::Brace, seq![kw("None"@, sp)], sp),
            pc(';', sp),
        ]
    }
}

/// Filling slots `0 .. k`, in order.
pub open spec fn init_seq(p: PiecesV, k: nat, sp: Spans) -> Seq<TokV>
    decreases k,
{
    if k == 0 {
        Seq::empty()
    } else {
        init_seq(p, (k - 1) as nat, sp) + init_item(p, k - 1, sp)
    }
}

/// `let Some ( elt ) = slot . take ( )` for slot `i`.
pub open spec fn cond_item(p: PiecesV, i: int, sp: Spans) -> Seq<TokV> {
    seq![
        kw("let"@, sp),
        kw("Some"@, sp),
        grp(Delimiter::Parenthesis, seq![p.iter_elts[i]], sp),
        pc('=', sp),
        p.iter_evals[i],
        pc('.', sp),
        kw("take"@, sp),
        unit(sp),
    ]
}

/// `&&`.
pub open spec fn and_and(sp: Spans) -> Seq<TokV> {
    seq![TokV::Punct { ch: '&', joint: true, span: sp.call }, pc('&', sp)]
}

/// The tests that slots `k - 1` down to `0` hold items, joined by `&&`.
pub open spec fn cond_seq(p: PiecesV, k: nat, sp: Spans) -> Seq<TokV>
    decreases k,
{
    if k == 0 {
        Seq::empty()
    } else if k == 1 {
        cond_item(p, 0, sp)
    } else {
        cond_item(p, k - 1, sp) + and_and(sp) + cond_seq(p, (k - 1) as nat, sp)
    }
}

/// A copy of the body run on the item of slot `i`.
pub open spec fn body_item(p: PiecesV, i: int, sp: Spans) -> Seq<TokV> {
    seq![
        grp(
            Delimiter::Brace,
            seq![kw("let"@, sp)] + p.pat + seq![pc('=', sp), p.iter_elts[i], pc(';', sp)]
                + p.body_stmts,
            sp,
        ),
    ]
}

/// The copies of the body for slots `0 .. k`, in order.
pub open spec fn body_seq(p: PiecesV, k: nat, sp: Spans) -> Seq<TokV>
    decreases k,
{
    if k == 0 {
        Seq::empty()
    } else {
        body_seq(p, (k - 1) as nat, sp) + body_item(p, k - 1, sp)
    }
}

/// Runs the body on the item left in slot `i`, or leaves the outer loop.
pub open spec fn epilogue_item(p: PiecesV, i: int, sp: Spans) -> Seq<TokV> {
    seq![
        kw("if"@, sp),
        kw("let"@, sp),
        kw("Some"@, sp),
        grp(Delimiter::Parenthesis, p.pat, sp),
        pc('=', sp),
        p.iter_evals[i],
        pc('.', sp),
        kw("take"@, sp),
        unit(sp),
        grp(Delimiter::Brace, p.body_stmts, sp),
        kw("else"@, sp),
        grp(Delimiter::Brace, break_with(p.label_outer, sp), sp),
    ]
}

/// The leftover items of slots `0 .. k`, in order.
pub open spec fn epilogue_seq(p: PiecesV, k: nat, sp: Spans) -> Seq<TokV>
    decreases k,
{
    if k == 0 {
        Seq::empty()
    } else {
        epilogue_seq(p, (k - 1) as nat, sp) + epilogue_item(p, k - 1, sp)
    }
}

/// The unrolled loop that the pieces `p` make, with `n` slots.
pub open spec fn builder_spec(p: PiecesV, sp: Spans) -> Seq<TokV> {
    let n = p.iter_evals.len();
    let inner_loop_body = init_seq(p, n, sp) + seq![kw("if"@, sp)] + cond_seq(p, n, sp) + seq![
        grp(Delimiter::Brace, body_seq(p, n, sp), sp),
        kw("else"@, sp),
        grp(Delimiter::Brace, break_with(p.label_inner, sp), sp),
    ];
    let outer_body = seq![kw("let"@, sp), kw("mut"@, sp), p.iter, pc('=', sp)] + p.expr + seq![
        pc(';', sp),
    ] + prologue(p, n, sp) + p.label_inner + seq![
        pc(':', sp),
        kw("while"@, sp),
        kw("true"@, sp),
        grp(Delimiter::Brace, inner_loop_body, sp),
    ] + epilogue_seq(p, if n == 0 {
        0
    } else {
        (n - 1) as nat
    }, sp) + break_with(p.label_outer, sp);
    p.label_outer + seq![
        pc(':', sp),
        kw("while"@, sp),
        kw("true"@, sp),
        grp(Delimiter::Brace, outer_body, sp),
    ] + p.remainder
}

/// The name of item slot `i` of `n`.
pub open spec fn iter_name(i: nat, n: nat) -> Seq<char> {
    "r#iter_"@ + dec_string(i + 1) + "_of_"@ + dec_string(n)
}

/// The name of the item in slot `i` of `n`.
pub open spec fn elt_name(i: nat, n: nat) -> Seq<char> {
    "r#elt_"@ + dec_string(i + 1) + "_of_"@ + dec_string(n)
}

/// The pieces of the `for` loop `l` for unrolling `n` times, followed by
/// `rest`: the loop's lifetime (`'loop_label` where it has none) labels the
/// body's unlabelled `break`s and the outer loop; `'label_inner` labels the
/// loop over whole groups.
pub open spec fn pieces_of(l: LoopV, n: nat, rest: Seq<TokV>, sp: Spans) -> PiecesV {
    let lt = lifetime_of(l.label(), sp);
    PiecesV {
        label_outer: lt,
        pat: l->For_pat,
        expr: l->For_expr,
        body_stmts: label_breaks_spec(l.body(), lt),
        remainder: rest,
        label_inner: mixed_lifetime("label_inner"@, sp),
        iter: iter_var(sp),
        iter_evals: Seq::new(n, |i: int| ident_v(iter_name(i as nat, n), sp.mixed)),
        iter_elts: Seq::new(n, |i: int| ident_v(elt_name(i as nat, n), sp.mixed)),
    }
}

/// The loop `l` unrolled `params.unroll_factor` times with the leftover
/// iterations after, followed by `rest`; only `for` loops can be.
pub open spec fn unroll_with_remainder_spec(
    params: LoopUnrollParams,
    l: LoopV,
    rest: Seq<TokV>,
    sp: Spans,
) -> Result<Seq<TokV>, LoopXformError> {
    if l is For {
        Ok(builder_spec(pieces_of(l, params.unroll_factor as nat, rest, sp), sp))
    } else {
        Err(LoopXformError::UnsupportedLoopKind)
    }
}

fn push_unit(out: &mut Vec<Tok>, sp: Spans)
    ensures
        toks_view(final(out)@) == toks_view(old(out)@).push(unit(sp)),
{
    let empty: Vec<Tok> = Vec::new();
    proof {
        lemma_toks_view(empty@);
        assert(toks_view(empty@) =~= Seq::<TokV>::empty());
    }
    push_group(out, Delimiter::Parenthesis, empty, sp.call);
}

fn next_of_toks(it: &Tok, sp: Spans) -> (r: Vec<Tok>)
    ensures
        toks_view(r@) == next_of(it@, sp),
{
    let mut out: Vec<Tok> = Vec::new();
    push_clone(&mut out, it);
    push_punct(&mut out, '.', sp.call);
    push_ident(&mut out, "next", sp.call);
    push_unit(&mut out, sp);
    assert(toks_view(out@) =~= next_of(it@, sp));
    out
}

fn push_init_item(out: &mut Vec<Tok>, p: &Pieces, i: usize, sp: Spans)
    requires
        i < p.iter_evals.len(),
    ensures
        toks_view(final(out)@) == toks_view(old(out)@) + init_item(p@, i as int, sp),
{
    proof {
        lemma_toks_view(p.iter_evals@);
    }
    push_clone(out, &p.iter_evals[i]);
    push_punct(out, '=', sp.call);
    if i == 0 {
        let nx = next_of_toks(&p.iter, sp);
        extend_toks(out, &nx);
        push_punct(out, ';', sp.call);
    } else {
        push_ident(out, "if", sp.call);
        push_clone(out, &p.iter_evals[i - 1]);
        push_punct(out, '.', sp.call);
        push_ident(out, "is_some", sp.call);
        push_unit(out, sp);
        push_group(out, Delimiter::Brace, next_of_toks(&p.iter, sp), sp.call);
        push_ident(out, "else", sp.call);
        let mut none: Vec<Tok> = Vec::new();
        push_ident(&mut none, "None", sp.call);
        assert(toks_view(none@) =~= seq![kw("None"@, sp)]);
        push_group(out, Delimiter::Brace, none, sp.call);
        push_punct(out, ';', sp.call);
    }
    assert(toks_view(out@) =~= toks_view(old(out)@) + init_item(p@, i as int, sp));
}

fn push_cond_item(out: &mut Vec<Tok>, p: &Pieces, i: usize, sp: Spans)
    requires
        i < p.iter_evals.len(),
        i < p.iter_elts.len(),
    ensures
        toks_view(final(out)@) == toks_view(old(out)@) + cond_item(p@, i as int, sp),
{
    proof {
        lemma_toks_view(p.iter_evals@);
        lemma_toks_view(p.iter_elts@);
    }
    push_ident(out, "let", sp.call);
    push_ident(out, "Some", sp.call);
    let mut elt: Vec<Tok> = Vec::new();
    push_clone(&mut elt, &p.iter_elts[i]);
    assert(toks_view(elt@) =~= seq![p@.iter_elts[i as int]]);
    push_group(out, Delimiter::Parenthesis, elt, sp.call);
    push_punct(out, '=', sp.call);
    push_clone(out, &p.iter_evals[i]);
    push_punct(out, '.', sp.call);
    push_ident(out, "take", sp.call);
    push_unit(out, sp);
    assert(toks_view(out@) =~= toks_view(old(out)@) + cond_item(p@, i as int, sp));
}

fn push_body_item(out: &mut Vec<Tok>, p: &Pieces, i: usize, sp: Spans)
    requires
        i < p.iter_elts.len(),
    ensures
        toks_view(final(out)@) == toks_view(old(out)@) + body_item(p@, i as int, sp),
{
    proof {
        lemma_toks_view(p.iter_elts@);
    }
    let mut inner: Vec<Tok> = Vec::new();
    push_ident(&mut inner, "let", sp.call);
    extend_toks(&mut inner, &p.pat);
    push_punct(&mut inner, '=', sp.call);
    push_clone(&mut inner, &p.iter_elts[i]);
    push_punct(&mut inner, ';', sp.call);
    extend_toks(&mut inner, &p.body_stmts);
    assert(toks_view(inner@) =~= seq![kw("let"@, sp)] + p@.pat + seq![
        pc('=', sp),
        p@.iter_elts[i as int],
        pc(';', sp),
    ] + p@.body_stmts);
    push_group(out, Delimiter::Brace, inner, sp.call);
    assert(toks_view(out@) =~= toks_view(old(out)@) + body_item(p@, i as int, sp));
}

fn push_epilogue_item(out: &mut Vec<Tok>, p: &Pieces, i: usize, sp: Spans)
    requires
        i < p.iter_evals.len(),
    ensures
        toks_view(final(out)@) == toks_view(old(out)@) + epilogue_item(p@, i as int, sp),
{
    proof {
        lemma_toks_view(p.iter_evals@);
    }
    push_ident(out, "if", sp.call);
    push_ident(out, "let", sp.call);
    push_ident(out, "Some", sp.call);
    push_group(out, Delimiter::Parenthesis, toks_clone(&p.pat), sp.call);
    push_punct(out, '=', sp.call);
    push_clone(out, &p.iter_evals[i]);
    push_punct(out, '.', sp.call);
    push_ident(out, "take", sp.call);
    push_unit(out, sp);
    push_group(out, Delimiter::Brace, toks_clone(&p.body_stmts), sp.call);
    push_ident(out, "else", sp.call);
    push_group(out, Delimiter::Brace, break_with_toks(&p.label_outer, sp), sp.call);
    assert(toks_view(out@) =~= toks_view(old(out)@) + epilogue_item(p@, i as int, sp));
}

/// The loop over whole groups of items: fill the slots, run the copies of
/// the body when every slot got an item, leave the loop otherwise.
fn inner_loop_body(p: &Pieces, sp: Spans) -> (r: Vec<Tok>)
    requires
        p.iter_evals.len() == p.iter_elts.len(),
    ensures
        ({
            let n = p@.iter_evals.len();
            toks_view(r@) == init_seq(p@, n, sp) + seq![kw("if"@, sp)] + cond_seq(p@, n, sp)
                + seq![
                grp(Delimiter::Brace, body_seq(p@, n, sp), sp),
                kw("else"@, sp),
                grp(Delimiter::Brace, break_with(p@.label_inner, sp), sp),
            ]
        }),
{
    proof {
        lemma_toks_view(p.iter_evals@);
        lemma_toks_view(p.iter_elts@);
    }
    let n = p.iter_evals.len();
    let mut out: Vec<Tok> = Vec::new();
    let mut k: usize = 0;
    while k < n
        invariant
            n == p.iter_evals.len() == p.iter_elts.len(),
            n == p@.iter_evals.len(),
            k <= n,
            toks_view(out@) == init_seq(p@, k as nat, sp),
        decreases n - k,
    {
        push_init_item(&mut out, p, k, sp);
        k = k + 1;
    }
    let ghost init = toks_view(out@);
    push_ident(&mut out, "if", sp.call);
    let ghost before_cond = toks_view(out@);
    let mut j: usize = n;
    while j > 0
        invariant
            n == p.iter_evals.len() == p.iter_elts.len(),
            n == p@.iter_evals.len(),
            j <= n,
            toks_view(out@) + cond_seq(p@, j as nat, sp) == before_cond + cond_seq(
                p@,
                n as nat,
                sp,
            ),
        decreases j,
    {
        let ghost prev = toks_view(out@);
        push_cond_item(&mut out, p, j - 1, sp);
        if j > 1 {
            push_joint_punct(&mut out, '&', sp.call);
            push_punct(&mut out, '&', sp.call);
            assert(toks_view(out@) =~= prev + cond_item(p@, j - 1, sp) + and_and(sp));
            assert(toks_view(out@) + cond_seq(p@, (j - 1) as nat, sp) =~= prev + cond_seq(
                p@,
                j as nat,
                sp,
            ));
        } else {
            assert(toks_view(out@) + cond_seq(p@, 0, sp) =~= prev + cond_seq(p@, 1, sp));
        }
        j = j - 1;
    }
    assert(toks_view(out@) =~= before_cond + cond_seq(p@, n as nat, sp));
    let mut bodies: Vec<Tok> = Vec::new();
    let mut k: usize = 0;
    while k < n
        invariant
            n == p.iter_evals.len() == p.iter_elts.len(),
            n == p@.iter_evals.len(),
            k <= n,
            toks_view(bodies@) == body_seq(p@, k as nat, sp),
        decreases n - k,
    {
        push_body_item(&mut bodies, p, k, sp);
        k = k + 1;
    }
    push_group(&mut out, Delimiter::Brace, bodies, sp.call);
    push_ident(&mut out, "else", sp.call);
    push_group(&mut out, Delimiter::Brace, break_with_toks(&p.label_inner, sp), sp.call);
    assert(toks_view(out@) =~= init_seq(p@, n as nat, sp) + seq![kw("if"@, sp)] + cond_seq(
        p@,
        n as nat,
        sp,
    ) + seq![
        grp(Delimiter::Brace, body_seq(p@, n as nat, sp), sp),
        kw("else"@, sp),
        grp(Delimiter::Brace, break_with(p@.label_inner, sp), sp),
    ]);
    out
}

/// The unrolled loop that the pieces `s` make.
fn builder(s: &Pieces, sp: Spans) -> (r: Vec<Tok>)
    requires
        s.iter_evals.len() == s.iter_elts.len(),
    ensures
        toks_view(r@) == builder_spec(s@, sp),
{
    proof {
        lemma_toks_view(s.iter_evals@);
    }
    let n = s.iter_evals.len();
    let mut outer: Vec<Tok> = Vec::new();
    push_ident(&mut outer, "let", sp.call);
    push_ident(&mut outer, "mut", sp.call);
    push_clone(&mut outer, &s.iter);
    push_punct(&mut outer, '=', sp.call);
    extend_toks(&mut outer, &s.expr);
    push_punct(&mut outer, ';', sp.call);
    let ghost head = toks_view(outer@);
    let mut j: usize = n;
    while j > 0
        invariant
            n == s.iter_evals.len(),
            n == s@.iter_evals.len(),
            j <= n,
            toks_view(outer@) + prologue(s@, j as nat, sp) == head + prologue(s@, n as nat, sp),
        decreases j,
    {
        let ghost prev = toks_view(outer@);
        proof {
            lemma_toks_view(s.iter_evals@);
        }
        push_ident(&mut outer, "let", sp.call);
        push_ident(&mut outer, "mut", sp.call);
        push_clone(&mut outer, &s.iter_evals[j - 1]);
        push_punct(&mut outer, '=', sp.call);
        push_ident(&mut outer, "None", sp.call);
        push_punct(&mut outer, ';', sp.call);
        assert(toks_view(outer@) =~= prev + let_none(s@.iter_evals[j - 1], sp));
        assert(toks_view(outer@) + prologue(s@, (j - 1) as nat, sp) =~= prev + prologue(
            s@,
            j as nat,
            sp,
        ));
        j = j - 1;
    }
    assert(toks_view(outer@) =~= head + prologue(s@, n as nat, sp));
    extend_toks(&mut outer, &s.label_inner);
    push_punct(&mut outer, ':', sp.call);
    push_ident(&mut outer, "while", sp.call);
    push_ident(&mut outer, "true", sp.call);
    push_group(&mut outer, Delimiter::Brace, inner_loop_body(s, sp), sp.call);
    let ghost before_epilogue = toks_view(outer@);
    let m: usize = if n == 0 {
        0
    } else {
        n - 1
    };
    let mut k: usize = 0;
    while k < m
        invariant
            n == s.iter_evals.len(),
            m <= n,
            k <= m,
            toks_view(outer@) == before_epilogue + epilogue_seq(s@, k as nat, sp),
        decreases m - k,
    {
        push_epilogue_item(&mut outer, s, k, sp);
        assert(toks_view(outer@) =~= before_epilogue + epilogue_seq(s@, (k + 1) as nat, sp));
        k = k + 1;
    }
    let leave = break_with_toks(&s.label_outer, sp);
    extend_toks(&mut outer, &leave);
    let ghost n_int = s@.iter_evals.len();
    let ghost inner_body = init_seq(s@, n_int, sp) + seq![kw("if"@, sp)] + cond_seq(s@, n_int, sp)
        + seq![
        grp(Delimiter::Brace, body_seq(s@, n_int, sp), sp),
        kw("else"@, sp),
        grp(Delimiter::Brace, break_with(s@.label_inner, sp), sp),
    ];
    assert(toks_view(outer@) =~= seq![kw("let"@, sp), kw("mut"@, sp), s@.iter, pc('=', sp)]
        + s@.expr + seq![pc(';', sp)] + prologue(s@, n_int, sp) + s@.label_inner + seq![
        pc(':', sp),
        kw("while"@, sp),
        kw("true"@, sp),
        grp(Delimiter::Brace, inner_body, sp),
    ] + epilogue_seq(s@, m as nat, sp) + break_with(s@.label_outer, sp));
    let mut out = toks_clone(&s.label_outer);
    push_punct(&mut out, ':', sp.call);
    push_ident(&mut out, "while", sp.call);
    push_ident(&mut out, "true", sp.call);
    push_group(&mut out, Delimiter::Brace, outer, sp.call);
    extend_toks(&mut out, &s.remainder);
    assert(toks_view(out@) =~= builder_spec(s@, sp));
    out
}

/// The name of item slot `i` of `n`.
fn iter_name_string(i: usize, n: usize) -> (r: String)
    requires
        i < n,
    ensures
        r@ == iter_name(i as nat, n as nat),
{
    let mut t = "r#iter_".to_owned();
    t.append(usize_to_dec(i + 1).as_str());
    t.append("_of_");
    t.append(usize_to_dec(n).as_str());
    t
}

/// The name of the item in slot `i` of `n`.
fn elt_name_string(i: usize, n: usize) -> (r: String)
    requires
        i < n,
    ensures
        r@ == elt_name(i as nat, n as nat),
{
    let mut t = "r#elt_".to_owned();
    t.append(usize_to_dec(i + 1).as_str());
    t.append("_of_");
    t.append(usize_to_dec(n).as_str());
    t
}

/// The result `r` of a transformation, seen as its view.
pub open spec fn toks_result_view(r: Result<Vec<Tok>, LoopXformError>) -> Result<
    Seq<TokV>,
    LoopXformError,
> {
    match r {
        Ok(v) => Ok(toks_view(v@)),
        Err(e) => Err(e),
    }
}

/// The configured `for` loop unrolled with its leftover iterations after,
/// followed by the rest of the tokens; an error for other loops.
pub fn transform(ast: LoopXFormConf<LoopUnrollParams>, sp: Spans) -> (r: Result<
    Vec<Tok>,
    LoopXformError,
>)
    ensures
        toks_result_view(r) == unroll_with_remainder_spec(
            ast.params,
            ast.the_loop@,
            ast.rest(),
            sp,
        ),
{
    let ghost l_v = ast.the_loop@;
    let ghost rest_v = ast.rest();
    let LoopXFormConf { params, the_loop, rest_of_tokenstream } = ast;
    let for_loop = match the_loop {
        Loop::ExprForLoop(for_loop) => for_loop,
        _ => {
            return Err(LoopXformError::UnsupportedLoopKind);
        },
    };
    let n = params.unroll_factor;
    let label_outer = lifetime_toks(&for_loop.label, sp);
    let body_stmts = label_unlabelled_breaks(&for_loop.body, &label_outer);
    let mut label_inner: Vec<Tok> = Vec::new();
    push_mixed_lifetime(&mut label_inner, "label_inner", sp);
    let iter = Tok::Ident { text: "r#iter".to_owned(), span: sp.mixed };
    let mut iter_evals: Vec<Tok> = Vec::new();
    let mut iter_elts: Vec<Tok> = Vec::new();
    let mut i: usize = 0;
    proof {
        lemma_toks_view(iter_evals@);
        lemma_toks_view(iter_elts@);
    }
    while i < n
        invariant
            i <= n,
            toks_view(iter_evals@) =~= Seq::new(
                i as nat,
                |k: int| ident_v(iter_name(k as nat, n as nat), sp.mixed),
            ),
            toks_view(iter_elts@) =~= Seq::new(
                i as nat,
                |k: int| ident_v(elt_name(k as nat, n as nat), sp.mixed),
            ),
        decreases n - i,
    {
        push_ident_string(&mut iter_evals, iter_name_string(i, n), sp.mixed);
        push_ident_string(&mut iter_elts, elt_name_string(i, n), sp.mixed);
        i = i + 1;
    }
    proof {
        lemma_toks_view(iter_evals@);
        lemma_toks_view(iter_elts@);
    }
    let ForLoop { pat, expr, .. } = for_loop;
    let p = Pieces {
        label_outer,
        pat,
        expr,
        body_stmts,
        remainder: rest_of_tokenstream,
        label_inner,
        iter,
        iter_evals,
        iter_elts,
    };
    assert(p@ == pieces_of(l_v, n as nat, rest_v, sp));
    Ok(builder(&p, sp))
}

/// The leftover items of slots `0 .. k` are `k` parts of twelve tokens,
/// part `j` being the one for slot `j`.
proof fn lemma_epilogue_chunks(p: PiecesV, k: nat, sp: Spans)
    ensures
        epilogue_seq(p, k, sp).len() == 12 * k,
        forall|j: nat| j < k ==> #[trigger] chunk(epilogue_seq(p, k, sp), 12, j) == epilogue_item(
            p,
            j as int,
            sp,
        ),
    decreases k,
{
    if k > 0 {
        let m = (k - 1) as nat;
        lemma_epilogue_chunks(p, m, sp);
        let e = epilogue_seq(p, k, sp);
        let q = epilogue_seq(p, m, sp);
        assert(e == q + epilogue_item(p, m as int, sp));
        assert forall|j: nat| j < k implies #[trigger] chunk(e, 12, j) == epilogue_item(
            p,
            j as int,
            sp,
        ) by {
            if j < m {
                assert(chunk(q, 12, j) == epilogue_item(p, j as int, sp));
                assert(chunk(e, 12, j) =~= chunk(q, 12, j));
            } else {
                assert(chunk(e, 12, j) =~= epilogue_item(p, j as int, sp));
            }
        }
    }
}

/// Unrolling with remainder keeps the tokens after the loop, and after the
/// loop over whole groups of `n` items it runs the body once on each item
/// left in slots `1 .. n - 1` (the first `n - 1` slots), in order, leaving
/// the loop at the first empty slot: every item the iterator gave is run,
/// whatever the factor.
pub proof fn law_epilogue_runs_every_leftover_slot(p: PiecesV, sp: Spans)
    requires
        p.iter_evals.len() >= 1,
    ensures
        ({
            let n = p.iter_evals.len();
            let out = builder_spec(p, sp);
            let lo = p.label_outer.len();
            let leave = seq![kw("break"@, sp)] + p.label_outer + seq![pc(';', sp)];
            let e = 12 * (n - 1);
            &&& out.len() == lo + 4 + p.remainder.len()
            &&& out.skip(lo + 4int) == p.remainder
            &&& out[lo + 3int] matches TokV::Group { delim, stream: ob, .. } && delim
                == Delimiter::Brace && ob.len() >= e + leave.len() + 1 && ob.skip(
                ob.len() - leave.len(),
            ) == leave && ob[ob.len() - leave.len() - e - 1] is Group && forall|k: nat|
                k < n - 1 ==> #[trigger] chunk(
                    ob.subrange(ob.len() - leave.len() - e, ob.len() - leave.len()),
                    12,
                    k,
                ) == seq![
                    kw("if"@, sp),
                    kw("let"@, sp),
                    kw("Some"@, sp),
                    grp(Delimiter::Parenthesis, p.pat, sp),
                    pc('=', sp),
                    p.iter_evals[k as int],
                    pc('.', sp),
                    kw("take"@, sp),
                    grp(Delimiter::Parenthesis, Seq::empty(), sp),
                    grp(Delimiter::Brace, p.body_stmts, sp),
                    kw("else"@, sp),
                    grp(Delimiter::Brace, leave, sp),
                ]
        }),
{
    let n = p.iter_evals.len();
    let out = builder_spec(p, sp);
    let lo = p.label_outer.len();
    let leave = break_with(p.label_outer, sp);
    let inner_loop_body = init_seq(p, n, sp) + seq![kw("if"@, sp)] + cond_seq(p, n, sp) + seq![
        grp(Delimiter::Brace, body_seq(p, n, sp), sp),
        kw("else"@, sp),
        grp(Delimiter::Brace, break_with(p.label_inner, sp), sp),
    ];
    let a = seq![kw("let"@, sp), kw("mut"@, sp), p.iter, pc('=', sp)] + p.expr + seq![
        pc(';', sp),
    ] + prologue(p, n, sp) + p.label_inner + seq![
        pc(':', sp),
        kw("while"@, sp),
        kw("true"@, sp),
        grp(Delimiter::Brace, inner_loop_body, sp),
    ];
    let ep = epilogue_seq(p, (n - 1) as nat, sp);
    let ob = a + ep + leave;
    assert(out == p.label_outer + seq![
        pc(':', sp),
        kw("while"@, sp),
        kw("true"@, sp),
        grp(Delimiter::Brace, ob, sp),
    ] + p.remainder);
    lemma_epilogue_chunks(p, (n - 1) as nat, sp);
    assert(out.skip(lo + 4int) =~= p.remainder);
    assert(out[lo + 3int] == grp(Delimiter::Brace, ob, sp));
    assert(ob.skip(ob.len() - leave.len()) =~= leave);
    assert(ob[a.len() - 1] == a[a.len() - 1]);
    assert(ob.subrange(a.len() as int, (a.len() + ep.len()) as int) =~= ep);
    assert forall|k: nat| k < n - 1 implies #[trigger] chunk(
        ob.subrange(ob.len() - leave.len() - 12 * (n - 1), ob.len() - leave.len()),
        12,
        k,
    ) == seq![
        kw("if"@, sp),
        kw("let"@, sp),
        kw("Some"@, sp),
        grp(Delimiter::Parenthesis, p.pat, sp),
        pc('=', sp),
        p.iter_evals[k as int],
        pc('.', sp),
        kw("take"@, sp),
        grp(Delimiter::Parenthesis, Seq::empty(), sp),
        grp(Delimiter::Brace, p.body_stmts, sp),
        kw("else"@, sp),
        grp(Delimiter::Brace, seq![kw("break"@, sp)] + p.label_outer + seq![pc(';', sp)], sp),
    ] by {
        assert(chunk(ep, 12, k) == epilogue_item(p, k as int, sp));
        assert(epilogue_item(p, k as int, sp) =~= seq![
            kw("if"@, sp),
            kw("let"@, sp),
            kw("Some"@, sp),
            grp(Delimiter::Parenthesis, p.pat, sp),
            pc('=', sp),
            p.iter_evals[k as int],
            pc('.', sp),
            kw("take"@, sp),
            grp(Delimiter::Parenthesis, Seq::empty(), sp),
            grp(Delimiter::Brace, p.body_stmts, sp),
            kw("else"@, sp),
            grp(Delimiter::Brace, seq![kw("break"@, sp)] + p.label_outer + seq![pc(';', sp)], sp),
        ]);
    }
}

/// The copies of the body for slots `0 .. k` are `k` blocks, block `j`
/// running the body on the item of slot `j`.
proof fn lemma_body_copies(p: PiecesV, k: nat, sp: Spans)
    ensures
        body_seq(p, k, sp).len() == k,
        forall|j: int| 0 <= j < k ==> #[trigger] body_seq(p, k, sp)[j] == body_item(p, j, sp)[0],
    decreases k,
{
    if k > 0 {
        lemma_body_copies(p, (k - 1) as nat, sp);
        assert(body_seq(p, k, sp) == body_seq(p, (k - 1) as nat, sp) + body_item(
            p,
            k - 1,
            sp,
        ));
    }
}

/// In the loop over whole groups of `n` items, once every slot holds an
/// item the body runs `n` times, in order, the run for slot `k` binding the
/// loop's pattern to the item of slot `k`; otherwise that loop is left.
pub proof fn law_whole_group_runs_every_slot(p: PiecesV, sp: Spans)
    requires
        p.iter_evals.len() >= 1,
    ensures
        ({
            let n = p.iter_evals.len();
            let out = builder_spec(p, sp);
            let lo = p.label_outer.len();
            let leave = seq![kw("break"@, sp)] + p.label_outer + seq![pc(';', sp)];
            let e = 12 * (n - 1);
            out[lo + 3int] matches TokV::Group { stream: ob, .. } && ob.len() >= e + leave.len()
                + 1 && (ob[ob.len() - leave.len() - e - 1] matches TokV::Group {
                stream: il,
                ..
            } && il.len() >= 3 && il[il.len() - 2] == kw("else"@, sp) && il[il.len() - 1] == grp(
                Delimiter::Brace,
                seq![kw("break"@, sp)] + p.label_inner + seq![pc(';', sp)],
                sp,
            ) && (il[il.len() - 3] matches TokV::Group { delim, stream: bs, .. } && delim
                == Delimiter::Brace && bs.len() == n && forall|k: int|
                0 <= k < n ==> #[trigger] bs[k] == grp(
                    Delimiter::Brace,
                    seq![kw("let"@, sp)] + p.pat + seq![
                        pc('=', sp),
                        p.iter_elts[k],
                        pc(';', sp),
                    ] + p.body_stmts,
                    sp,
                )))
        }),
{
    let n = p.iter_evals.len();
    let out = builder_spec(p, sp);
    let leave = break_with(p.label_outer, sp);
    let inner_loop_body = init_seq(p, n, sp) + seq![kw("if"@, sp)] + cond_seq(p, n, sp) + seq![
        grp(Delimiter::Brace, body_seq(p, n, sp), sp),
        kw("else"@, sp),
        grp(Delimiter::Brace, break_with(p.label_inner, sp), sp),
    ];
    let a = seq![kw("let"@, sp), kw("mut"@, sp), p.iter, pc('=', sp)] + p.expr + seq![
        pc(';', sp),
    ] + prologue(p, n, sp) + p.label_inner + seq![
        pc(':', sp),
        kw("while"@, sp),
        kw("true"@, sp),
        grp(Delimiter::Brace, inner_loop_body, sp),
    ];
    let ep = epilogue_seq(p, (n - 1) as nat, sp);
    let ob = a + ep + leave;
    lemma_epilogue_chunks(p, (n - 1) as nat, sp);
    lemma_body_copies(p, n, sp);
    assert(out[p.label_outer.len() + 3int] == grp(Delimiter::Brace, ob, sp));
    assert(ob[a.len() - 1] == a[a.len() - 1]);
    let il = inner_loop_body;
    assert(il[il.len() - 3] == grp(Delimiter::Brace, body_seq(p, n, sp), sp));
    assert(il[il.len() - 2] == kw("else"@, sp));
    assert(il[il.len() - 1] == grp(Delimiter::Brace, break_with(p.label_inner, sp), sp));
}

/// Unrolling a `for` loop with remainder, `n` at a time: the result keeps
/// the loop's label (`'loop_label` where it has none) and the tokens after
/// the loop; the body runs, with its unlabelled `break`s labelled, once on
/// each of the items of a whole group, the item of slot `k` in the variable
/// `r#elt_{k+1}_of_{n}`, and after the last whole group once on each item
/// left in slots `r#iter_1_of_{n}` to `r#iter_{n-1}_of_{n}`, in order.
pub proof fn law_with_remainder_runs_every_item(
    params: LoopUnrollParams,
    label: Seq<TokV>,
    pat: Seq<TokV>,
    expr: Seq<TokV>,
    body: Seq<TokV>,
    rest: Seq<TokV>,
    sp: Spans,
)
    requires
        params.unroll_factor >= 1,
        label.len() == 3 || label.len() == 0,
    ensures
        ({
            let n = params.unroll_factor as nat;
            let lt = if label.len() == 3 {
                label.take(2)
            } else {
                seq![
                    TokV::Punct { ch: '\'', joint: true, span: sp.mixed },
                    TokV::Ident { text: "loop_label"@, span: sp.mixed },
                ]
            };
            let b = label_breaks_spec(body, lt);
            let leave = seq![kw("break"@, sp)] + lt + seq![pc(';', sp)];
            let e = 12 * (n - 1);
            unroll_with_remainder_spec(params, LoopV::For { label, pat, expr, body }, rest, sp)
                matches Ok(out) && out.len() == 6 + rest.len() && out.take(2) == lt && out[2]
                == pc(':', sp) && out.skip(6) == rest && (out[5] matches TokV::Group {
                stream: ob,
                ..
            } && ob.len() >= e + leave.len() + 1 && ob.skip(ob.len() - leave.len()) == leave
                && (forall|k: nat|
                k < n - 1 ==> #[trigger] chunk(
                    ob.subrange(ob.len() - leave.len() - e, ob.len() - leave.len()),
                    12,
                    k,
                ) == seq![
                    kw("if"@, sp),
                    kw("let"@, sp),
                    kw("Some"@, sp),
                    grp(Delimiter::Parenthesis, pat, sp),
                    pc('=', sp),
                    ident_v(iter_name(k, n), sp.mixed),
                    pc('.', sp),
                    kw("take"@, sp),
                    grp(Delimiter::Parenthesis, Seq::empty(), sp),
                    grp(Delimiter::Brace, b, sp),
                    kw("else"@, sp),
                    grp(Delimiter::Brace, leave, sp),
                ]) && (ob[ob.len() - leave.len() - e - 1] matches TokV::Group {
                stream: il,
                ..
            } && il.len() >= 3 && (il[il.len() - 3] matches TokV::Group { stream: bs, .. }
                && bs.len() == n && forall|k: int|
                0 <= k < n ==> #[trigger] bs[k] == grp(
                    Delimiter::Brace,
                    seq![kw("let"@, sp)] + pat + seq![
                        pc('=', sp),
                        ident_v(elt_name(k as nat, n), sp.mixed),
                        pc(';', sp),
                    ] + b,
                    sp,
                ))))
        }),
{
    let n = params.unroll_factor as nat;
    let l = LoopV::For { label, pat, expr, body };
    let p = pieces_of(l, n, rest, sp);
    law_epilogue_runs_every_leftover_slot(p, sp);
    law_whole_group_runs_every_slot(p, sp);
    let out = builder_spec(p, sp);
    assert(p.label_outer.len() == 2);
    if label.len() == 0 {
        assert(p.label_outer =~= seq![
            TokV::Punct { ch: '\'', joint: true, span: sp.mixed },
            TokV::Ident { text: "loop_label"@, span: sp.mixed },
        ]);
    }
    assert(out.take(2) =~= p.label_outer.take(2));
    assert(p.label_outer.take(2) =~= p.label_outer);
    assert(out[2] == pc(':', sp));
}

} // verus!
