//! Gives the unlabelled `break`s of a loop body the loop's label, so that
//! they still leave that loop once the body is moved into other loops.

use crate::loop_xform::loop_text::{find_loop_end, loop_end_from, ExprShape};
use crate::loop_xform::parse::copy_range;
use crate::tokens::{
    is_ident, is_ident_v, is_punct, is_punct_v, lemma_toks_view, push_clone, push_group,
    toks_view, Tok, TokV, extend_toks,
};
use vstd::prelude::*;

verus! {

/// Whether `t` is a keyword that starts a loop.
pub open spec fn is_loop_keyword_v(t: TokV) -> bool {
    is_ident_v(t, "for"@) || is_ident_v(t, "while"@) || is_ident_v(t, "loop"@)
}

/// The kind of loop that the keyword `t` starts.
pub open spec fn keyword_shape(t: TokV) -> ExprShape {
    if is_ident_v(t, "for"@) {
        ExprShape::ForLoop
    } else if is_ident_v(t, "while"@) {
        ExprShape::While
    } else {
        ExprShape::Loop
    }
}

/// Where the nested loop that the tokens `s` start with ends: the index of
/// its body, the braced group at which `syn` reads the tokens so far as one
/// whole loop of the kind its keyword names. Nothing where `s` does not
/// start with a loop keyword, or where no such group follows (as for the
/// `for` of `for<'a> Fn(&'a u8)`).
pub open spec fn nested_loop_end(s: Seq<TokV>) -> Option<int> {
    if s.len() > 0 && is_loop_keyword_v(s[0]) {
        let j = loop_end_from(Seq::empty(), s, keyword_shape(s[0]), 1);
        if j < s.len() {
            Some(j)
        } else {
            None
        }
    } else {
        None
    }
}

/// Whether `s` starts with a `break` that has no label of its own.
pub open spec fn starts_unlabelled_break(s: Seq<TokV>) -> bool {
    s.len() > 0 && is_ident_v(s[0], "break"@) && !(s.len() > 1 && is_punct_v(s[1], '\''))
}

/// The statements `s` with `label` after each `break` that has no label of
/// its own, inside nested groups too, except inside a nested loop: a
/// nested loop, from its keyword to its body, is kept as it is, since an
/// unlabelled `break` there leaves the nested loop.
pub open spec fn label_breaks_spec(s: Seq<TokV>, label: Seq<TokV>) -> Seq<TokV>
    decreases s,
{
    if s.len() == 0 {
        Seq::empty()
    } else if starts_unlabelled_break(s) {
        seq![s[0]] + label + label_breaks_spec(s.drop_first(), label)
    } else if nested_loop_end(s) is Some && 0 <= nested_loop_end(s)->0 < s.len() {
        let e = nested_loop_end(s)->0;
        s.take(e + 1) + label_breaks_spec(s.skip(e + 1), label)
    } else {
        match s[0] {
            TokV::Group { delim, stream, span } => seq![
                TokV::Group { delim, stream: label_breaks_spec(stream, label), span },
            ] + label_breaks_spec(s.drop_first(), label),
            _ => seq![s[0]] + label_breaks_spec(s.drop_first(), label),
        }
    }
}

fn is_loop_keyword(t: &Tok) -> (r: bool)
    ensures
        r == is_loop_keyword_v(t@),
{
    is_ident(t, "for") || is_ident(t, "while") || is_ident(t, "loop")
}

/// The statements `s` with `label` after each of their unlabelled `break`s
/// that belong to the loop whose body they are.
pub fn label_unlabelled_breaks(s: &Vec<Tok>, label: &Vec<Tok>) -> (r: Vec<Tok>)
    ensures
        toks_view(r@) == label_breaks_spec(toks_view(s@), toks_view(label@)),
    decreases s,
{
    let ghost sv = toks_view(s@);
    let ghost lv = toks_view(label@);
    let no_label: Vec<Tok> = Vec::new();
    let mut out: Vec<Tok> = Vec::new();
    let mut i: usize = 0;
    proof {
        lemma_toks_view(s@);
        lemma_toks_view(no_label@);
        assert(toks_view(no_label@) =~= Seq::<TokV>::empty());
        assert(sv.skip(0) =~= sv);
    }
    while i < s.len()
        invariant
            i <= s.len(),
            sv == toks_view(s@),
            lv == toks_view(label@),
            toks_view(no_label@) == Seq::<TokV>::empty(),
            sv.len() == s@.len(),
            forall|k: int| 0 <= k < s@.len() ==> #[trigger] sv[k] == s@[k]@,
            toks_view(out@) + label_breaks_spec(sv.skip(i as int), lv) == label_breaks_spec(sv, lv),
        decreases s.len() - i,
    {
        let ghost old_out = toks_view(out@);
        let ghost tail = sv.skip(i as int);
        assert(tail[0] == sv[i as int]);
        assert(tail.drop_first() =~= sv.skip(i + 1));
        assert(tail.len() > 1 ==> tail[1] == sv[i + 1]);
        let t = &s[i];
        assert(sv[i as int] == t@);
        if is_ident(t, "break") && !(i + 1 < s.len() && is_punct(&s[i + 1], '\'')) {
            push_clone(&mut out, t);
            extend_toks(&mut out, label);
            assert(toks_view(out@) == old_out + seq![t@] + lv);
            i = i + 1;
            continue;
        }
        if is_loop_keyword(t) {
            let shape = if is_ident(t, "for") {
                ExprShape::ForLoop
            } else if is_ident(t, "while") {
                ExprShape::While
            } else {
                ExprShape::Loop
            };
            let e = find_loop_end(&no_label, s, i, 1, shape);
            assert(nested_loop_end(tail) == if e < s.len() {
                Some((e - i) as int)
            } else {
                None::<int>
            });
            if e < s.len() {
                let nested = copy_range(s, i, e + 1);
                extend_toks(&mut out, &nested);
                assert(tail.take(e - i + 1) =~= sv.subrange(i as int, e + 1));
                assert(tail.skip(e - i + 1) =~= sv.skip(e + 1));
                i = e + 1;
                continue;
            }
        }
        match t {
            Tok::Group { delim, stream, span } => {
                proof {
                    broadcast use vstd::std_specs::vec::axiom_vec_index_decreases;
                }
                let inner = label_unlabelled_breaks(stream, label);
                push_group(&mut out, *delim, inner, *span);
            },
            _ => {
                push_clone(&mut out, t);
            },
        }
        i = i + 1;
    }
    assert(sv.skip(i as int).len() == 0);
    assert(toks_view(out@) + Seq::<TokV>::empty() =~= toks_view(out@));
    out
}

/// Whether every `break` in the statements `s` that belongs to the loop
/// whose body they are has a label.
pub open spec fn breaks_labelled(s: Seq<TokV>) -> bool
    decreases s,
{
    if s.len() == 0 {
        true
    } else if starts_unlabelled_break(s) {
        false
    } else if nested_loop_end(s) is Some && 0 <= nested_loop_end(s)->0 < s.len() {
        breaks_labelled(s.skip(nested_loop_end(s)->0 + 1))
    } else {
        match s[0] {
            TokV::Group { stream, .. } => breaks_labelled(stream) && breaks_labelled(
                s.drop_first(),
            ),
            _ => breaks_labelled(s.drop_first()),
        }
    }
}

/// Whether `lifetime` is `'name` for a name that is neither `break` nor a
/// loop keyword.
pub open spec fn is_plain_lifetime(lifetime: Seq<TokV>) -> bool {
    &&& lifetime.len() == 2
    &&& is_punct_v(lifetime[0], '\'')
    &&& lifetime[1] is Ident
    &&& !is_ident_v(lifetime[1], "break"@)
    &&& !is_loop_keyword_v(lifetime[1])
}

/// Whether every `for`, `while` and `loop` keyword in the statements `s`,
/// outside nested loops, starts a loop as `syn` reads it.
pub open spec fn loop_keywords_read(s: Seq<TokV>) -> bool
    decreases s,
{
    if s.len() == 0 {
        true
    } else if starts_unlabelled_break(s) {
        loop_keywords_read(s.drop_first())
    } else if nested_loop_end(s) is Some && 0 <= nested_loop_end(s)->0 < s.len() {
        loop_keywords_read(s.skip(nested_loop_end(s)->0 + 1))
    } else if is_loop_keyword_v(s[0]) {
        false
    } else {
        match s[0] {
            TokV::Group { stream, .. } => loop_keywords_read(stream) && loop_keywords_read(
                s.drop_first(),
            ),
            _ => loop_keywords_read(s.drop_first()),
        }
    }
}

/// The end of a loop is searched for from `j` on.
proof fn lemma_loop_end_from_at_least(l: Seq<TokV>, r: Seq<TokV>, shape: ExprShape, j: int)
    requires
        0 <= j <= r.len(),
    ensures
        j <= loop_end_from(l, r, shape, j),
    decreases r.len() - j,
{
    if j < r.len() {
        lemma_loop_end_from_at_least(l, r, shape, j + 1);
    }
}

/// Searching two token sequences that agree up to `e` for the end of a
/// loop finds the same end at `e`.
proof fn lemma_loop_end_same_prefix(
    l: Seq<TokV>,
    a: Seq<TokV>,
    b: Seq<TokV>,
    shape: ExprShape,
    j: int,
    e: int,
)
    requires
        1 <= j <= e,
        e < a.len(),
        e < b.len(),
        a.take(e + 1) == b.take(e + 1),
        loop_end_from(l, a, shape, j) == e,
    ensures
        loop_end_from(l, b, shape, j) == e,
    decreases e - j,
{
    assert(a[j] == a.take(e + 1)[j]);
    assert(b[j] == b.take(e + 1)[j]);
    assert(a.take(j + 1) =~= a.take(e + 1).take(j + 1));
    assert(b.take(j + 1) =~= b.take(e + 1).take(j + 1));
    lemma_loop_end_from_at_least(l, a, shape, j + 1);
    if j < e {
        lemma_loop_end_same_prefix(l, a, b, shape, j + 1, e);
    }
}

/// After its breaks are labelled, every `break` of a loop body that leaves
/// the loop has a label, where every loop keyword of the body starts a loop
/// as `syn` reads it.
pub proof fn law_labelled_breaks_all_labelled(s: Seq<TokV>, lifetime: Seq<TokV>)
    requires
        is_plain_lifetime(lifetime),
        loop_keywords_read(s),
    ensures
        breaks_labelled(label_breaks_spec(s, lifetime)),
    decreases s,
{
    reveal_strlit("break");
    reveal_strlit("for");
    reveal_strlit("while");
    reveal_strlit("loop");
    assert("break"@.len() == 5 && "for"@.len() == 3 && "while"@.len() == 5 && "loop"@.len() == 4);
    assert("break"@[0] == 'b' && "while"@[0] == 'w');
    if s.len() > 0 {
        let t = s[0];
        let out = label_breaks_spec(s, lifetime);
        if starts_unlabelled_break(s) {
            let rest = s.drop_first();
            law_labelled_breaks_all_labelled(rest, lifetime);
            assert(!is_loop_keyword_v(t));
            let tail = label_breaks_spec(rest, lifetime);
            assert(out =~= seq![t] + lifetime + tail);
            assert(out.drop_first() =~= seq![lifetime[0]] + (seq![lifetime[1]] + tail));
            assert(out.drop_first().drop_first() =~= seq![lifetime[1]] + tail);
            assert((seq![lifetime[1]] + tail).drop_first() =~= tail);
            assert(breaks_labelled(seq![lifetime[1]] + tail));
            assert(out.drop_first()[0] == lifetime[0]);
            assert(breaks_labelled(out.drop_first()));
            assert(out[0] == t);
            assert(out[1] == lifetime[0]);
            assert(breaks_labelled(out));
        } else if nested_loop_end(s) is Some && 0 <= nested_loop_end(s)->0 < s.len() {
            let e = nested_loop_end(s)->0;
            lemma_loop_end_from_at_least(Seq::empty(), s, keyword_shape(t), 1);
            law_labelled_breaks_all_labelled(s.skip(e + 1), lifetime);
            let tail = label_breaks_spec(s.skip(e + 1), lifetime);
            assert(out =~= s.take(e + 1) + tail);
            assert(out.take(e + 1) =~= s.take(e + 1));
            assert(out[0] == t);
            assert(!is_ident_v(t, "break"@));
            lemma_loop_end_same_prefix(Seq::empty(), s, out, keyword_shape(t), 1, e);
            assert(nested_loop_end(out) == Some(e));
            assert(out.skip(e + 1) =~= tail);
        } else {
            let rest = s.drop_first();
            law_labelled_breaks_all_labelled(rest, lifetime);
            let tail = label_breaks_spec(rest, lifetime);
            assert(!is_loop_keyword_v(t));
            match t {
                TokV::Group { delim, stream, span } => {
                    law_labelled_breaks_all_labelled(stream, lifetime);
                    let g = TokV::Group {
                        delim,
                        stream: label_breaks_spec(stream, lifetime),
                        span,
                    };
                    assert(out =~= seq![g] + tail);
                    assert(out.drop_first() =~= tail);
                },
                _ => {
                    assert(out =~= seq![t] + tail);
                    assert(out.drop_first() =~= tail);
                },
            }
        }
    }
}

} // verus!
