//! Where a loop ends: the tokens written out as text, and `syn`'s reading
//! of that text as an expression.

use crate::tokens::{is_group, is_group_v, lemma_toks_view, toks_view, Delimiter, Tok, TokV};
use vstd::prelude::*;
use vstd::string::StrSliceExecFns;

verus! {

/// The character that opens a group; an invisible group is written in
/// parentheses, which read back as one group too.
pub open spec fn open_char(d: Delimiter) -> char {
    match d {
        Delimiter::Parenthesis => '(',
        Delimiter::Brace => '{',
        Delimiter::Bracket => '[',
        Delimiter::Invisible => '(',
    }
}

/// The character that closes a group.
pub open spec fn close_char(d: Delimiter) -> char {
    match d {
        Delimiter::Parenthesis => ')',
        Delimiter::Brace => '}',
        Delimiter::Bracket => ']',
        Delimiter::Invisible => ')',
    }
}

/// What follows a token in the text: nothing after punctuation glued to the
/// next token, a space otherwise.
pub open spec fn gap_after(t: TokV) -> Seq<char> {
    if t is Punct && t->Punct_joint {
        Seq::empty()
    } else {
        seq![' ']
    }
}

/// The text of the token tree `t`.
pub open spec fn tok_text(t: TokV) -> Seq<char>
    decreases t,
{
    match t {
        TokV::Ident { text, .. } => text,
        TokV::Punct { ch, .. } => seq![ch],
        TokV::Literal { text, .. } => text,
        TokV::Group { delim, stream, .. } => seq![open_char(delim)] + toks_text(stream) + seq![
            close_char(delim),
        ],
    }
}

/// The text of the token trees `s`, each followed by its gap.
pub open spec fn toks_text(s: Seq<TokV>) -> Seq<char>
    decreases s,
{
    if s.len() == 0 {
        Seq::empty()
    } else {
        toks_text(s.drop_last()) + tok_text(s.last()) + gap_after(s.last())
    }
}

/// What an expression is, as far as reading a loop needs.
#[derive(Debug, Clone, Copy, PartialEq, Eq, Structural)]
pub enum ExprShape {
    ForLoop,
    While,
    Loop,
    Other,
}

/// What `syn` reads the text `text` as when it parses all of it as one
/// expression (`syn::parse_str::<syn::Expr>`): a `for` loop, a `while`
/// loop, a `loop`, or anything else, which includes text that is no
/// expression. A name for that call; nothing else is claimed of it.
pub uninterp spec fn syn_expr_shape(text: Seq<char>) -> ExprShape;

/// `syn::parse_str::<syn::Expr>` on the text `text`, reduced to the kind of
/// loop it reads.
#[verifier::external_body]
fn parse_expr_shape(text: &Vec<char>) -> (r: ExprShape)
    ensures
        r == syn_expr_shape(text@),
{
    let text: String = text.iter().collect();
    match syn::parse_str::<syn::Expr>(&text) {
        Ok(syn::Expr::ForLoop(_)) => ExprShape::ForLoop,
        Ok(syn::Expr::While(_)) => ExprShape::While,
        Ok(syn::Expr::Loop(_)) => ExprShape::Loop,
        _ => ExprShape::Other,
    }
}

/// Appends the characters of `s`.
fn push_chars(out: &mut Vec<char>, s: &String)
    ensures
        final(out)@ == old(out)@ + s@,
{
    let n = s.as_str().unicode_len();
    let mut i: usize = 0;
    while i < n
        invariant
            n == s@.len(),
            i <= n,
            out@ == old(out)@ + s@.take(i as int),
        decreases n - i,
    {
        let c = s.as_str().get_char(i);
        out.push(c);
        assert(s@.take(i + 1) =~= s@.take(i as int).push(c));
        i = i + 1;
    }
    assert(s@.take(n as int) =~= s@);
}

/// Appends the text of the token tree `t`.
fn push_tok_text(out: &mut Vec<char>, t: &Tok)
    ensures
        final(out)@ == old(out)@ + tok_text(t@),
    decreases t,
{
    match t {
        Tok::Ident { text, .. } => push_chars(out, text),
        Tok::Punct { ch, .. } => {
            out.push(*ch);
        },
        Tok::Literal { text, .. } => push_chars(out, text),
        Tok::Group { delim, stream, .. } => {
            let (o, c) = match delim {
                Delimiter::Parenthesis => ('(', ')'),
                Delimiter::Brace => ('{', '}'),
                Delimiter::Bracket => ('[', ']'),
                Delimiter::Invisible => ('(', ')'),
            };
            out.push(o);
            push_toks_text(out, stream, 0, stream.len());
            proof {
                assert(stream@.subrange(0, stream@.len() as int) =~= stream@);
            }
            out.push(c);
        },
    }
    assert(out@ =~= old(out)@ + tok_text(t@));
}

/// Appends the text of the token trees of `s` from `a` up to `e`.
fn push_toks_text(out: &mut Vec<char>, s: &Vec<Tok>, a: usize, e: usize)
    requires
        a <= e <= s.len(),
    ensures
        final(out)@ == old(out)@ + toks_text(toks_view(s@.subrange(a as int, e as int))),
    decreases s,
{
    let mut i = a;
    proof {
        assert(s@.subrange(a as int, a as int) =~= Seq::<Tok>::empty());
        lemma_toks_view(Seq::<Tok>::empty());
        assert(toks_view(Seq::<Tok>::empty()) =~= Seq::<TokV>::empty());
        assert(out@ =~= old(out)@ + toks_text(toks_view(s@.subrange(a as int, a as int))));
    }
    while i < e
        invariant
            a <= i <= e <= s.len(),
            out@ == old(out)@ + toks_text(toks_view(s@.subrange(a as int, i as int))),
        decreases e - i,
    {
        proof {
            broadcast use vstd::std_specs::vec::axiom_vec_index_decreases;
        }
        let ghost before = out@;
        push_tok_text(out, &s[i]);
        let ghost t = toks_view(s@.subrange(a as int, i + 1));
        proof {
            lemma_toks_view(s@.subrange(a as int, i + 1));
            lemma_toks_view(s@.subrange(a as int, i as int));
            assert(t.drop_last() =~= toks_view(s@.subrange(a as int, i as int)));
            assert(t.last() == s@[i as int]@);
        }
        match &s[i] {
            Tok::Punct { joint: true, .. } => {},
            _ => {
                out.push(' ');
            },
        }
        assert(out@ =~= old(out)@ + toks_text(t));
        i = i + 1;
    }
}

/// The text of the label `label` followed by the tokens of `s` from `b`
/// up to and with `j`.
fn loop_text(label: &Vec<Tok>, s: &Vec<Tok>, b: usize, j: usize) -> (r: Vec<char>)
    requires
        b <= j < s.len(),
    ensures
        r@ == toks_text(toks_view(label@)) + toks_text(toks_view(s@).skip(b as int).take(j - b + 1)),
{
    let mut out: Vec<char> = Vec::new();
    push_toks_text(&mut out, label, 0, label.len());
    push_toks_text(&mut out, s, b, j + 1);
    proof {
        assert(label@.subrange(0, label@.len() as int) =~= label@);
        lemma_toks_view(s@);
        lemma_toks_view(s@.subrange(b as int, j + 1));
        assert(toks_view(s@.subrange(b as int, j + 1)) =~= toks_view(s@).skip(b as int).take(
            j - b + 1,
        ));
    }
    out
}

/// The index of the first braced group of `r` at `j` or after with which
/// the label `label` and the tokens of `r` up to it read, for `syn`, as one
/// whole loop of the shape `shape`; the length of `r` where there is none.
/// A loop ends with its body, and the first such group is where `syn`
/// ends the loop when it reads the tokens in order: a shorter candidate
/// would read as a whole loop only if its head were a whole expression,
/// and `syn` does not carry such an expression on into a brace.
pub open spec fn loop_end_from(label: Seq<TokV>, r: Seq<TokV>, shape: ExprShape, j: int) -> int
    decreases r.len() - j,
{
    if j < 0 || j >= r.len() {
        r.len() as int
    } else if is_group_v(r[j], Delimiter::Brace) && syn_expr_shape(
        toks_text(label) + toks_text(r.take(j + 1)),
    ) == shape {
        j
    } else {
        loop_end_from(label, r, shape, j + 1)
    }
}

/// The end of a loop that the search finds is a braced group.
pub proof fn lemma_loop_end_is_brace(l: Seq<TokV>, r: Seq<TokV>, shape: ExprShape, j: int)
    requires
        0 <= j,
        loop_end_from(l, r, shape, j) < r.len(),
    ensures
        is_group_v(r[loop_end_from(l, r, shape, j)], Delimiter::Brace),
    decreases r.len() - j,
{
    if j < r.len() && !(is_group_v(r[j], Delimiter::Brace) && syn_expr_shape(
        toks_text(l) + toks_text(r.take(j + 1)),
    ) == shape) {
        lemma_loop_end_is_brace(l, r, shape, j + 1);
    }
}

/// The index in `s` of the group that ends the loop of the shape `shape`
/// with the label `label` whose tokens start at `b`, searched from `b +
/// from` on; the length of `s` where there is none.
pub fn find_loop_end(label: &Vec<Tok>, s: &Vec<Tok>, b: usize, from: usize, shape: ExprShape) -> (r:
    usize)
    requires
        b <= s.len(),
        from <= s.len() - b,
    ensures
        r == b + loop_end_from(toks_view(label@), toks_view(s@).skip(b as int), shape, from as int),
        b + from <= r <= s.len(),
{
    let ghost lv = toks_view(label@);
    let ghost r = toks_view(s@).skip(b as int);
    proof {
        lemma_toks_view(s@);
    }
    let mut j = b + from;
    while j < s.len()
        invariant
            b + from <= j <= s.len(),
            r == toks_view(s@).skip(b as int),
            r.len() == s.len() - b,
            lv == toks_view(label@),
            loop_end_from(lv, r, shape, from as int) == loop_end_from(lv, r, shape, j - b),
        decreases s.len() - j,
    {
        proof {
            lemma_toks_view(s@);
        }
        assert(r[j - b] == s@[j as int]@);
        if is_group(&s[j], Delimiter::Brace) {
            let text = loop_text(label, s, b, j);
            if parse_expr_shape(&text) == shape {
                return j;
            }
        }
        j = j + 1;
    }
    j
}

} // verus!
