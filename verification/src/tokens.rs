//! Token trees: the input and the output of the loop transformations.

use vstd::prelude::*;

verus! {

/// A region of source code that a token came from, with its hygiene.
#[verifier::external_type_specification]
#[verifier::external_body]
pub struct ExSpan(proc_macro2::Span);

/// The delimiters of a group of tokens.
#[derive(Debug, Clone, Copy, PartialEq, Eq, Structural)]
pub enum Delimiter {
    Parenthesis,
    Brace,
    Bracket,
    Invisible,
}

/// One token tree: an identifier (a raw one written with its `r#`), a
/// punctuation character (joint when the next token is a punctuation
/// character glued to it), a literal as written, or a delimited group.
pub enum Tok {
    Ident { text: String, span: proc_macro2::Span },
    Punct { ch: char, joint: bool, span: proc_macro2::Span },
    Literal { text: String, span: proc_macro2::Span },
    Group { delim: Delimiter, stream: Vec<Tok>, span: proc_macro2::Span },
}

/// What a token tree is, with its text as characters.
pub enum TokV {
    Ident { text: Seq<char>, span: proc_macro2::Span },
    Punct { ch: char, joint: bool, span: proc_macro2::Span },
    Literal { text: Seq<char>, span: proc_macro2::Span },
    Group { delim: Delimiter, stream: Seq<TokV>, span: proc_macro2::Span },
}

pub open spec fn tok_view(t: Tok) -> TokV
    decreases t,
{
    match t {
        Tok::Ident { text, span } => TokV::Ident { text: text@, span },
        Tok::Punct { ch, joint, span } => TokV::Punct { ch, joint, span },
        Tok::Literal { text, span } => TokV::Literal { text: text@, span },
        Tok::Group { delim, stream, span } => TokV::Group {
            delim,
            stream: toks_view(stream@),
            span,
        },
    }
}

pub open spec fn toks_view(s: Seq<Tok>) -> Seq<TokV>
    decreases s,
{
    if s.len() == 0 {
        Seq::empty()
    } else {
        seq![tok_view(s[0])] + toks_view(s.drop_first())
    }
}

impl View for Tok {
    type V = TokV;

    open spec fn view(&self) -> TokV {
        tok_view(*self)
    }
}

/// The view of a sequence of token trees has the same length, and views
/// each of them.
pub broadcast proof fn lemma_toks_view(s: Seq<Tok>)
    ensures
        #[trigger] toks_view(s).len() == s.len(),
        forall|i: int| 0 <= i < s.len() ==> #[trigger] toks_view(s)[i] == tok_view(s[i]),
    decreases s.len(),
{
    if s.len() > 0 {
        lemma_toks_view(s.drop_first());
        assert forall|i: int| 0 <= i < s.len() implies #[trigger] toks_view(s)[i] == tok_view(
            s[i],
        ) by {
            if i > 0 {
                assert(s.drop_first()[i - 1] == s[i]);
            }
        }
    }
}

/// Viewing a concatenation is concatenating the views.
pub proof fn lemma_toks_view_add(a: Seq<Tok>, b: Seq<Tok>)
    ensures
        toks_view(a + b) == toks_view(a) + toks_view(b),
{
    lemma_toks_view(a);
    lemma_toks_view(b);
    lemma_toks_view(a + b);
    assert(toks_view(a + b) =~= toks_view(a) + toks_view(b)) by {
        assert forall|i: int| 0 <= i < a.len() + b.len() implies toks_view(a + b)[i] == (
        toks_view(a) + toks_view(b))[i] by {
            if i < a.len() {
                assert((a + b)[i] == a[i]);
            } else {
                assert((a + b)[i] == b[i - a.len()]);
            }
        }
    }
}

/// Viewing a sequence with one more token is viewing the sequence and the
/// token.
pub proof fn lemma_toks_view_push(a: Seq<Tok>, t: Tok)
    ensures
        toks_view(a.push(t)) == toks_view(a).push(tok_view(t)),
{
    lemma_toks_view(a);
    lemma_toks_view(a.push(t));
    assert(toks_view(a.push(t)) =~= toks_view(a).push(tok_view(t)));
}

/// Viewing a part of a sequence is taking that part of the view.
pub proof fn lemma_toks_view_subrange(a: Seq<Tok>, i: int, j: int)
    requires
        0 <= i <= j <= a.len(),
    ensures
        toks_view(a.subrange(i, j)) == toks_view(a).subrange(i, j),
{
    lemma_toks_view(a);
    lemma_toks_view(a.subrange(i, j));
    assert(toks_view(a.subrange(i, j)) =~= toks_view(a).subrange(i, j));
}

/// A copy of a token tree.
pub fn tok_clone(t: &Tok) -> (r: Tok)
    ensures
        r@ == t@,
    decreases t,
{
    match t {
        Tok::Ident { text, span } => Tok::Ident { text: text.clone(), span: *span },
        Tok::Punct { ch, joint, span } => Tok::Punct { ch: *ch, joint: *joint, span: *span },
        Tok::Literal { text, span } => Tok::Literal { text: text.clone(), span: *span },
        Tok::Group { delim, stream, span } => {
            let inner = toks_clone(stream);
            Tok::Group { delim: *delim, stream: inner, span: *span }
        },
    }
}

/// A copy of a sequence of token trees.
pub fn toks_clone(v: &Vec<Tok>) -> (r: Vec<Tok>)
    ensures
        toks_view(r@) == toks_view(v@),
    decreases v,
{
    let mut out: Vec<Tok> = Vec::new();
    let mut i: usize = 0;
    while i < v.len()
        invariant
            i <= v.len(),
            toks_view(out@) == toks_view(v@.subrange(0, i as int)),
        decreases v.len() - i,
    {
        proof {
            broadcast use vstd::std_specs::vec::axiom_vec_index_decreases;
        }
        let t = tok_clone(&v[i]);
        proof {
            lemma_toks_view_push(out@, t);
            lemma_toks_view_push(v@.subrange(0, i as int), v@[i as int]);
            assert(v@.subrange(0, i as int).push(v@[i as int]) =~= v@.subrange(0, i + 1));
        }
        out.push(t);
        i = i + 1;
    }
    assert(v@.subrange(0, i as int) =~= v@);
    out
}

/// Appends copies of the token trees of `src` to `out`.
pub fn extend_toks(out: &mut Vec<Tok>, src: &Vec<Tok>)
    ensures
        toks_view(final(out)@) == toks_view(old(out)@) + toks_view(src@),
{
    let mut i: usize = 0;
    while i < src.len()
        invariant
            i <= src.len(),
            toks_view(out@) == toks_view(old(out)@) + toks_view(src@.subrange(0, i as int)),
        decreases src.len() - i,
    {
        let t = tok_clone(&src[i]);
        proof {
            lemma_toks_view_push(out@, t);
            lemma_toks_view_push(src@.subrange(0, i as int), src@[i as int]);
            assert(src@.subrange(0, i as int).push(src@[i as int]) =~= src@.subrange(0, i + 1));
        }
        out.push(t);
        i = i + 1;
    }
    assert(src@.subrange(0, i as int) =~= src@);
}

/// The two spans that generated tokens carry: `mixed` for the names that
/// the transformations introduce (hygienic like `macro_rules!` locals), and
/// `call` for keywords and punctuation (resolved where the macro is called).
#[derive(Clone, Copy)]
pub struct Spans {
    pub mixed: proc_macro2::Span,
    pub call: proc_macro2::Span,
}

/// `proc_macro2::Span::mixed_site`: a span with the hygiene of a
/// `macro_rules!` definition site. Nothing is claimed of the value.
#[verifier::external_body]
pub(crate) fn mixed_site_span() -> proc_macro2::Span {
    proc_macro2::Span::mixed_site()
}

/// `proc_macro2::Span::call_site`: the span of the macro invocation.
/// Nothing is claimed of the value.
#[verifier::external_body]
pub(crate) fn call_site_span() -> proc_macro2::Span {
    proc_macro2::Span::call_site()
}

/// The spans that this macro invocation gives to generated tokens.
pub fn current_spans() -> Spans {
    Spans { mixed: mixed_site_span(), call: call_site_span() }
}

/// An identifier token.
pub open spec fn ident_v(text: Seq<char>, span: proc_macro2::Span) -> TokV {
    TokV::Ident { text, span }
}

/// A punctuation token that stands alone.
pub open spec fn punct_v(ch: char, span: proc_macro2::Span) -> TokV {
    TokV::Punct { ch, joint: false, span }
}

/// A group token.
pub open spec fn group_v(delim: Delimiter, stream: Seq<TokV>, span: proc_macro2::Span) -> TokV {
    TokV::Group { delim, stream, span }
}

/// Whether `t` is the identifier `text`.
pub open spec fn is_ident_v(t: TokV, text: Seq<char>) -> bool {
    t matches TokV::Ident { text: tt, .. } && tt == text
}

/// Whether `t` is the punctuation character `ch`.
pub open spec fn is_punct_v(t: TokV, ch: char) -> bool {
    t matches TokV::Punct { ch: c, .. } && c == ch
}

/// Whether `t` is a group delimited by `delim`.
pub open spec fn is_group_v(t: TokV, delim: Delimiter) -> bool {
    t matches TokV::Group { delim: d, .. } && d == delim
}

/// Whether the token `t` is the identifier `text`.
pub fn is_ident(t: &Tok, text: &str) -> (r: bool)
    ensures
        r == is_ident_v(t@, text@),
{
    match t {
        Tok::Ident { text: tt, .. } => *tt == text.to_owned(),
        _ => false,
    }
}

/// Whether the token `t` is the punctuation character `ch`.
pub fn is_punct(t: &Tok, ch: char) -> (r: bool)
    ensures
        r == is_punct_v(t@, ch),
{
    match t {
        Tok::Punct { ch: c, .. } => *c == ch,
        _ => false,
    }
}

/// Whether the token `t` is a group delimited by `delim`.
pub fn is_group(t: &Tok, delim: Delimiter) -> (r: bool)
    ensures
        r == is_group_v(t@, delim),
{
    match t {
        Tok::Group { delim: d, .. } => *d == delim,
        _ => false,
    }
}

/// Appends the identifier `text`.
pub fn push_ident(out: &mut Vec<Tok>, text: &str, span: proc_macro2::Span)
    ensures
        toks_view(final(out)@) == toks_view(old(out)@).push(ident_v(text@, span)),
{
    let t = Tok::Ident { text: text.to_owned(), span };
    proof {
        lemma_toks_view_push(out@, t);
    }
    out.push(t);
}

/// Appends the identifier `text`.
pub fn push_ident_string(out: &mut Vec<Tok>, text: String, span: proc_macro2::Span)
    ensures
        toks_view(final(out)@) == toks_view(old(out)@).push(ident_v(text@, span)),
{
    let t = Tok::Ident { text, span };
    proof {
        lemma_toks_view_push(out@, t);
    }
    out.push(t);
}

/// Appends the punctuation character `ch`, standing alone.
pub fn push_punct(out: &mut Vec<Tok>, ch: char, span: proc_macro2::Span)
    ensures
        toks_view(final(out)@) == toks_view(old(out)@).push(punct_v(ch, span)),
{
    let t = Tok::Punct { ch, joint: false, span };
    proof {
        lemma_toks_view_push(out@, t);
    }
    out.push(t);
}

/// Appends the punctuation character `ch`, glued to the next one.
pub fn push_joint_punct(out: &mut Vec<Tok>, ch: char, span: proc_macro2::Span)
    ensures
        toks_view(final(out)@) == toks_view(old(out)@).push(
            TokV::Punct { ch, joint: true, span },
        ),
{
    let t = Tok::Punct { ch, joint: true, span };
    proof {
        lemma_toks_view_push(out@, t);
    }
    out.push(t);
}

/// Appends a group of the token trees `stream`.
pub fn push_group(out: &mut Vec<Tok>, delim: Delimiter, stream: Vec<Tok>, span: proc_macro2::Span)
    ensures
        toks_view(final(out)@) == toks_view(old(out)@).push(
            group_v(delim, toks_view(stream@), span),
        ),
{
    let t = Tok::Group { delim, stream, span };
    proof {
        lemma_toks_view_push(out@, t);
    }
    out.push(t);
}

/// Appends a copy of the token tree `t`.
pub fn push_clone(out: &mut Vec<Tok>, t: &Tok)
    ensures
        toks_view(final(out)@) == toks_view(old(out)@).push(t@),
{
    let c = tok_clone(t);
    proof {
        lemma_toks_view_push(out@, c);
    }
    out.push(c);
}

} // verus!
