//! Reading the macro's input: the attribute, its parameters, and the loop.

use crate::loop_xform::loop_text::{find_loop_end, lemma_loop_end_is_brace, loop_end_from, ExprShape};
use crate::loop_xform::numbers::{dec_string, law_read_what_is_written, parse_usize, parse_usize_spec};
use crate::loop_xform::{
    AttrName, ForLoop, Item, ItemV, Loop, LoopPeelParams, LoopUnrollParams, LoopV, LoopXFormParams,
    LoopXformError, PlainLoop, UnrollMethod, WhileLoop,
};
use crate::tokens::{
    is_group, is_group_v, is_ident, is_ident_v, is_punct, is_punct_v, lemma_toks_view,
    lemma_toks_view_push, lemma_toks_view_subrange, tok_clone, toks_clone, toks_view, Delimiter,
    Tok, TokV,
};
use vstd::prelude::*;
use vstd::string::{StrSliceExecFns, StringExecFns};

verus! {

/// The tokens inside the group `t`; nothing where `t` is no group.
pub open spec fn group_stream(t: TokV) -> Seq<TokV> {
    match t {
        TokV::Group { stream, .. } => stream,
        _ => Seq::empty(),
    }
}

/// How many outer attributes `# [ .. ]` the tokens `s` start with; an
/// error where a `#` is not followed by a bracketed group.
pub open spec fn outer_attr_count(s: Seq<TokV>) -> Result<nat, LoopXformError>
    decreases s.len(),
{
    if s.len() > 0 && is_punct_v(s[0], '#') {
        if s.len() > 1 && is_group_v(s[1], Delimiter::Bracket) {
            match outer_attr_count(s.skip(2)) {
                Ok(n) => Ok(n + 1),
                Err(e) => Err(e),
            }
        } else if s.len() == 1 {
            Err(LoopXformError::ExpectedSquareBracketsAtEnd)
        } else {
            Err(LoopXformError::ExpectedSquareBrackets)
        }
    } else {
        Ok(0)
    }
}

/// The shape of an attribute's contents: a bare name, a name with a group
/// of arguments, a name with `= value`, or anything else.
pub enum MetaV {
    Path(Seq<char>),
    List(Seq<char>, Seq<TokV>),
    NameValue(Seq<char>),
    Other,
}

pub open spec fn meta_of(c: Seq<TokV>) -> MetaV {
    if c.len() >= 1 && c[0] is Ident {
        let n = c[0]->Ident_text;
        if c.len() == 1 {
            MetaV::Path(n)
        } else if c.len() == 2 && c[1] is Group {
            MetaV::List(n, group_stream(c[1]))
        } else if c.len() >= 3 && is_punct_v(c[1], '=') {
            MetaV::NameValue(n)
        } else {
            MetaV::Other
        }
    } else {
        MetaV::Other
    }
}

/// What `syn` reads from the literal written `text` when it is an integer
/// literal: its value in decimal digits (with a `-` in front for a negative
/// one) and its type suffix. A name for `syn::Lit::new`; nothing else is
/// claimed of it.
pub uninterp spec fn int_literal_split(text: Seq<char>) -> Option<(Seq<char>, Seq<char>)>;

/// `syn::Lit::new` on the literal `text` (read back with `proc_macro2`'s
/// `Literal::from_str`): the decimal digits and the suffix of an integer
/// literal, nothing for any other literal.
#[verifier::external_body]
fn split_int_literal(text: &String) -> (r: Option<(String, String)>)
    ensures
        match r {
            Some((d, s)) => int_literal_split(text@) == Some((d@, s@)),
            None => int_literal_split(text@) is None,
        },
{
    let lit: proc_macro2::Literal = text.parse().ok()?;
    match syn::Lit::new(lit) {
        syn::Lit::Int(i) => Some((i.base10_digits().to_owned(), i.suffix().to_owned())),
        _ => None,
    }
}

/// The literal that the tokens `c` start with, written out, and how many
/// tokens it takes: a literal token, a `-` and a literal token, or a
/// literal alone in an invisible group.
pub open spec fn literal_head(c: Seq<TokV>) -> Option<(Seq<char>, nat)> {
    if c.len() >= 1 && c[0] is Literal {
        Some((c[0]->Literal_text, 1))
    } else if c.len() >= 2 && is_punct_v(c[0], '-') && c[1] is Literal {
        Some((seq!['-'] + c[1]->Literal_text, 2))
    } else if c.len() >= 1 && is_group_v(c[0], Delimiter::Invisible) && group_stream(c[0]).len()
        == 1 && group_stream(c[0])[0] is Literal {
        Some((group_stream(c[0])[0]->Literal_text, 1))
    } else {
        None
    }
}

/// The integer literal that the tokens `c` start with: its digits, its
/// suffix, and how many tokens it takes.
pub open spec fn int_literal_head(c: Seq<TokV>) -> Option<(Seq<char>, Seq<char>, nat)> {
    match literal_head(c) {
        Some((text, k)) => match int_literal_split(text) {
            Some((d, s)) => Some((d, s, k)),
            None => None,
        },
        None => None,
    }
}

/// The method in the arguments `c` of `method(..)`.
pub open spec fn method_value(c: Seq<TokV>) -> Result<UnrollMethod, LoopXformError> {
    if c.len() > 0 && is_ident_v(c[0], "runtime"@) {
        if c.len() > 1 {
            Err(LoopXformError::UnrollMethodGarbage)
        } else {
            Ok(UnrollMethod::Runtime)
        }
    } else if c.len() > 0 && is_ident_v(c[0], "with_remainder"@) {
        if c.len() > 1 {
            Err(LoopXformError::UnrollMethodGarbage)
        } else {
            Ok(UnrollMethod::WithRemainder)
        }
    } else if c.len() == 0 {
        Err(LoopXformError::InvalidUnrollMethodAtEnd)
    } else {
        Err(LoopXformError::InvalidUnrollMethod)
    }
}

/// The unroll factor that an integer literal with the digits `d` and the
/// suffix `suffix` gives, with more tokens after it where `garbage` holds.
pub open spec fn factor_of_literal(d: Seq<char>, suffix: Seq<char>, garbage: bool) -> Result<
    usize,
    LoopXformError,
> {
    if suffix.len() > 0 {
        Err(LoopXformError::FactorSuffix)
    } else if garbage {
        Err(LoopXformError::FactorGarbage)
    } else {
        match parse_usize_spec(d) {
            Err(kind) => Err(LoopXformError::InvalidNumber(kind)),
            Ok(n) => if n < 1 {
                Err(LoopXformError::FactorZero)
            } else {
                Ok(n)
            },
        }
    }
}

/// The count in the arguments `c` of `factor(..)`.
pub open spec fn factor_value(c: Seq<TokV>) -> Result<usize, LoopXformError> {
    match int_literal_head(c) {
        None => if c.len() == 0 {
            Err(LoopXformError::ExpectedIntegerLiteralAtEnd)
        } else {
            Err(LoopXformError::ExpectedIntegerLiteral)
        },
        Some((d, suffix, k)) => factor_of_literal(d, suffix, c.len() > k),
    }
}

/// The peel count that an integer literal with the digits `d` and the
/// suffix `suffix` gives, with more tokens after it where `garbage` holds.
pub open spec fn peel_count_of_literal(d: Seq<char>, suffix: Seq<char>, garbage: bool) -> Result<
    usize,
    LoopXformError,
> {
    if suffix.len() > 0 {
        Err(LoopXformError::PeelCountSuffix)
    } else if garbage {
        Err(LoopXformError::PeelCountGarbage)
    } else {
        match parse_usize_spec(d) {
            Err(kind) => Err(LoopXformError::InvalidNumber(kind)),
            Ok(n) => if n < 1 {
                Err(LoopXformError::PeelCountZero)
            } else {
                Ok(n)
            },
        }
    }
}

/// The count in the arguments `c` of `loop_peel(..)`.
pub open spec fn peel_count_value(c: Seq<TokV>) -> Result<usize, LoopXformError> {
    match int_literal_head(c) {
        None => Err(LoopXformError::MissingPeelCount),
        Some((d, suffix, k)) => peel_count_of_literal(d, suffix, c.len() > k),
    }
}

/// Reads `method(..)` from the tokens `b` after the name, when `method`
/// was found as given before.
pub open spec fn method_step(b: Seq<TokV>, method: Option<UnrollMethod>) -> Result<
    UnrollMethod,
    LoopXformError,
> {
    if method is Some {
        Err(LoopXformError::DuplicateMethod)
    } else if b.len() == 0 {
        Err(LoopXformError::ExpectedParenthesesArgumentAtEnd)
    } else if !is_group_v(b[0], Delimiter::Parenthesis) {
        Err(LoopXformError::ExpectedParenthesesArgument)
    } else {
        method_value(group_stream(b[0]))
    }
}

/// Reads `factor(..)` from the tokens `b` after the name, when `factor`
/// was found as given before.
pub open spec fn factor_step(b: Seq<TokV>, factor: Option<usize>) -> Result<
    usize,
    LoopXformError,
> {
    if factor is Some {
        Err(LoopXformError::DuplicateFactor)
    } else if b.len() == 0 {
        Err(LoopXformError::ExpectedParenthesesArgumentAtEnd)
    } else if !is_group_v(b[0], Delimiter::Parenthesis) {
        Err(LoopXformError::ExpectedParenthesesArgument)
    } else {
        factor_value(group_stream(b[0]))
    }
}

/// Whether the tokens `a` start with `name ::`, a path of several parts.
pub open spec fn starts_long_path(a: Seq<TokV>) -> bool {
    a.len() >= 3 && a[1] == (TokV::Punct { ch: ':', joint: true, span: a[1]->Punct_span })
        && is_punct_v(a[2], ':')
}

/// Reads the parameters `a` of `loop_unroll(..)`, `name(args)` separated
/// by commas, after `method` and `factor` were found as given.
pub open spec fn unroll_args_spec(
    a: Seq<TokV>,
    method: Option<UnrollMethod>,
    factor: Option<usize>,
) -> Result<(Option<UnrollMethod>, Option<usize>), LoopXformError>
    decreases a.len(),
{
    if a.len() == 0 {
        Ok((method, factor))
    } else if a[0] is Literal {
        Err(LoopXformError::UnexpectedLiteralInNestedAttribute)
    } else if !(a[0] is Ident) {
        Err(LoopXformError::UnexpectedTokenInNestedAttribute)
    } else if starts_long_path(a) {
        Err(LoopXformError::UnrecognizedParameter)
    } else {
        let name = a[0]->Ident_text;
        let step: Result<(Option<UnrollMethod>, Option<usize>), LoopXformError> = if name
            == "method"@ {
            match method_step(a.drop_first(), method) {
                Ok(m) => Ok((Some(m), factor)),
                Err(e) => Err(e),
            }
        } else if name == "factor"@ {
            match factor_step(a.drop_first(), factor) {
                Ok(f) => Ok((method, Some(f))),
                Err(e) => Err(e),
            }
        } else {
            Err(LoopXformError::UnrecognizedParameter)
        };
        match step {
            Err(e) => Err(e),
            Ok((m, f)) => {
                let r = a.skip(2);
                if r.len() == 0 {
                    Ok((m, f))
                } else if is_punct_v(r[0], ',') {
                    unroll_args_spec(r.drop_first(), m, f)
                } else {
                    Err(LoopXformError::ExpectedComma)
                }
            },
        }
    }
}

/// The parameters of `loop_unroll(..)` with the arguments `a`.
pub open spec fn unroll_params_spec(a: Seq<TokV>) -> Result<LoopUnrollParams, LoopXformError> {
    match unroll_args_spec(a, None, None) {
        Err(e) => Err(e),
        Ok((None, _)) => Err(LoopXformError::MissingMethod),
        Ok((Some(_), None)) => Err(LoopXformError::MissingFactor),
        Ok((Some(m), Some(f))) => Ok(LoopUnrollParams { unroll_method: m, unroll_factor: f }),
    }
}

/// The parameters that the attribute with contents `c` gives.
pub open spec fn attr_spec(c: Seq<TokV>) -> Result<LoopXFormParams, LoopXformError> {
    match meta_of(c) {
        MetaV::Path(n) => if n == "loop_unroll"@ {
            Err(LoopXformError::ExpectedArgumentsInParentheses(AttrName::LoopUnroll))
        } else if n == "loop_peel"@ {
            Err(LoopXformError::ExpectedArgumentsInParentheses(AttrName::LoopPeel))
        } else {
            Err(LoopXformError::NotLoopXformAttribute)
        },
        MetaV::NameValue(n) => if n == "loop_unroll"@ {
            Err(LoopXformError::ExpectedParentheses(AttrName::LoopUnroll))
        } else if n == "loop_peel"@ {
            Err(LoopXformError::ExpectedParentheses(AttrName::LoopPeel))
        } else {
            Err(LoopXformError::NotLoopXformAttribute)
        },
        MetaV::List(n, args) => if n == "loop_unroll"@ {
            match unroll_params_spec(args) {
                Ok(p) => Ok(LoopXFormParams::LoopUnroll(p)),
                Err(e) => Err(e),
            }
        } else if n == "loop_peel"@ {
            match peel_count_value(args) {
                Ok(n) => Ok(LoopXFormParams::LoopPeel(LoopPeelParams { peel_count: n })),
                Err(e) => Err(e),
            }
        } else {
            Err(LoopXformError::NotLoopXformAttribute)
        },
        MetaV::Other => Err(LoopXformError::NotLoopXformAttribute),
    }
}

/// `r` with `k` more attributes counted.
pub open spec fn count_plus(r: Result<nat, LoopXformError>, k: nat) -> Result<nat, LoopXformError> {
    match r {
        Ok(n) => Ok(n + k),
        Err(e) => Err(e),
    }
}

/// How many outer attributes the tokens `s` start with.
pub fn outer_attributes(s: &Vec<Tok>) -> (r: Result<usize, LoopXformError>)
    ensures
        match r {
            Ok(n) => outer_attr_count(toks_view(s@)) == Ok::<nat, LoopXformError>(n as nat),
            Err(e) => outer_attr_count(toks_view(s@)) == Err::<nat, LoopXformError>(e),
        },
{
    let ghost sv = toks_view(s@);
    proof {
        lemma_toks_view(s@);
        assert(sv.skip(0) =~= sv);
    }
    let mut i: usize = 0;
    let mut n: usize = 0;
    while i < s.len() && is_punct(&s[i], '#')
        invariant
            sv == toks_view(s@),
            sv.len() == s@.len(),
            forall|k: int| 0 <= k < s@.len() ==> #[trigger] sv[k] == s@[k]@,
            i == 2 * n,
            i <= s.len(),
            outer_attr_count(sv) == count_plus(outer_attr_count(sv.skip(i as int)), n as nat),
        decreases s.len() - i,
    {
        let ghost tail = sv.skip(i as int);
        assert(tail[0] == sv[i as int]);
        if i + 1 < s.len() && is_group(&s[i + 1], Delimiter::Bracket) {
            assert(tail[1] == sv[i + 1]);
            assert(tail.skip(2) =~= sv.skip(i + 2));
            i = i + 2;
            n = n + 1;
        } else {
            assert(tail.len() > 1 ==> tail[1] == sv[i + 1]);
            if i + 1 == s.len() {
                return Err(LoopXformError::ExpectedSquareBracketsAtEnd);
            }
            return Err(LoopXformError::ExpectedSquareBrackets);
        }
    }
    proof {
        let tail = sv.skip(i as int);
        if i < s.len() {
            assert(tail[0] == sv[i as int]);
        }
    }
    Ok(n)
}

/// The literal that the tokens `c` start with, written out, and how many
/// tokens it takes.
fn literal_at(c: &Vec<Tok>) -> (r: Option<(String, usize)>)
    ensures
        match r {
            Some((t, k)) => literal_head(toks_view(c@)) == Some((t@, k as nat)),
            None => literal_head(toks_view(c@)) is None,
        },
{
    let ghost cv = toks_view(c@);
    proof {
        lemma_toks_view(c@);
    }
    if c.len() >= 1 {
        assert(cv[0] == c@[0]@);
        if let Tok::Literal { text, .. } = &c[0] {
            return Some((text.clone(), 1));
        }
    }
    if c.len() >= 2 && is_punct(&c[0], '-') {
        assert(cv[1] == c@[1]@);
        if let Tok::Literal { text, .. } = &c[1] {
            let mut t = "-".to_owned();
            proof {
                reveal_strlit("-");
            }
            t.append(text.as_str());
            return Some((t, 2));
        }
    }
    if c.len() >= 1 {
        if let Tok::Group { delim: Delimiter::Invisible, stream, .. } = &c[0] {
            proof {
                lemma_toks_view(stream@);
            }
            if stream.len() == 1 {
                assert(group_stream(cv[0])[0] == stream@[0]@);
                if let Tok::Literal { text, .. } = &stream[0] {
                    return Some((text.clone(), 1));
                }
            }
        }
    }
    None
}

/// The integer literal that the tokens `c` start with.
fn int_literal_at(c: &Vec<Tok>) -> (r: Option<(String, String, usize)>)
    ensures
        match r {
            Some((d, s, k)) => int_literal_head(toks_view(c@)) == Some((d@, s@, k as nat)),
            None => int_literal_head(toks_view(c@)) is None,
        },
{
    match literal_at(c) {
        None => None,
        Some((text, k)) => match split_int_literal(&text) {
            Some((d, s)) => Some((d, s, k)),
            None => None,
        },
    }
}

/// The method in the arguments `c` of `method(..)`.
fn parse_method_args(c: &Vec<Tok>) -> (r: Result<UnrollMethod, LoopXformError>)
    ensures
        r == method_value(toks_view(c@)),
{
    proof {
        lemma_toks_view(c@);
    }
    if c.len() > 0 && is_ident(&c[0], "runtime") {
        if c.len() > 1 {
            Err(LoopXformError::UnrollMethodGarbage)
        } else {
            Ok(UnrollMethod::Runtime)
        }
    } else if c.len() > 0 && is_ident(&c[0], "with_remainder") {
        if c.len() > 1 {
            Err(LoopXformError::UnrollMethodGarbage)
        } else {
            Ok(UnrollMethod::WithRemainder)
        }
    } else if c.len() == 0 {
        Err(LoopXformError::InvalidUnrollMethodAtEnd)
    } else {
        Err(LoopXformError::InvalidUnrollMethod)
    }
}

/// The unroll factor that the integer literal with the digits `digits` and
/// the suffix `suffix` gives, with more tokens after it where `garbage`
/// holds.
pub fn factor_from_literal(digits: &String, suffix: &String, garbage: bool) -> (r: Result<
    usize,
    LoopXformError,
>)
    ensures
        r == factor_of_literal(digits@, suffix@, garbage),
{
    if suffix.as_str().unicode_len() > 0 {
        Err(LoopXformError::FactorSuffix)
    } else if garbage {
        Err(LoopXformError::FactorGarbage)
    } else {
        match parse_usize(digits) {
            Err(kind) => Err(LoopXformError::InvalidNumber(kind)),
            Ok(n) => if n < 1 {
                Err(LoopXformError::FactorZero)
            } else {
                Ok(n)
            },
        }
    }
}

/// The count in the arguments `c` of `factor(..)`.
fn parse_factor_args(c: &Vec<Tok>) -> (r: Result<usize, LoopXformError>)
    ensures
        r == factor_value(toks_view(c@)),
{
    proof {
        lemma_toks_view(c@);
    }
    match int_literal_at(c) {
        None => if c.len() == 0 {
            Err(LoopXformError::ExpectedIntegerLiteralAtEnd)
        } else {
            Err(LoopXformError::ExpectedIntegerLiteral)
        },
        Some((d, suffix, k)) => factor_from_literal(&d, &suffix, c.len() > k),
    }
}

/// The peel count that the integer literal with the digits `digits` and
/// the suffix `suffix` gives, with more tokens after it where `garbage`
/// holds.
pub fn peel_count_from_literal(digits: &String, suffix: &String, garbage: bool) -> (r: Result<
    usize,
    LoopXformError,
>)
    ensures
        r == peel_count_of_literal(digits@, suffix@, garbage),
{
    if suffix.as_str().unicode_len() > 0 {
        Err(LoopXformError::PeelCountSuffix)
    } else if garbage {
        Err(LoopXformError::PeelCountGarbage)
    } else {
        match parse_usize(digits) {
            Err(kind) => Err(LoopXformError::InvalidNumber(kind)),
            Ok(n) => if n < 1 {
                Err(LoopXformError::PeelCountZero)
            } else {
                Ok(n)
            },
        }
    }
}

/// The count in the arguments `c` of `loop_peel(..)`.
pub fn parse_peel_count(c: &Vec<Tok>) -> (r: Result<usize, LoopXformError>)
    ensures
        r == peel_count_value(toks_view(c@)),
{
    proof {
        lemma_toks_view(c@);
    }
    match int_literal_at(c) {
        None => Err(LoopXformError::MissingPeelCount),
        Some((d, suffix, k)) => peel_count_from_literal(&d, &suffix, c.len() > k),
    }
}

/// Reads `method(..)` from the tokens of `a` after the name at `i`, when
/// `method` was found as given before.
fn parse_method(a: &Vec<Tok>, i: usize, method: Option<UnrollMethod>) -> (r: Result<
    UnrollMethod,
    LoopXformError,
>)
    requires
        i < a.len(),
    ensures
        r == method_step(toks_view(a@).skip(i + 1), method),
{
    let ghost b = toks_view(a@).skip(i + 1);
    proof {
        lemma_toks_view(a@);
    }
    if method.is_some() {
        return Err(LoopXformError::DuplicateMethod);
    }
    if i + 1 == a.len() {
        return Err(LoopXformError::ExpectedParenthesesArgumentAtEnd);
    }
    if !is_group(&a[i + 1], Delimiter::Parenthesis) {
        assert(b[0] == toks_view(a@)[i + 1]);
        return Err(LoopXformError::ExpectedParenthesesArgument);
    }
    assert(b[0] == toks_view(a@)[i + 1]);
    match &a[i + 1] {
        Tok::Group { stream, .. } => parse_method_args(stream),
        _ => Err(LoopXformError::ExpectedParenthesesArgument),
    }
}

/// Reads `factor(..)` from the tokens of `a` after the name at `i`, when
/// `factor` was found as given before.
fn parse_factor(a: &Vec<Tok>, i: usize, factor: Option<usize>) -> (r: Result<
    usize,
    LoopXformError,
>)
    requires
        i < a.len(),
    ensures
        r == factor_step(toks_view(a@).skip(i + 1), factor),
{
    let ghost b = toks_view(a@).skip(i + 1);
    proof {
        lemma_toks_view(a@);
    }
    if factor.is_some() {
        return Err(LoopXformError::DuplicateFactor);
    }
    if i + 1 == a.len() {
        return Err(LoopXformError::ExpectedParenthesesArgumentAtEnd);
    }
    if !is_group(&a[i + 1], Delimiter::Parenthesis) {
        assert(b[0] == toks_view(a@)[i + 1]);
        return Err(LoopXformError::ExpectedParenthesesArgument);
    }
    assert(b[0] == toks_view(a@)[i + 1]);
    match &a[i + 1] {
        Tok::Group { stream, .. } => parse_factor_args(stream),
        _ => Err(LoopXformError::ExpectedParenthesesArgument),
    }
}

/// Reads the parameters `a` of `loop_unroll(..)`.
fn parse_unroll_args(a: &Vec<Tok>) -> (r: Result<
    (Option<UnrollMethod>, Option<usize>),
    LoopXformError,
>)
    ensures
        r == unroll_args_spec(toks_view(a@), None, None),
{
    let ghost av = toks_view(a@);
    proof {
        lemma_toks_view(a@);
        assert(av.skip(0) =~= av);
    }
    let mut method: Option<UnrollMethod> = None;
    let mut factor: Option<usize> = None;
    let mut i: usize = 0;
    loop
        invariant
            av == toks_view(a@),
            av.len() == a@.len(),
            forall|k: int| 0 <= k < a@.len() ==> #[trigger] av[k] == a@[k]@,
            i <= a.len(),
            unroll_args_spec(av, None, None) == unroll_args_spec(av.skip(i as int), method, factor),
        decreases a.len() - i,
    {
        let ghost tail = av.skip(i as int);
        if i == a.len() {
            assert(tail.len() == 0);
            return Ok((method, factor));
        }
        assert(tail[0] == av[i as int]);
        assert(tail.drop_first() =~= av.skip(i + 1));
        match &a[i] {
            Tok::Literal { .. } => {
                return Err(LoopXformError::UnexpectedLiteralInNestedAttribute);
            },
            Tok::Ident { .. } => {},
            _ => {
                return Err(LoopXformError::UnexpectedTokenInNestedAttribute);
            },
        }
        if a.len() - i > 2 && is_punct(&a[i + 2], ':') {
            let joint_colon = match &a[i + 1] {
                Tok::Punct { ch, joint, .. } => *ch == ':' && *joint,
                _ => false,
            };
            assert(tail[1] == av[i + 1] && tail[2] == av[i + 2]);
            if joint_colon {
                return Err(LoopXformError::UnrecognizedParameter);
            }
        }
        assert(!starts_long_path(tail)) by {
            if tail.len() >= 3 {
                assert(tail[1] == av[i + 1] && tail[2] == av[i + 2]);
            }
        }
        if is_ident(&a[i], "method") {
            match parse_method(a, i, method) {
                Ok(m) => {
                    method = Some(m);
                },
                Err(e) => {
                    return Err(e);
                },
            }
        } else if is_ident(&a[i], "factor") {
            match parse_factor(a, i, factor) {
                Ok(f) => {
                    factor = Some(f);
                },
                Err(e) => {
                    return Err(e);
                },
            }
        } else {
            return Err(LoopXformError::UnrecognizedParameter);
        }
        assert(tail.skip(2) =~= av.skip(i + 2));
        if i + 2 == a.len() {
            return Ok((method, factor));
        }
        assert(av.skip(i + 2)[0] == av[i + 2]);
        if is_punct(&a[i + 2], ',') {
            assert(av.skip(i + 2).drop_first() =~= av.skip(i + 3));
            i = i + 3;
        } else {
            return Err(LoopXformError::ExpectedComma);
        }
    }
}

/// The parameters of `loop_unroll(..)` with the arguments `args`.
pub fn parse_unroll_attr(args: &Vec<Tok>) -> (r: Result<LoopUnrollParams, LoopXformError>)
    ensures
        r == unroll_params_spec(toks_view(args@)),
{
    match parse_unroll_args(args) {
        Err(e) => Err(e),
        Ok((None, _)) => Err(LoopXformError::MissingMethod),
        Ok((Some(_), None)) => Err(LoopXformError::MissingFactor),
        Ok((Some(m), Some(f))) => Ok(LoopUnrollParams { unroll_method: m, unroll_factor: f }),
    }
}

/// The parameters of `loop_peel(..)` with the arguments `args`.
pub fn parse_peel_attr(args: &Vec<Tok>) -> (r: Result<LoopPeelParams, LoopXformError>)
    ensures
        match peel_count_value(toks_view(args@)) {
            Ok(n) => r == Ok::<LoopPeelParams, LoopXformError>(LoopPeelParams { peel_count: n }),
            Err(e) => r == Err::<LoopPeelParams, LoopXformError>(e),
        },
{
    match parse_peel_count(args) {
        Ok(peel_count) => Ok(LoopPeelParams { peel_count }),
        Err(e) => Err(e),
    }
}

/// The parameters that the attribute with contents `c` gives.
pub fn parse_attr(c: &Vec<Tok>) -> (r: Result<LoopXFormParams, LoopXformError>)
    ensures
        r == attr_spec(toks_view(c@)),
{
    let ghost cv = toks_view(c@);
    proof {
        lemma_toks_view(c@);
    }
    if c.len() >= 1 {
        assert(cv[0] == c@[0]@);
        if let Tok::Ident { text, .. } = &c[0] {
            let is_unroll = *text == "loop_unroll".to_owned();
            let is_peel = *text == "loop_peel".to_owned();
            if c.len() == 1 {
                if is_unroll {
                    return Err(LoopXformError::ExpectedArgumentsInParentheses(AttrName::LoopUnroll));
                } else if is_peel {
                    return Err(LoopXformError::ExpectedArgumentsInParentheses(AttrName::LoopPeel));
                } else {
                    return Err(LoopXformError::NotLoopXformAttribute);
                }
            }
            assert(cv[1] == c@[1]@);
            if c.len() == 2 {
                if let Tok::Group { stream, .. } = &c[1] {
                    if is_unroll {
                        return match parse_unroll_attr(stream) {
                            Ok(p) => Ok(LoopXFormParams::LoopUnroll(p)),
                            Err(e) => Err(e),
                        };
                    } else if is_peel {
                        return match parse_peel_attr(stream) {
                            Ok(p) => Ok(LoopXFormParams::LoopPeel(p)),
                            Err(e) => Err(e),
                        };
                    } else {
                        return Err(LoopXformError::NotLoopXformAttribute);
                    }
                }
                return Err(LoopXformError::NotLoopXformAttribute);
            }
            if is_punct(&c[1], '=') {
                if is_unroll {
                    return Err(LoopXformError::ExpectedParentheses(AttrName::LoopUnroll));
                } else if is_peel {
                    return Err(LoopXformError::ExpectedParentheses(AttrName::LoopPeel));
                } else {
                    return Err(LoopXformError::NotLoopXformAttribute);
                }
            }
        }
    }
    Err(LoopXformError::NotLoopXformAttribute)
}

/// The index of the first identifier `in` in `s` at `i` or after; the
/// length of `s` where there is none.
pub open spec fn first_in_from(s: Seq<TokV>, i: int) -> int
    decreases s.len() - i,
{
    if i < 0 || i >= s.len() {
        s.len() as int
    } else if is_ident_v(s[i], "in"@) {
        i
    } else {
        first_in_from(s, i + 1)
    }
}

/// How many tokens the label that `s` starts with takes: three for
/// `'name :`, none where `s` starts with no label.
pub open spec fn label_len(s: Seq<TokV>) -> nat {
    if s.len() >= 3 && s[0] is Punct && s[0]->Punct_ch == '\'' && s[0]->Punct_joint && s[1] is Ident
        && is_punct_v(s[2], ':') {
        3
    } else {
        0
    }
}

/// Whether `c` is a character that starts an operator after an expression.
pub open spec fn is_operator_char(c: char) -> bool {
    c == '.' || c == '?' || c == '+' || c == '-' || c == '*' || c == '/' || c == '%' || c == '^'
        || c == '&' || c == '|' || c == '<' || c == '>'
}

/// Whether the tokens `rest` after a loop would make the loop part of a
/// larger expression: a call, an index, a method call, `?`, a binary
/// operator, an assignment, a range or a cast.
pub open spec fn continues_expression(rest: Seq<TokV>) -> bool {
    rest.len() > 0 && (match rest[0] {
        TokV::Punct { ch, joint, .. } => is_operator_char(ch) || (ch == '=' && !(joint
            && rest.len() > 1 && is_punct_v(rest[1], '>'))) || (ch == '!' && joint && rest.len()
            > 1 && is_punct_v(rest[1], '=')),
        TokV::Group { delim, .. } => delim == Delimiter::Parenthesis || delim
            == Delimiter::Bracket,
        TokV::Ident { text, .. } => text == "as"@,
        _ => false,
    })
}

/// The loop that the tokens `s` start with, and the tokens after it:
/// `label? loop { body }`, `label? while cond { body }` or `label? for pat
/// in expr { body }`, where `in` is the first such name after `for` and the
/// body is the braced group at which `syn` reads the tokens so far as one
/// whole loop of that kind; `cond`, `pat` and `expr` must not be empty,
/// and what follows must not continue the loop into a larger expression.
pub open spec fn loop_spec(s: Seq<TokV>) -> Result<(LoopV, Seq<TokV>), LoopXformError> {
    let k = label_len(s) as int;
    let label = s.take(k);
    let r = s.skip(k);
    let err = if s.len() == 0 {
        LoopXformError::ExpectedLoopAtEnd
    } else {
        LoopXformError::ExpectedLoop
    };
    if r.len() > 0 && is_ident_v(r[0], "loop"@) {
        plain_loop_spec(label, r, err)
    } else if r.len() > 0 && is_ident_v(r[0], "while"@) {
        while_loop_spec(label, r, err)
    } else if r.len() > 0 && is_ident_v(r[0], "for"@) {
        for_loop_spec(label, r, err)
    } else {
        Err(err)
    }
}

/// `loop { body }` read from the tokens `r` after the label `label`.
pub open spec fn plain_loop_spec(label: Seq<TokV>, r: Seq<TokV>, err: LoopXformError) -> Result<
    (LoopV, Seq<TokV>),
    LoopXformError,
> {
    if r.len() > 1 && is_group_v(r[1], Delimiter::Brace) && !continues_expression(r.skip(2)) {
        Ok((LoopV::Plain { label, body: group_stream(r[1]) }, r.skip(2)))
    } else {
        Err(err)
    }
}

/// `while cond { body }` read from the tokens `r` after the label `label`.
pub open spec fn while_loop_spec(label: Seq<TokV>, r: Seq<TokV>, err: LoopXformError) -> Result<
    (LoopV, Seq<TokV>),
    LoopXformError,
> {
    let j = loop_end_from(label, r, ExprShape::While, 1);
    if 1 < j < r.len() && !continues_expression(r.skip(j + 1)) {
        Ok(
            (
                LoopV::While { label, cond: r.subrange(1, j), body: group_stream(r[j]) },
                r.skip(j + 1),
            ),
        )
    } else {
        Err(err)
    }
}

/// `for pat in expr { body }` read from the tokens `r` after the label
/// `label`.
pub open spec fn for_loop_spec(label: Seq<TokV>, r: Seq<TokV>, err: LoopXformError) -> Result<
    (LoopV, Seq<TokV>),
    LoopXformError,
> {
    let p = first_in_from(r, 1);
    let j = loop_end_from(label, r, ExprShape::ForLoop, p + 1);
    if 1 < p < r.len() && p + 1 < j < r.len() && !continues_expression(r.skip(j + 1)) {
        Ok(
            (
                LoopV::For {
                    label,
                    pat: r.subrange(1, p),
                    expr: r.subrange(p + 1, j),
                    body: group_stream(r[j]),
                },
                r.skip(j + 1),
            ),
        )
    } else {
        Err(err)
    }
}

/// The item with the parameters `params`, the loop `l` and the tokens
/// `rest` after it.
pub open spec fn item_of(params: LoopXFormParams, l: LoopV, rest: Seq<TokV>) -> ItemV {
    match params {
        LoopXFormParams::LoopUnroll(p) => ItemV::Unroll { unroll: p, the_loop: l, rest },
        LoopXFormParams::LoopPeel(p) => ItemV::Peel { peel: p, the_loop: l, rest },
    }
}

/// The macro's input `s` read: exactly one attribute, whose parameters are
/// read first, then the loop, then whatever follows it.
pub open spec fn item_spec(s: Seq<TokV>) -> Result<ItemV, LoopXformError> {
    match outer_attr_count(s) {
        Err(e) => Err(e),
        Ok(n) => if n == 0 {
            Err(LoopXformError::NoAttribute)
        } else if n > 1 {
            Err(LoopXformError::MultipleAttributes)
        } else {
            match attr_spec(group_stream(s[1])) {
                Err(e) => Err(e),
                Ok(params) => match loop_spec(s.skip(2)) {
                    Err(e) => Err(e),
                    Ok((l, rest)) => Ok(item_of(params, l, rest)),
                },
            }
        },
    }
}

/// Copies of the tokens of `s` from `a` up to `b`.
pub fn copy_range(s: &Vec<Tok>, a: usize, b: usize) -> (r: Vec<Tok>)
    requires
        a <= b <= s.len(),
    ensures
        toks_view(r@) == toks_view(s@).subrange(a as int, b as int),
{
    let mut out: Vec<Tok> = Vec::new();
    let mut i = a;
    while i < b
        invariant
            a <= i <= b <= s.len(),
            toks_view(out@) == toks_view(s@.subrange(a as int, i as int)),
        decreases b - i,
    {
        let t = tok_clone(&s[i]);
        proof {
            lemma_toks_view_push(out@, t);
            lemma_toks_view_push(s@.subrange(a as int, i as int), s@[i as int]);
            assert(s@.subrange(a as int, i as int).push(s@[i as int]) =~= s@.subrange(
                a as int,
                i + 1,
            ));
        }
        out.push(t);
        i = i + 1;
    }
    proof {
        lemma_toks_view_subrange(s@, a as int, b as int);
    }
    out
}

/// The index of the first `in` of `s` at `i` or after.
fn find_in(s: &Vec<Tok>, i: usize) -> (r: usize)
    requires
        i <= s.len(),
    ensures
        r == first_in_from(toks_view(s@), i as int),
        i <= r <= s.len(),
{
    let ghost sv = toks_view(s@);
    proof {
        lemma_toks_view(s@);
    }
    let mut j = i;
    while j < s.len() && !is_ident(&s[j], "in")
        invariant
            i <= j <= s.len(),
            sv == toks_view(s@),
            sv.len() == s@.len(),
            forall|k: int| 0 <= k < s@.len() ==> #[trigger] sv[k] == s@[k]@,
            first_in_from(sv, i as int) == first_in_from(sv, j as int),
        decreases s.len() - j,
    {
        j = j + 1;
    }
    j
}

/// Whether the tokens of `s` from `i` on would continue a loop into a
/// larger expression.
fn continues_expression_at(s: &Vec<Tok>, i: usize) -> (r: bool)
    requires
        i <= s.len(),
    ensures
        r == continues_expression(toks_view(s@).skip(i as int)),
{
    let ghost rest = toks_view(s@).skip(i as int);
    proof {
        lemma_toks_view(s@);
    }
    if i == s.len() {
        return false;
    }
    assert(rest[0] == s@[i as int]@);
    let next_gt = s.len() - i > 1 && is_punct(&s[i + 1], '>');
    let next_eq = s.len() - i > 1 && is_punct(&s[i + 1], '=');
    assert(s.len() - i > 1 ==> rest[1] == s@[i + 1]@);
    match &s[i] {
        Tok::Punct { ch, joint, .. } => {
            let c = *ch;
            (c == '.' || c == '?' || c == '+' || c == '-' || c == '*' || c == '/' || c == '%' || c
                == '^' || c == '&' || c == '|' || c == '<' || c == '>') || (c == '=' && !(*joint
                && next_gt)) || (c == '!' && *joint && next_eq)
        },
        Tok::Group { delim, .. } => *delim == Delimiter::Parenthesis || *delim
            == Delimiter::Bracket,
        Tok::Ident { text, .. } => *text == "as".to_owned(),
        _ => false,
    }
}

/// The loop that the tokens of `s` from `start` on begin with, and copies
/// of the tokens after it.
pub fn parse_loop(s: &Vec<Tok>, start: usize) -> (r: Result<(Loop, Vec<Tok>), LoopXformError>)
    requires
        start <= s.len(),
    ensures
        loop_result_view(r) == loop_spec(toks_view(s@).skip(start as int)),
{
    let ghost sv = toks_view(s@);
    let ghost sub = sv.skip(start as int);
    proof {
        lemma_toks_view(s@);
    }
    let err = if start == s.len() {
        LoopXformError::ExpectedLoopAtEnd
    } else {
        LoopXformError::ExpectedLoop
    };
    let mut k: usize = 0;
    if s.len() - start >= 3 {
        assert(sub[0] == s@[start as int]@ && sub[1] == s@[start + 1]@ && sub[2] == s@[start
            + 2]@);
        let apostrophe = match &s[start] {
            Tok::Punct { ch, joint, .. } => *ch == '\'' && *joint,
            _ => false,
        };
        let name = match &s[start + 1] {
            Tok::Ident { .. } => true,
            _ => false,
        };
        if apostrophe && name && is_punct(&s[start + 2], ':') {
            k = 3;
        }
    }
    assert(k == label_len(sub));
    let b = start + k;
    let ghost r = sub.skip(k as int);
    assert(r =~= sv.skip(b as int));
    let label = copy_range(s, start, b);
    assert(toks_view(label@) =~= sub.take(k as int));
    if b < s.len() && is_ident(&s[b], "loop") {
        assert(r[0] == s@[b as int]@);
        return parse_plain_loop(s, b, label, err);
    }
    if b < s.len() && is_ident(&s[b], "while") {
        assert(r[0] == s@[b as int]@);
        return parse_while_loop(s, b, label, err);
    }
    if b < s.len() && is_ident(&s[b], "for") {
        assert(r[0] == s@[b as int]@);
        return parse_for_loop(s, b, label, err);
    }
    proof {
        if b < s.len() {
            assert(r[0] == s@[b as int]@);
        }
    }
    Err(err)
}

/// The result `r` of reading a loop, seen as its views.
pub open spec fn loop_result_view(r: Result<(Loop, Vec<Tok>), LoopXformError>) -> Result<
    (LoopV, Seq<TokV>),
    LoopXformError,
> {
    match r {
        Ok((l, rest)) => Ok((l@, toks_view(rest@))),
        Err(e) => Err(e),
    }
}

/// `loop { body }` read from the tokens of `s` from `b` on.
fn parse_plain_loop(s: &Vec<Tok>, b: usize, label: Vec<Tok>, err: LoopXformError) -> (r: Result<
    (Loop, Vec<Tok>),
    LoopXformError,
>)
    requires
        b < s.len(),
    ensures
        loop_result_view(r) == plain_loop_spec(toks_view(label@), toks_view(s@).skip(b as int), err),
{
    let ghost sv = toks_view(s@);
    let ghost r = sv.skip(b as int);
    proof {
        lemma_toks_view(s@);
    }
    if s.len() - b > 1 && is_group(&s[b + 1], Delimiter::Brace) && !continues_expression_at(
        s,
        b + 2,
    ) {
        assert(r[1] == s@[b + 1]@);
        assert(r.skip(2) =~= sv.skip(b + 2));
        let body = match &s[b + 1] {
            Tok::Group { stream, .. } => toks_clone(stream),
            _ => Vec::new(),
        };
        let rest = copy_range(s, b + 2, s.len());
        assert(toks_view(rest@) =~= r.skip(2));
        return Ok((Loop::ExprLoop(PlainLoop { label, body }), rest));
    }
    proof {
        if r.len() > 1 {
            assert(r[1] == s@[b + 1]@);
            assert(r.skip(2) =~= sv.skip(b + 2));
        }
    }
    Err(err)
}

/// `while cond { body }` read from the tokens of `s` from `b` on.
fn parse_while_loop(s: &Vec<Tok>, b: usize, label: Vec<Tok>, err: LoopXformError) -> (r: Result<
    (Loop, Vec<Tok>),
    LoopXformError,
>)
    requires
        b < s.len(),
    ensures
        loop_result_view(r) == while_loop_spec(toks_view(label@), toks_view(s@).skip(b as int), err),
{
    let ghost sv = toks_view(s@);
    let ghost r = sv.skip(b as int);
    proof {
        lemma_toks_view(s@);
    }
    let j = find_loop_end(&label, s, b, 1, ExprShape::While);
    if b + 1 < j && j < s.len() && !continues_expression_at(s, j + 1) {
        assert(r[j - b] == s@[j as int]@);
        assert(r.skip(j - b + 1) =~= sv.skip(j + 1));
        let cond = copy_range(s, b + 1, j);
        assert(toks_view(cond@) =~= r.subrange(1, j - b));
        let body = match &s[j] {
            Tok::Group { stream, .. } => toks_clone(stream),
            _ => Vec::new(),
        };
        let rest = copy_range(s, j + 1, s.len());
        assert(toks_view(rest@) =~= r.skip(j - b + 1));
        return Ok((Loop::ExprWhile(WhileLoop { label, cond, body }), rest));
    }
    proof {
        if j < s.len() {
            assert(r.skip(j - b + 1) =~= sv.skip(j + 1));
        }
    }
    Err(err)
}

/// `for pat in expr { body }` read from the tokens of `s` from `b` on.
fn parse_for_loop(s: &Vec<Tok>, b: usize, label: Vec<Tok>, err: LoopXformError) -> (r: Result<
    (Loop, Vec<Tok>),
    LoopXformError,
>)
    requires
        b < s.len(),
    ensures
        loop_result_view(r) == for_loop_spec(toks_view(label@), toks_view(s@).skip(b as int), err),
{
    let ghost sv = toks_view(s@);
    let ghost r = sv.skip(b as int);
    proof {
        lemma_toks_view(s@);
    }
    let p = find_in(s, b + 1);
    assert(first_in_from(r, 1) == p - b) by {
        lemma_first_in_shift(sv, b as int, 1);
    }
    if p < s.len() {
        let j = find_loop_end(&label, s, b, p - b + 1, ExprShape::ForLoop);
        if b + 1 < p && p + 1 < j && j < s.len() && !continues_expression_at(s, j + 1) {
            assert(r[j - b] == s@[j as int]@);
            assert(r.skip(j - b + 1) =~= sv.skip(j + 1));
            let pat = copy_range(s, b + 1, p);
            assert(toks_view(pat@) =~= r.subrange(1, p - b));
            let expr = copy_range(s, p + 1, j);
            assert(toks_view(expr@) =~= r.subrange(p - b + 1, j - b));
            let body = match &s[j] {
                Tok::Group { stream, .. } => toks_clone(stream),
                _ => Vec::new(),
            };
            let rest = copy_range(s, j + 1, s.len());
            assert(toks_view(rest@) =~= r.skip(j - b + 1));
            return Ok((Loop::ExprForLoop(ForLoop { label, pat, expr, body }), rest));
        }
        proof {
            if j < s.len() {
                assert(r.skip(j - b + 1) =~= sv.skip(j + 1));
            }
        }
    }
    Err(err)
}

/// Searching `s` from `b + i` on is searching `s.skip(b)` from `i` on.
proof fn lemma_first_in_shift(s: Seq<TokV>, b: int, i: int)
    requires
        0 <= b <= s.len(),
        0 <= i,
    ensures
        first_in_from(s.skip(b), i) == first_in_from(s, b + i) - b,
    decreases s.len() - b - i,
{
    if b + i < s.len() {
        assert(s.skip(b)[i] == s[b + i]);
        lemma_first_in_shift(s, b, i + 1);
    }
}

impl Item {
    /// Reads the macro's input `s`.
    pub fn parse(s: &Vec<Tok>) -> (r: Result<Item, LoopXformError>)
        ensures
            match r {
                Ok(item) => item_spec(toks_view(s@)) == Ok::<ItemV, LoopXformError>(item@),
                Err(e) => item_spec(toks_view(s@)) == Err::<ItemV, LoopXformError>(e),
            },
    {
        let ghost sv = toks_view(s@);
        proof {
            lemma_toks_view(s@);
        }
        let n = match outer_attributes(s) {
            Err(e) => {
                return Err(e);
            },
            Ok(n) => n,
        };
        if n == 0 {
            return Err(LoopXformError::NoAttribute);
        }
        if n > 1 {
            return Err(LoopXformError::MultipleAttributes);
        }
        assert(sv.len() >= 2 && is_group_v(sv[1], Delimiter::Bracket)) by {
            assert(outer_attr_count(sv) == Ok::<nat, LoopXformError>(1));
        }
        assert(sv[1] == s@[1]@);
        let params = match &s[1] {
            Tok::Group { stream, .. } => parse_attr(stream),
            _ => Err(LoopXformError::NotLoopXformAttribute),
        };
        let params = match params {
            Err(e) => {
                return Err(e);
            },
            Ok(p) => p,
        };
        match parse_loop(s, 2) {
            Err(e) => Err(e),
            Ok((the_loop, rest)) => Ok(Item::new(params, the_loop, rest)),
        }
    }
}

/// The `in` that the search finds is the identifier `in`.
proof fn lemma_first_in_is_in(s: Seq<TokV>, i: int)
    requires
        0 <= i,
        first_in_from(s, i) < s.len(),
    ensures
        is_ident_v(s[first_in_from(s, i)], "in"@),
    decreases s.len() - i,
{
    if i < s.len() && !is_ident_v(s[i], "in"@) {
        lemma_first_in_is_in(s, i + 1);
    }
}

/// Reading a loop loses no tokens: the loop's label, its keyword, its
/// head (`cond`, or `pat`, `in` and `expr`) and its braced body, followed by
/// the tokens after it, are exactly the tokens read, in order.
pub proof fn law_loop_reading_keeps_every_token(s: Seq<TokV>)
    requires
        loop_spec(s) is Ok,
    ensures
        ({
            let (l, rest) = loop_spec(s)->Ok_0;
            let k = l.label().len() as int;
            &&& s.take(k) == l.label()
            &&& match l {
                LoopV::Plain { body, .. } => {
                    &&& s.len() == k + 2 + rest.len()
                    &&& is_ident_v(s[k], "loop"@)
                    &&& s[k + 1] matches TokV::Group { delim, stream, .. } && delim
                        == Delimiter::Brace && stream == body
                    &&& s.skip(k + 2) == rest
                },
                LoopV::While { cond, body, .. } => {
                    let j = k + 1 + cond.len();
                    &&& s.len() == j + 1 + rest.len()
                    &&& is_ident_v(s[k], "while"@)
                    &&& s.subrange(k + 1, j) == cond
                    &&& s[j] matches TokV::Group { delim, stream, .. } && delim
                        == Delimiter::Brace && stream == body
                    &&& s.skip(j + 1) == rest
                },
                LoopV::For { pat, expr, body, .. } => {
                    let p = k + 1 + pat.len();
                    let j = p + 1 + expr.len();
                    &&& s.len() == j + 1 + rest.len()
                    &&& is_ident_v(s[k], "for"@)
                    &&& s.subrange(k + 1, p) == pat
                    &&& is_ident_v(s[p], "in"@)
                    &&& s.subrange(p + 1, j) == expr
                    &&& s[j] matches TokV::Group { delim, stream, .. } && delim
                        == Delimiter::Brace && stream == body
                    &&& s.skip(j + 1) == rest
                },
            }
        }),
{
    let k = label_len(s) as int;
    let r = s.skip(k);
    assert(s.take(k).len() == k);
    if r.len() > 0 && is_ident_v(r[0], "loop"@) {
        assert(r[1] == s[k + 1]);
        assert(r.skip(2) =~= s.skip(k + 2));
    } else if r.len() > 0 && is_ident_v(r[0], "while"@) {
        let j = loop_end_from(s.take(k), r, ExprShape::While, 1);
        if j < r.len() {
            lemma_loop_end_is_brace(s.take(k), r, ExprShape::While, 1);
        }
        assert(r[j] == s[k + j]);
        assert(r.subrange(1, j) =~= s.subrange(k + 1, k + j));
        assert(r.skip(j + 1) =~= s.skip(k + j + 1));
    } else {
        let p = first_in_from(r, 1);
        if p < r.len() {
            lemma_first_in_is_in(r, 1);
        }
        let j = loop_end_from(s.take(k), r, ExprShape::ForLoop, p + 1);
        if 0 <= p + 1 && j < r.len() {
            lemma_loop_end_is_brace(s.take(k), r, ExprShape::ForLoop, p + 1);
        }
        assert(r[p] == s[k + p]);
        assert(r[j] == s[k + j]);
        assert(r.subrange(1, p) =~= s.subrange(k + 1, k + p));
        assert(r.subrange(p + 1, j) =~= s.subrange(k + p + 1, k + j));
        assert(r.skip(j + 1) =~= s.skip(k + j + 1));
    }
    assert(r[0] == s[k]);
}

/// Reading the macro's input loses no tokens: it is `# [ attr ]`, then
/// the loop, then the tokens after the loop, and the item keeps that loop
/// and those tokens (which `law_loop_reading_keeps_every_token` spells out).
pub proof fn law_item_reading_keeps_every_token(s: Seq<TokV>)
    requires
        item_spec(s) is Ok,
    ensures
        s.len() >= 2,
        is_punct_v(s[0], '#'),
        is_group_v(s[1], Delimiter::Bracket),
        loop_spec(s.skip(2)) is Ok,
        ({
            let (l, rest) = loop_spec(s.skip(2))->Ok_0;
            match item_spec(s)->Ok_0 {
                ItemV::Unroll { the_loop, rest: r, .. } => the_loop == l && r == rest,
                ItemV::Peel { the_loop, rest: r, .. } => the_loop == l && r == rest,
            }
        }),
{
    assert(outer_attr_count(s) is Ok);
    if !(s.len() > 0 && is_punct_v(s[0], '#')) {
        assert(outer_attr_count(s) == Ok::<nat, LoopXformError>(0));
    }
    law_loop_reading_keeps_every_token(s.skip(2));
}

/// A count written in decimal without a suffix, with nothing after it, is
/// read back as that count, both as an unroll factor and as a peel count; a
/// count of zero, a suffix or more tokens after it are refused.
pub proof fn law_counts_read_what_is_written(n: usize, suffix: Seq<char>, garbage: bool)
    ensures
        n >= 1 ==> factor_of_literal(dec_string(n as nat), Seq::empty(), false) == Ok::<
            usize,
            LoopXformError,
        >(n),
        n >= 1 ==> peel_count_of_literal(dec_string(n as nat), Seq::empty(), false) == Ok::<
            usize,
            LoopXformError,
        >(n),
        factor_of_literal(dec_string(0), Seq::empty(), false) == Err::<usize, LoopXformError>(
            LoopXformError::FactorZero,
        ),
        peel_count_of_literal(dec_string(0), Seq::empty(), false) == Err::<usize, LoopXformError>(
            LoopXformError::PeelCountZero,
        ),
        suffix.len() > 0 ==> factor_of_literal(dec_string(n as nat), suffix, garbage) == Err::<
            usize,
            LoopXformError,
        >(LoopXformError::FactorSuffix),
        suffix.len() > 0 ==> peel_count_of_literal(dec_string(n as nat), suffix, garbage) == Err::<
            usize,
            LoopXformError,
        >(LoopXformError::PeelCountSuffix),
        factor_of_literal(dec_string(n as nat), Seq::empty(), true) == Err::<usize, LoopXformError>(
            LoopXformError::FactorGarbage,
        ),
        peel_count_of_literal(dec_string(n as nat), Seq::empty(), true) == Err::<
            usize,
            LoopXformError,
        >(LoopXformError::PeelCountGarbage),
{
    law_read_what_is_written(n);
    law_read_what_is_written(0);
}

/// `method(runtime)` and `method(with_remainder)` read as those methods,
/// whatever spans their names carry; anything after the name is refused.
pub proof fn law_method_names_read_as_methods(span: proc_macro2::Span, more: Seq<TokV>)
    ensures
        method_value(seq![TokV::Ident { text: "runtime"@, span }]) == Ok::<
            UnrollMethod,
            LoopXformError,
        >(UnrollMethod::Runtime),
        method_value(seq![TokV::Ident { text: "with_remainder"@, span }]) == Ok::<
            UnrollMethod,
            LoopXformError,
        >(UnrollMethod::WithRemainder),
        more.len() > 0 ==> method_value(seq![TokV::Ident { text: "runtime"@, span }] + more)
            == Err::<UnrollMethod, LoopXformError>(LoopXformError::UnrollMethodGarbage),
        more.len() > 0 ==> method_value(seq![TokV::Ident { text: "with_remainder"@, span }] + more)
            == Err::<UnrollMethod, LoopXformError>(LoopXformError::UnrollMethodGarbage),
{
    let a = seq![TokV::Ident { text: "runtime"@, span }] + more;
    let b = seq![TokV::Ident { text: "with_remainder"@, span }] + more;
    assert(a[0] == TokV::Ident { text: "runtime"@, span });
    assert(b[0] == TokV::Ident { text: "with_remainder"@, span });
    reveal_strlit("runtime");
    reveal_strlit("with_remainder");
    assert("runtime"@.len() != "with_remainder"@.len());
}

} // verus!
