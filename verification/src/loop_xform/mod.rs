//! Loop transformations driven by an attribute on the loop:
//! `#[loop_unroll(method(runtime | with_remainder), factor(N))]` and
//! `#[loop_peel(N)]`, applied to `for`, `while` and `loop` loops.

use crate::loop_xform::numbers::IntErrorKind;
use crate::loop_xform::parse::item_spec;
use crate::loop_xform::peel::peel_spec;
use crate::loop_xform::unroll_runtime::unroll_runtime_spec;
use crate::loop_xform::unroll_with_remainder::{toks_result_view, unroll_with_remainder_spec};
use crate::loop_xform::shapes::{grp, kw};
use crate::tokens::{
    current_spans, extend_toks, push_group, push_ident, toks_clone, toks_view, Delimiter, Spans, Tok,
    TokV,
};
use vstd::prelude::*;

pub mod labeller;
pub mod loop_text;
pub mod numbers;
pub mod parse;
pub mod peel;
pub mod shapes;
pub mod unroll_runtime;
pub mod unroll_with_remainder;

verus! {

/// How a loop is unrolled.
#[derive(Debug, Clone, Copy, PartialEq, Eq, Structural)]
pub enum UnrollMethod {
    /// Every copy of the body checks whether the loop goes on.
    Runtime,
    /// Whole groups of iterations run together; the leftover ones after.
    WithRemainder,
}

/// The parameters of `#[loop_unroll(..)]`.
#[derive(Debug, Clone, Copy, PartialEq, Eq, Structural)]
pub struct LoopUnrollParams {
    pub unroll_method: UnrollMethod,
    pub unroll_factor: usize,
}

/// The parameter of `#[loop_peel(..)]`.
#[derive(Debug, Clone, Copy, PartialEq, Eq, Structural)]
pub struct LoopPeelParams {
    pub peel_count: usize,
}

/// The parameters of either attribute.
#[derive(Debug, Clone, Copy, PartialEq, Eq, Structural)]
pub enum LoopXFormParams {
    LoopUnroll(LoopUnrollParams),
    LoopPeel(LoopPeelParams),
}

impl LoopXFormParams {
    pub fn from_unroll(value: LoopUnrollParams) -> (r: Self)
        ensures
            r == LoopXFormParams::LoopUnroll(value),
    {
        Self::LoopUnroll(value)
    }

    pub fn from_peel(value: LoopPeelParams) -> (r: Self)
        ensures
            r == LoopXFormParams::LoopPeel(value),
    {
        Self::LoopPeel(value)
    }
}

/// `label? for pat in expr { body }`. The label is empty or the three
/// tokens `'name :`; the body is what stands inside the braces.
pub struct ForLoop {
    pub label: Vec<Tok>,
    pub pat: Vec<Tok>,
    pub expr: Vec<Tok>,
    pub body: Vec<Tok>,
}

/// `label? while cond { body }`.
pub struct WhileLoop {
    pub label: Vec<Tok>,
    pub cond: Vec<Tok>,
    pub body: Vec<Tok>,
}

/// `label? loop { body }`.
pub struct PlainLoop {
    pub label: Vec<Tok>,
    pub body: Vec<Tok>,
}

/// The loop that an attribute applies to.
pub enum Loop {
    ExprForLoop(ForLoop),
    ExprWhile(WhileLoop),
    ExprLoop(PlainLoop),
}

/// What a loop is, its parts as token sequences.
pub enum LoopV {
    For { label: Seq<TokV>, pat: Seq<TokV>, expr: Seq<TokV>, body: Seq<TokV> },
    While { label: Seq<TokV>, cond: Seq<TokV>, body: Seq<TokV> },
    Plain { label: Seq<TokV>, body: Seq<TokV> },
}

impl View for Loop {
    type V = LoopV;

    open spec fn view(&self) -> LoopV {
        match self {
            Loop::ExprForLoop(l) => LoopV::For {
                label: toks_view(l.label@),
                pat: toks_view(l.pat@),
                expr: toks_view(l.expr@),
                body: toks_view(l.body@),
            },
            Loop::ExprWhile(l) => LoopV::While {
                label: toks_view(l.label@),
                cond: toks_view(l.cond@),
                body: toks_view(l.body@),
            },
            Loop::ExprLoop(l) => LoopV::Plain { label: toks_view(l.label@), body: toks_view(l.body@) },
        }
    }
}

impl LoopV {
    /// The label tokens of the loop, empty where it has none.
    pub open spec fn label(self) -> Seq<TokV> {
        match self {
            LoopV::For { label, .. } => label,
            LoopV::While { label, .. } => label,
            LoopV::Plain { label, .. } => label,
        }
    }

    /// The statements of the loop's body.
    pub open spec fn body(self) -> Seq<TokV> {
        match self {
            LoopV::For { body, .. } => body,
            LoopV::While { body, .. } => body,
            LoopV::Plain { body, .. } => body,
        }
    }
}

/// The tokens that spell the loop `l`, its keywords and braces written
/// with the call-site span.
pub open spec fn loop_toks(l: LoopV, sp: Spans) -> Seq<TokV> {
    match l {
        LoopV::For { label, pat, expr, body } => label + seq![kw("for"@, sp)] + pat + seq![
            kw("in"@, sp),
        ] + expr + seq![grp(Delimiter::Brace, body, sp)],
        LoopV::While { label, cond, body } => label + seq![kw("while"@, sp)] + cond + seq![
            grp(Delimiter::Brace, body, sp),
        ],
        LoopV::Plain { label, body } => label + seq![
            kw("loop"@, sp),
            grp(Delimiter::Brace, body, sp),
        ],
    }
}

impl Loop {
    /// Appends the tokens that spell the loop.
    pub fn to_tokens(&self, tokens: &mut Vec<Tok>, sp: Spans)
        ensures
            toks_view(final(tokens)@) == toks_view(old(tokens)@) + loop_toks(self@, sp),
    {
        match self {
            Loop::ExprForLoop(l) => {
                extend_toks(tokens, &l.label);
                push_ident(tokens, "for", sp.call);
                extend_toks(tokens, &l.pat);
                push_ident(tokens, "in", sp.call);
                extend_toks(tokens, &l.expr);
                push_group(tokens, Delimiter::Brace, toks_clone(&l.body), sp.call);
            },
            Loop::ExprWhile(l) => {
                extend_toks(tokens, &l.label);
                push_ident(tokens, "while", sp.call);
                extend_toks(tokens, &l.cond);
                push_group(tokens, Delimiter::Brace, toks_clone(&l.body), sp.call);
            },
            Loop::ExprLoop(l) => {
                extend_toks(tokens, &l.label);
                push_ident(tokens, "loop", sp.call);
                push_group(tokens, Delimiter::Brace, toks_clone(&l.body), sp.call);
            },
        }
        assert(toks_view(tokens@) =~= toks_view(old(tokens)@) + loop_toks(self@, sp));
    }
}

/// An attribute's parameters, the loop it stands on, and the tokens after
/// the loop.
pub struct LoopXFormConf<Params> {
    pub params: Params,
    pub the_loop: Loop,
    pub rest_of_tokenstream: Vec<Tok>,
}

impl<Params> LoopXFormConf<Params> {
    /// The tokens after the loop.
    pub open spec fn rest(&self) -> Seq<TokV> {
        toks_view(self.rest_of_tokenstream@)
    }
}

/// The macro's input: one attribute and the loop it stands on.
pub enum Item {
    LoopUnrollAttr(LoopXFormConf<LoopUnrollParams>),
    LoopPeelAttr(LoopXFormConf<LoopPeelParams>),
}

/// What an item is.
pub enum ItemV {
    Unroll { unroll: LoopUnrollParams, the_loop: LoopV, rest: Seq<TokV> },
    Peel { peel: LoopPeelParams, the_loop: LoopV, rest: Seq<TokV> },
}

impl View for Item {
    type V = ItemV;

    open spec fn view(&self) -> ItemV {
        match self {
            Item::LoopUnrollAttr(c) => ItemV::Unroll {
                unroll: c.params,
                the_loop: c.the_loop@,
                rest: c.rest(),
            },
            Item::LoopPeelAttr(c) => ItemV::Peel {
                peel: c.params,
                the_loop: c.the_loop@,
                rest: c.rest(),
            },
        }
    }
}

impl Item {
    /// The item made of `params`, the loop and the tokens after it.
    pub fn new(params: LoopXFormParams, the_loop: Loop, rest_of_tokenstream: Vec<Tok>) -> (r: Self)
        ensures
            r@ == (match params {
                LoopXFormParams::LoopUnroll(p) => ItemV::Unroll {
                    unroll: p,
                    the_loop: the_loop@,
                    rest: toks_view(rest_of_tokenstream@),
                },
                LoopXFormParams::LoopPeel(p) => ItemV::Peel {
                    peel: p,
                    the_loop: the_loop@,
                    rest: toks_view(rest_of_tokenstream@),
                },
            }),
    {
        match params {
            LoopXFormParams::LoopUnroll(loop_unroll_params) => Item::LoopUnrollAttr(
                LoopXFormConf { params: loop_unroll_params, the_loop, rest_of_tokenstream },
            ),
            LoopXFormParams::LoopPeel(loop_peel_params) => Item::LoopPeelAttr(
                LoopXFormConf { params: loop_peel_params, the_loop, rest_of_tokenstream },
            ),
        }
    }

    /// The loop of the item.
    pub fn the_loop(&self) -> (r: &Loop)
        ensures
            r@ == (match self@ {
                ItemV::Unroll { the_loop, .. } => the_loop,
                ItemV::Peel { the_loop, .. } => the_loop,
            }),
    {
        match self {
            Item::LoopUnrollAttr(loop_xform_conf) => &loop_xform_conf.the_loop,
            Item::LoopPeelAttr(loop_xform_conf) => &loop_xform_conf.the_loop,
        }
    }
}

/// The two attributes.
#[derive(Debug, Clone, Copy, PartialEq, Eq, Structural)]
pub enum AttrName {
    LoopUnroll,
    LoopPeel,
}

/// Why the macro's input was refused.
#[derive(Debug, Clone, Copy, PartialEq, Eq, Structural)]
pub enum LoopXformError {
    /// No attribute stands before the loop.
    NoAttribute,
    /// More than one attribute stands before the loop.
    MultipleAttributes,
    /// A `#` is not followed by a bracketed group.
    ExpectedSquareBrackets,
    /// The input ends right after a `#`.
    ExpectedSquareBracketsAtEnd,
    /// The attribute is neither `loop_unroll` nor `loop_peel`.
    NotLoopXformAttribute,
    /// The attribute has no arguments.
    ExpectedArgumentsInParentheses(AttrName),
    /// The attribute is written `name = value`.
    ExpectedParentheses(AttrName),
    /// A parameter of `loop_unroll` starts with a literal.
    UnexpectedLiteralInNestedAttribute,
    /// A parameter of `loop_unroll` starts with neither a name nor a literal.
    UnexpectedTokenInNestedAttribute,
    /// A parameter of `loop_unroll` is neither `method` nor `factor`.
    UnrecognizedParameter,
    /// Two parameters of `loop_unroll` are not separated by a comma.
    ExpectedComma,
    /// `method` or `factor` is not followed by parentheses.
    ExpectedParenthesesArgument,
    /// The arguments end right after `method` or `factor`.
    ExpectedParenthesesArgumentAtEnd,
    /// `method` is given twice.
    DuplicateMethod,
    /// The method is neither `runtime` nor `with_remainder`.
    InvalidUnrollMethod,
    /// `method()` is empty.
    InvalidUnrollMethodAtEnd,
    /// Something follows the method.
    UnrollMethodGarbage,
    /// `factor` is given twice.
    DuplicateFactor,
    /// The factor is not an integer literal.
    ExpectedIntegerLiteral,
    /// `factor()` is empty.
    ExpectedIntegerLiteralAtEnd,
    /// The factor has a type suffix.
    FactorSuffix,
    /// Something follows the factor.
    FactorGarbage,
    /// The factor is zero.
    FactorZero,
    /// `loop_unroll` has no `method`.
    MissingMethod,
    /// `loop_unroll` has no `factor`.
    MissingFactor,
    /// The argument of `loop_peel` is not an integer literal.
    MissingPeelCount,
    /// The peel count has a type suffix.
    PeelCountSuffix,
    /// Something follows the peel count.
    PeelCountGarbage,
    /// The peel count is zero.
    PeelCountZero,
    /// The number does not fit a `usize`, or is negative.
    InvalidNumber(IntErrorKind),
    /// What follows the attribute is no loop.
    ExpectedLoop,
    /// Nothing follows the attribute.
    ExpectedLoopAtEnd,
    /// Unrolling with remainder was asked for a loop other than `for`.
    UnsupportedLoopKind,
}

/// The message that reports the error `e`.
pub open spec fn error_message(e: LoopXformError) -> Seq<char> {
    match e {
            LoopXformError::NoAttribute => "There must be an attribute"@,
            LoopXformError::MultipleAttributes => "There should only be a single attribute"@,
            LoopXformError::ExpectedSquareBrackets => "expected square brackets"@,
            LoopXformError::ExpectedSquareBracketsAtEnd => "unexpected end of input, expected square brackets"@,
            LoopXformError::NotLoopXformAttribute => "`loop_unroll` or `loop_peel` attribute expected"@,
            LoopXformError::ExpectedArgumentsInParentheses(AttrName::LoopUnroll) => "expected attribute arguments in parentheses: #[loop_unroll(...)]"@,
            LoopXformError::ExpectedArgumentsInParentheses(AttrName::LoopPeel) => "expected attribute arguments in parentheses: #[loop_peel(...)]"@,
            LoopXformError::ExpectedParentheses(AttrName::LoopUnroll) => "expected parentheses: #[loop_unroll(...)]"@,
            LoopXformError::ExpectedParentheses(AttrName::LoopPeel) => "expected parentheses: #[loop_peel(...)]"@,
            LoopXformError::UnexpectedLiteralInNestedAttribute => "unexpected literal in nested attribute, expected ident"@,
            LoopXformError::UnexpectedTokenInNestedAttribute => "unexpected token in nested attribute, expected ident"@,
            LoopXformError::UnrecognizedParameter => "unrecognized parameter, expected `method(...)` and `factor(..)`"@,
            LoopXformError::ExpectedComma => "expected `,`"@,
            LoopXformError::ExpectedParenthesesArgument => "expected parentheses"@,
            LoopXformError::ExpectedParenthesesArgumentAtEnd => "unexpected end of input, expected parentheses"@,
            LoopXformError::DuplicateMethod => "only a single unroll method shall be specified"@,
            LoopXformError::InvalidUnrollMethod => "expected valid unroll method"@,
            LoopXformError::InvalidUnrollMethodAtEnd => "unexpected end of input, expected valid unroll method"@,
            LoopXformError::UnrollMethodGarbage => "unexpected garbage in unroll method argument"@,
            LoopXformError::DuplicateFactor => "only a single unroll factor shall be specified"@,
            LoopXformError::ExpectedIntegerLiteral => "expected integer literal"@,
            LoopXformError::ExpectedIntegerLiteralAtEnd => "unexpected end of input, expected integer literal"@,
            LoopXformError::FactorSuffix => "unroll factor should not have any suffix"@,
            LoopXformError::FactorGarbage => "unexpected garbage in unroll factor argument"@,
            LoopXformError::FactorZero => "Unroll factor can not be zero"@,
            LoopXformError::MissingMethod => "The attribute must specify unroll `method`"@,
            LoopXformError::MissingFactor => "The attribute must specify `factor`"@,
            LoopXformError::MissingPeelCount => "The attribute must specify peel count"@,
            LoopXformError::PeelCountSuffix => "Peel count should not have any suffix"@,
            LoopXformError::PeelCountGarbage => "unexpected garbage in peel count argument"@,
            LoopXformError::PeelCountZero => "unexpected end of input, Peel count can not be zero"@,
            LoopXformError::InvalidNumber(IntErrorKind::Empty) => "cannot parse integer from empty string"@,
            LoopXformError::InvalidNumber(IntErrorKind::InvalidDigit) => "invalid digit found in string"@,
            LoopXformError::InvalidNumber(IntErrorKind::PosOverflow) => "number too large to fit in target type"@,
            LoopXformError::ExpectedLoop => "expected some kind of loop"@,
            LoopXformError::ExpectedLoopAtEnd => "unexpected end of input, expected some kind of loop"@,
            LoopXformError::UnsupportedLoopKind => "Loop unroll with remainder only supported expr-for-loops"@,
    }
}

impl LoopXformError {
    /// The message that reports this error.
    pub fn message(&self) -> (r: String)
        ensures
            r@ == error_message(*self),
    {
        let m: &str = match self {
            LoopXformError::NoAttribute => "There must be an attribute",
            LoopXformError::MultipleAttributes => "There should only be a single attribute",
            LoopXformError::ExpectedSquareBrackets => "expected square brackets",
            LoopXformError::ExpectedSquareBracketsAtEnd => "unexpected end of input, expected square brackets",
            LoopXformError::NotLoopXformAttribute => "`loop_unroll` or `loop_peel` attribute expected",
            LoopXformError::ExpectedArgumentsInParentheses(AttrName::LoopUnroll) => "expected attribute arguments in parentheses: #[loop_unroll(...)]",
            LoopXformError::ExpectedArgumentsInParentheses(AttrName::LoopPeel) => "expected attribute arguments in parentheses: #[loop_peel(...)]",
            LoopXformError::ExpectedParentheses(AttrName::LoopUnroll) => "expected parentheses: #[loop_unroll(...)]",
            LoopXformError::ExpectedParentheses(AttrName::LoopPeel) => "expected parentheses: #[loop_peel(...)]",
            LoopXformError::UnexpectedLiteralInNestedAttribute => "unexpected literal in nested attribute, expected ident",
            LoopXformError::UnexpectedTokenInNestedAttribute => "unexpected token in nested attribute, expected ident",
            LoopXformError::UnrecognizedParameter => "unrecognized parameter, expected `method(...)` and `factor(..)`",
            LoopXformError::ExpectedComma => "expected `,`",
            LoopXformError::ExpectedParenthesesArgument => "expected parentheses",
            LoopXformError::ExpectedParenthesesArgumentAtEnd => "unexpected end of input, expected parentheses",
            LoopXformError::DuplicateMethod => "only a single unroll method shall be specified",
            LoopXformError::InvalidUnrollMethod => "expected valid unroll method",
            LoopXformError::InvalidUnrollMethodAtEnd => "unexpected end of input, expected valid unroll method",
            LoopXformError::UnrollMethodGarbage => "unexpected garbage in unroll method argument",
            LoopXformError::DuplicateFactor => "only a single unroll factor shall be specified",
            LoopXformError::ExpectedIntegerLiteral => "expected integer literal",
            LoopXformError::ExpectedIntegerLiteralAtEnd => "unexpected end of input, expected integer literal",
            LoopXformError::FactorSuffix => "unroll factor should not have any suffix",
            LoopXformError::FactorGarbage => "unexpected garbage in unroll factor argument",
            LoopXformError::FactorZero => "Unroll factor can not be zero",
            LoopXformError::MissingMethod => "The attribute must specify unroll `method`",
            LoopXformError::MissingFactor => "The attribute must specify `factor`",
            LoopXformError::MissingPeelCount => "The attribute must specify peel count",
            LoopXformError::PeelCountSuffix => "Peel count should not have any suffix",
            LoopXformError::PeelCountGarbage => "unexpected garbage in peel count argument",
            LoopXformError::PeelCountZero => "unexpected end of input, Peel count can not be zero",
            LoopXformError::InvalidNumber(IntErrorKind::Empty) => "cannot parse integer from empty string",
            LoopXformError::InvalidNumber(IntErrorKind::InvalidDigit) => "invalid digit found in string",
            LoopXformError::InvalidNumber(IntErrorKind::PosOverflow) => "number too large to fit in target type",
            LoopXformError::ExpectedLoop => "expected some kind of loop",
            LoopXformError::ExpectedLoopAtEnd => "unexpected end of input, expected some kind of loop",
            LoopXformError::UnsupportedLoopKind => "Loop unroll with remainder only supported expr-for-loops",
        };
        m.to_owned()
    }
}

/// The loop of `params`, `l` and `rest` unrolled as its method says.
pub open spec fn perform_loop_unroll_spec(
    params: LoopUnrollParams,
    l: LoopV,
    rest: Seq<TokV>,
    sp: Spans,
) -> Result<Seq<TokV>, LoopXformError> {
    match params.unroll_method {
        UnrollMethod::Runtime => Ok(unroll_runtime_spec(params, l, rest, sp)),
        UnrollMethod::WithRemainder => unroll_with_remainder_spec(params, l, rest, sp),
    }
}

/// Unrolls the configured loop as its method says.
pub fn perform_loop_unroll(c: LoopXFormConf<LoopUnrollParams>, sp: Spans) -> (r: Result<
    Vec<Tok>,
    LoopXformError,
>)
    ensures
        toks_result_view(r) == perform_loop_unroll_spec(c.params, c.the_loop@, c.rest(), sp),
{
    match c.params.unroll_method {
        UnrollMethod::Runtime => Ok(unroll_runtime::transform(&c, sp)),
        UnrollMethod::WithRemainder => unroll_with_remainder::transform(c, sp),
    }
}

/// Peels the configured loop.
pub fn perform_loop_peel(c: LoopXFormConf<LoopPeelParams>, sp: Spans) -> (r: Vec<Tok>)
    ensures
        toks_view(r@) == peel_spec(c.params, c.the_loop@, c.rest(), sp),
{
    peel::transform(c, sp)
}

/// What the macro makes of the tokens `s`, with the generated tokens
/// carrying the spans `sp`: the input read, then its loop transformed as
/// the attribute says.
pub open spec fn expand_spec(s: Seq<TokV>, sp: Spans) -> Result<Seq<TokV>, LoopXformError> {
    match item_spec(s) {
        Err(e) => Err(e),
        Ok(ItemV::Unroll { unroll, the_loop, rest }) => perform_loop_unroll_spec(
            unroll,
            the_loop,
            rest,
            sp,
        ),
        Ok(ItemV::Peel { peel, the_loop, rest }) => Ok(peel_spec(peel, the_loop, rest, sp)),
    }
}

/// Reads the macro's input `tokens` and transforms its loop, giving the
/// generated tokens the spans `sp`.
pub fn expand_loop_xforms(tokens: &Vec<Tok>, sp: Spans) -> (r: Result<Vec<Tok>, LoopXformError>)
    ensures
        toks_result_view(r) == expand_spec(toks_view(tokens@), sp),
{
    let input = match Item::parse(tokens) {
        Err(e) => {
            return Err(e);
        },
        Ok(item) => item,
    };
    match input {
        Item::LoopUnrollAttr(c) => perform_loop_unroll(c, sp),
        Item::LoopPeelAttr(c) => Ok(perform_loop_peel(c, sp)),
    }
}

/// The macro: reads `tokens` and transforms its loop, the generated names
/// hygienic at the mixed site and the rest at the call site.
pub fn enable_loop_xforms(tokens: &Vec<Tok>) -> (r: Result<Vec<Tok>, LoopXformError>)
    ensures
        exists|sp: Spans| toks_result_view(r) == expand_spec(toks_view(tokens@), sp),
{
    let sp = current_spans();
    expand_loop_xforms(tokens, sp)
}

/// Whether the macro refuses its input does not depend on the spans it
/// gives to generated tokens, nor does the error it reports.
pub proof fn law_errors_do_not_depend_on_spans(s: Seq<TokV>, sp1: Spans, sp2: Spans)
    ensures
        expand_spec(s, sp1) is Err <==> expand_spec(s, sp2) is Err,
        expand_spec(s, sp1) is Err ==> expand_spec(s, sp1) == expand_spec(s, sp2),
{
}

} // verus!
