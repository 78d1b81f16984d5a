use proc_macro2::{Delimiter as PmDelimiter, Group, Ident, Literal, Punct, Spacing, TokenStream, TokenTree};
use rawspeed::loop_xform::numbers::IntErrorKind;
use rawspeed::loop_xform::parse::{factor_from_literal, parse_attr, peel_count_from_literal};
use rawspeed::loop_xform::{
    enable_loop_xforms, expand_loop_xforms, peel, unroll_runtime, unroll_with_remainder, AttrName,
    Item, Loop, LoopPeelParams, LoopUnrollParams, LoopXFormConf, LoopXFormParams, LoopXformError,
    UnrollMethod,
};
use rawspeed::tokens::{current_spans, Delimiter, Tok};

fn to_toks(ts: TokenStream) -> Vec<Tok> {
    ts.into_iter()
        .map(|tt| match tt {
            TokenTree::Ident(i) => Tok::Ident { text: i.to_string(), span: i.span() },
            TokenTree::Punct(p) => Tok::Punct {
                ch: p.as_char(),
                joint: p.spacing() == Spacing::Joint,
                span: p.span(),
            },
            TokenTree::Literal(l) => Tok::Literal { text: l.to_string(), span: l.span() },
            TokenTree::Group(g) => Tok::Group {
                delim: match g.delimiter() {
                    PmDelimiter::Parenthesis => Delimiter::Parenthesis,
                    PmDelimiter::Brace => Delimiter::Brace,
                    PmDelimiter::Bracket => Delimiter::Bracket,
                    PmDelimiter::None => Delimiter::Invisible,
                },
                stream: to_toks(g.stream()),
                span: g.span(),
            },
        })
        .collect()
}

fn from_toks(toks: &[Tok]) -> TokenStream {
    toks.iter()
        .map(|t| -> TokenTree {
            match t {
                Tok::Ident { text, span } => match text.strip_prefix("r#") {
                    Some(raw) => Ident::new_raw(raw, *span).into(),
                    None => Ident::new(text, *span).into(),
                },
                Tok::Punct { ch, joint, span } => {
                    let mut p =
                        Punct::new(*ch, if *joint { Spacing::Joint } else { Spacing::Alone });
                    p.set_span(*span);
                    p.into()
                }
                Tok::Literal { text, span } => {
                    let mut l: Literal = text.parse().unwrap();
                    l.set_span(*span);
                    l.into()
                }
                Tok::Group { delim, stream, span } => {
                    let d = match delim {
                        Delimiter::Parenthesis => PmDelimiter::Parenthesis,
                        Delimiter::Brace => PmDelimiter::Brace,
                        Delimiter::Bracket => PmDelimiter::Bracket,
                        Delimiter::Invisible => PmDelimiter::None,
                    };
                    let mut g = Group::new(d, from_toks(stream));
                    g.set_span(*span);
                    g.into()
                }
            }
        })
        .collect()
}

fn toks(src: &str) -> Vec<Tok> {
    to_toks(src.parse::<TokenStream>().unwrap())
}

fn render(toks: &[Tok]) -> String {
    from_toks(toks).to_string()
}

fn parse_item(src: &str) -> Result<Item, LoopXformError> {
    Item::parse(&toks(src))
}

fn parse_loop(src: &str) -> Loop {
    let tokens = toks(src);
    match rawspeed::loop_xform::parse::parse_loop(&tokens, 0) {
        Ok((l, rest)) => {
            assert!(rest.is_empty());
            l
        }
        Err(e) => panic!("{}", e.message()),
    }
}

fn panic_on_error(src: &str) {
    match parse_item(src) {
        Ok(_) => (),
        Err(e) => panic!("{}", e.message()),
    }
}

#[test]
#[should_panic(expected = "There must be an attribute")]
fn t0_test() {
    panic_on_error("");
}

#[test]
#[should_panic(expected = "attribute expected")]
fn t1_test() {
    panic_on_error("#[attr]");
}

#[test]
#[should_panic(expected = "expected attribute arguments in parentheses: #[loop_peel(...)]")]
fn t2_test() {
    panic_on_error("#[loop_peel]");
}

#[test]
#[should_panic(expected = "The attribute must specify peel count")]
fn t3_test() {
    panic_on_error("#[loop_peel()]");
}

#[test]
#[should_panic(expected = "unexpected end of input, expected some kind of loop")]
fn t4_test() {
    panic_on_error("#[loop_peel(42)]");
}

#[test]
#[should_panic(expected = "Peel count should not have any suffix")]
fn t5_test() {
    panic_on_error("#[loop_peel(42u16)]");
}

#[test]
#[should_panic(expected = "unexpected end of input, Peel count can not be zero")]
fn t6_test() {
    panic_on_error("#[loop_peel(0)]");
}

#[test]
#[should_panic(expected = "unexpected garbage in peel count argument")]
fn t7_test() {
    panic_on_error("#[loop_peel(1,)]");
}

#[test]
#[should_panic(expected = "There should only be a single attribute")]
fn t8_test() {
    panic_on_error("#[loop_peel(1)] #[loop_peel(1)]");
}

#[test]
fn good_test() {
    match parse_item("#[loop_peel(42)] 'loop_label: for elt in iter { body } rest").unwrap() {
        Item::LoopPeelAttr(attr) => {
            assert_eq!(attr.params.peel_count, 42);
            let Loop::ExprForLoop(for_loop) = attr.the_loop else {
                unreachable!()
            };
            assert_eq!(render(&for_loop.label), "'loop_label :");
            assert_eq!(render(&for_loop.pat), "elt");
            assert_eq!(render(&for_loop.expr), "iter");
            let block = Tok::Group {
                delim: Delimiter::Brace,
                stream: for_loop.body,
                span: proc_macro2::Span::call_site(),
            };
            assert_eq!(render(&[block]), "{ body }");
            assert_eq!(render(&attr.rest_of_tokenstream), "rest");
        }
        Item::LoopUnrollAttr(_) => unreachable!(),
    }
}

fn peel(count: usize, src: &str) -> String {
    let conf = LoopXFormConf {
        params: LoopPeelParams { peel_count: count },
        the_loop: parse_loop(src),
        rest_of_tokenstream: toks("rest"),
    };
    render(&peel::transform(conf, current_spans()))
}

fn unroll(method: UnrollMethod, factor: usize, src: &str) -> String {
    let conf = LoopXFormConf {
        params: LoopUnrollParams { unroll_method: method, unroll_factor: factor },
        the_loop: parse_loop(src),
        rest_of_tokenstream: toks("rest"),
    };
    match method {
        UnrollMethod::Runtime => render(&unroll_runtime::transform(&conf, current_spans())),
        UnrollMethod::WithRemainder => {
            render(&unroll_with_remainder::transform(conf, current_spans()).unwrap())
        }
    }
}

fn expected(src: &str) -> String {
    render(&toks(src))
}

#[test]
fn peel1_test() {
    for src in [
        "loop { body; break; }",
        "'loop_label: loop { body; break; }",
        "'loop_label: loop { body; break 'loop_label; }",
    ] {
        assert_eq!(
            peel(1, src),
            expected(
                "'loop_label: while true {
                    { body; break 'loop_label; }
                    loop { body; break 'loop_label; }
                    break 'loop_label;
                }
                rest"
            )
        );
    }
}

#[test]
fn peel2_test() {
    for src in [
        "loop { body; break; }",
        "'loop_label: loop { body; break; }",
        "'loop_label: loop { body; break 'loop_label; }",
    ] {
        assert_eq!(
            peel(2, src),
            expected(
                "'loop_label: while true {
                    { body; break 'loop_label; }
                    { body; break 'loop_label; }
                    loop { body; break 'loop_label; }
                    break 'loop_label;
                }
                rest"
            )
        );
    }
}

const NESTED_BODY: &str = "
    for elt in other_iter { body; break; };
    while other_iter { body; break; };
    loop { body; break; };
";

#[test]
fn peel1_with_nested_loop_test() {
    for src in [
        format!("loop {{ {NESTED_BODY} break; }}"),
        format!("'loop_label: loop {{ {NESTED_BODY} break; }}"),
        format!("'loop_label: loop {{ {NESTED_BODY} break 'loop_label; }}"),
    ] {
        assert_eq!(
            peel(1, &src),
            expected(&format!(
                "'loop_label: while true {{
                    {{ {NESTED_BODY} break 'loop_label; }}
                    loop {{ {NESTED_BODY} break 'loop_label; }}
                    break 'loop_label;
                }}
                rest"
            ))
        );
    }
}

#[test]
fn expr_for_loop_unroll1_test() {
    assert_eq!(
        unroll(UnrollMethod::Runtime, 1, "'loop_label: for elt in iter { body }"),
        expected(
            "{
                let mut r#iter = iter;
                'loop_label : while true {
                    if let Some(elt) = r#iter.next() { body } else { break; }
                }
            }
            rest"
        )
    );
}

#[test]
fn expr_for_loop_unroll2_test() {
    assert_eq!(
        unroll(UnrollMethod::Runtime, 2, "'loop_label: for elt in iter { body }"),
        expected(
            "{
                let mut r#iter = iter;
                'loop_label : while true {
                    if let Some(elt) = r#iter.next() { body } else { break; }
                    if let Some(elt) = r#iter.next() { body } else { break; }
                }
            }
            rest"
        )
    );
}

#[test]
fn expr_loop_unroll1_test() {
    assert_eq!(
        unroll(UnrollMethod::Runtime, 1, "'loop_label: loop { body }"),
        expected("'loop_label: loop { { body } } rest")
    );
}

#[test]
fn expr_loop_unroll2_test() {
    assert_eq!(
        unroll(UnrollMethod::Runtime, 2, "'loop_label: loop { body }"),
        expected("'loop_label: loop { { body } { body } } rest")
    );
}

#[test]
fn tests_unroll1_test() {
    for src in [
        "for elt in iter { body; break; }",
        "'loop_label: for elt in iter { body; break; }",
        "'loop_label: for elt in iter { body; break 'loop_label; }",
    ] {
        assert_eq!(
            unroll(UnrollMethod::WithRemainder, 1, src),
            expected(
                "'loop_label: while true {
                    let mut r#iter = iter;
                    let mut r#iter_1_of_1 = None;
                    'label_inner: while true {
                        r#iter_1_of_1 = r#iter.next();
                        if let Some(r#elt_1_of_1) = r#iter_1_of_1.take() {
                            {
                                let elt = r#elt_1_of_1;
                                body;
                                break 'loop_label;
                            }
                        } else {
                            break 'label_inner;
                        }
                    }
                    break 'loop_label;
                }
                rest"
            )
        );
    }
}

#[test]
fn tests_unroll2_test() {
    for src in [
        "for elt in iter { body; break; }",
        "'loop_label: for elt in iter { body; break; }",
        "'loop_label: for elt in iter { body; break 'loop_label; }",
    ] {
        assert_eq!(
            unroll(UnrollMethod::WithRemainder, 2, src),
            expected(
                "'loop_label: while true {
                    let mut r#iter = iter;
                    let mut r#iter_2_of_2 = None;
                    let mut r#iter_1_of_2 = None;
                    'label_inner: while true {
                        r#iter_1_of_2 = r#iter.next();
                        r#iter_2_of_2 = if r#iter_1_of_2.is_some() { r#iter.next() } else { None };
                        if let Some(r#elt_2_of_2) = r#iter_2_of_2.take() &&
                           let Some(r#elt_1_of_2) = r#iter_1_of_2.take() {
                            {
                                let elt = r#elt_1_of_2;
                                body;
                                break 'loop_label;
                            }
                            {
                                let elt = r#elt_2_of_2;
                                body;
                                break 'loop_label;
                            }
                        } else {
                            break 'label_inner;
                        }
                    }
                    if let Some(elt) = r#iter_1_of_2.take() {
                        body;
                        break 'loop_label;
                    } else {
                        break 'loop_label;
                    }
                    break 'loop_label;
                }
                rest"
            )
        );
    }
}

#[test]
fn unroll3_test() {
    for src in [
        "for elt in iter { body; break; }",
        "'loop_label: for elt in iter { body; break; }",
        "'loop_label: for elt in iter { body; break 'loop_label; }",
    ] {
        assert_eq!(
            unroll(UnrollMethod::WithRemainder, 3, src),
            expected(
                "'loop_label: while true {
                    let mut r#iter = iter;
                    let mut r#iter_3_of_3 = None;
                    let mut r#iter_2_of_3 = None;
                    let mut r#iter_1_of_3 = None;
                    'label_inner: while true {
                        r#iter_1_of_3 = r#iter.next();
                        r#iter_2_of_3 = if r#iter_1_of_3.is_some() { r#iter.next() } else { None };
                        r#iter_3_of_3 = if r#iter_2_of_3.is_some() { r#iter.next() } else { None };
                        if let Some(r#elt_3_of_3) = r#iter_3_of_3.take() &&
                           let Some(r#elt_2_of_3) = r#iter_2_of_3.take() &&
                           let Some(r#elt_1_of_3) = r#iter_1_of_3.take() {
                            {
                                let elt = r#elt_1_of_3;
                                body;
                                break 'loop_label;
                            }
                            {
                                let elt = r#elt_2_of_3;
                                body;
                                break 'loop_label;
                            }
                            {
                                let elt = r#elt_3_of_3;
                                body;
                                break 'loop_label;
                            }
                        } else {
                            break 'label_inner;
                        }
                    }
                    if let Some(elt) = r#iter_1_of_3.take() {
                        body;
                        break 'loop_label;
                    } else {
                        break 'loop_label;
                    }
                    if let Some(elt) = r#iter_2_of_3.take() {
                        body; break 'loop_label;
                    } else {
                        break 'loop_label;
                    }
                    break 'loop_label;
                }
                rest"
            )
        );
    }
}

#[test]
fn unroll1_with_nested_loop_test() {
    for src in [
        format!("for elt in iter {{ {NESTED_BODY} break; }}"),
        format!("'loop_label: for elt in iter {{ {NESTED_BODY} break; }}"),
        format!("'loop_label: for elt in iter {{ {NESTED_BODY} break 'loop_label; }}"),
    ] {
        assert_eq!(
            unroll(UnrollMethod::WithRemainder, 1, &src),
            expected(&format!(
                "'loop_label: while true {{
                    let mut r#iter = iter;
                    let mut r#iter_1_of_1 = None;
                    'label_inner: while true {{
                        r#iter_1_of_1 = r#iter.next();
                        if let Some(r#elt_1_of_1) = r#iter_1_of_1.take() {{
                            {{
                                let elt = r#elt_1_of_1; {NESTED_BODY} break 'loop_label;
                            }}
                        }} else {{
                            break 'label_inner;
                        }}
                    }}
                    break 'loop_label;
                }}
                rest"
            ))
        );
    }
}

#[test]
fn peel_while_loop_keeps_condition() {
    assert_eq!(
        peel(1, "while let Some(i) = it.next() { f(i); }"),
        expected(
            "'loop_label: while true {
                if let Some(i) = it.next() { f(i); } else { break 'loop_label; }
                while let Some(i) = it.next() { f(i); }
                break 'loop_label;
            }
            rest"
        )
    );
}

#[test]
fn peel_for_loop_shape() {
    assert_eq!(
        peel(1, "for x in v { if x { break; } }"),
        expected(
            "'loop_label: while true {
                let mut r#iter = v;
                if let Some(x) = r#iter.next() { if x { break 'loop_label; } } else { break 'loop_label; }
                for x in r#iter { if x { break 'loop_label; } }
                break 'loop_label;
            }
            rest"
        )
    );
}

#[test]
fn unroll_runtime_while_loop_shape() {
    assert_eq!(
        unroll(UnrollMethod::Runtime, 2, "'a: while c { s; }"),
        expected("'a: while true { if c { s; } else { break; } if c { s; } else { break; } } rest")
    );
}

#[test]
fn unroll_with_remainder_refuses_other_loops() {
    let conf = LoopXFormConf {
        params: LoopUnrollParams { unroll_method: UnrollMethod::WithRemainder, unroll_factor: 2 },
        the_loop: parse_loop("loop { body }"),
        rest_of_tokenstream: Vec::new(),
    };
    assert_eq!(
        unroll_with_remainder::transform(conf, current_spans()).err(),
        Some(LoopXformError::UnsupportedLoopKind)
    );
}

#[test]
fn enable_loop_xforms_unrolls() {
    let out = enable_loop_xforms(&toks("#[loop_unroll(method(runtime), factor(2))] loop { a(); } ;")).unwrap();
    assert_eq!(render(&out), expected("loop { { a(); } { a(); } } ;"));
}

#[test]
fn enable_loop_xforms_peels() {
    let out = expand_loop_xforms(&toks("#[loop_peel(1)] loop { a(); }"), current_spans()).unwrap();
    assert_eq!(render(&out), expected("'loop_label: while true { { a(); } loop { a(); } break 'loop_label; }"));
}

#[test]
fn unroll_params_read_in_any_order() {
    let attr = toks("loop_unroll(factor(0x10), method(with_remainder),)");
    assert_eq!(
        parse_attr(&attr),
        Ok(LoopXFormParams::LoopUnroll(LoopUnrollParams {
            unroll_method: UnrollMethod::WithRemainder,
            unroll_factor: 16
        }))
    );
}

fn unroll_error(args: &str) -> LoopXformError {
    parse_attr(&toks(&format!("loop_unroll({args})"))).unwrap_err()
}

#[test]
fn unroll_attribute_errors() {
    assert_eq!(unroll_error("factor(2)"), LoopXformError::MissingMethod);
    assert_eq!(unroll_error("method(runtime)"), LoopXformError::MissingFactor);
    assert_eq!(unroll_error(""), LoopXformError::MissingMethod);
    assert_eq!(unroll_error("5"), LoopXformError::UnexpectedLiteralInNestedAttribute);
    assert_eq!(unroll_error("= x"), LoopXformError::UnexpectedTokenInNestedAttribute);
    assert_eq!(unroll_error("speed(1)"), LoopXformError::UnrecognizedParameter);
    assert_eq!(unroll_error("a::method(runtime)"), LoopXformError::UnrecognizedParameter);
    assert_eq!(unroll_error("method(runtime) factor(2)"), LoopXformError::ExpectedComma);
    assert_eq!(unroll_error("method"), LoopXformError::ExpectedParenthesesArgumentAtEnd);
    assert_eq!(unroll_error("method, factor(2)"), LoopXformError::ExpectedParenthesesArgument);
    assert_eq!(unroll_error("method()"), LoopXformError::InvalidUnrollMethodAtEnd);
    assert_eq!(unroll_error("factor()"), LoopXformError::ExpectedIntegerLiteralAtEnd);
    assert_eq!(
        LoopXformError::InvalidUnrollMethodAtEnd.message(),
        "unexpected end of input, expected valid unroll method"
    );
    assert_eq!(
        LoopXformError::ExpectedIntegerLiteralAtEnd.message(),
        "unexpected end of input, expected integer literal"
    );
    assert_eq!(unroll_error("factor[2]"), LoopXformError::ExpectedParenthesesArgument);
    assert_eq!(
        unroll_error("method(runtime), method(runtime)"),
        LoopXformError::DuplicateMethod
    );
    assert_eq!(unroll_error("method(fast)"), LoopXformError::InvalidUnrollMethod);
    assert_eq!(unroll_error("method(runtime, x)"), LoopXformError::UnrollMethodGarbage);
    assert_eq!(unroll_error("factor(1), factor(1)"), LoopXformError::DuplicateFactor);
    assert_eq!(unroll_error("factor(x)"), LoopXformError::ExpectedIntegerLiteral);
    assert_eq!(unroll_error("factor(\"2\")"), LoopXformError::ExpectedIntegerLiteral);
    assert_eq!(unroll_error("factor(2usize)"), LoopXformError::FactorSuffix);
    assert_eq!(unroll_error("factor(2 3)"), LoopXformError::FactorGarbage);
    assert_eq!(unroll_error("factor(0)"), LoopXformError::FactorZero);
    assert_eq!(
        unroll_error("factor(-2)"),
        LoopXformError::InvalidNumber(IntErrorKind::InvalidDigit)
    );
    assert_eq!(
        unroll_error("factor(100000000000000000000000)"),
        LoopXformError::InvalidNumber(IntErrorKind::PosOverflow)
    );
}

#[test]
fn attribute_shape_errors() {
    assert_eq!(
        parse_attr(&toks("loop_unroll")),
        Err(LoopXformError::ExpectedArgumentsInParentheses(AttrName::LoopUnroll))
    );
    assert_eq!(
        parse_attr(&toks("loop_unroll = 3")),
        Err(LoopXformError::ExpectedParentheses(AttrName::LoopUnroll))
    );
    assert_eq!(
        parse_attr(&toks("loop_peel = 3")),
        Err(LoopXformError::ExpectedParentheses(AttrName::LoopPeel))
    );
    assert_eq!(parse_attr(&toks("loop_peel{3}")), Ok(LoopXFormParams::LoopPeel(LoopPeelParams { peel_count: 3 })));
    assert_eq!(parse_item("# loop { }").err(), Some(LoopXformError::ExpectedSquareBrackets));
    assert_eq!(parse_item("#").err(), Some(LoopXformError::ExpectedSquareBracketsAtEnd));
    assert_eq!(parse_item("#[loop_peel(1)] x").err(), Some(LoopXformError::ExpectedLoop));
    assert_eq!(parse_item("#[loop_peel(1)] for x { }").err(), Some(LoopXformError::ExpectedLoop));
    assert_eq!(parse_item("#[loop_peel(1)] while { }").err(), Some(LoopXformError::ExpectedLoop));
    assert_eq!(parse_item("#[loop_peel(1)] loop { } + 1").err(), Some(LoopXformError::ExpectedLoop));
}

#[test]
fn error_messages() {
    assert_eq!(LoopXformError::ExpectedComma.message(), "expected `,`");
    assert_eq!(
        LoopXformError::InvalidNumber(IntErrorKind::PosOverflow).message(),
        "number too large to fit in target type"
    );
    assert_eq!(
        LoopXformError::UnsupportedLoopKind.message(),
        "Loop unroll with remainder only supported expr-for-loops"
    );
}

#[test]
fn unlabelled_breaks_get_the_label() {
    let body = toks("a; break; { break 3; } loop { break; } 'x: for i in j { break; } break 'y;");
    let label = toks("'l");
    let out = rawspeed::loop_xform::labeller::label_unlabelled_breaks(&body, &label);
    assert_eq!(
        render(&out),
        expected("a; break 'l; { break 'l 3; } loop { break; } 'x: for i in j { break; } break 'y;")
    );
}

#[test]
fn counts_from_literal_parts() {
    let s = |x: &str| x.to_owned();
    assert_eq!(factor_from_literal(&s("4"), &s(""), false), Ok(4));
    assert_eq!(factor_from_literal(&s("4"), &s("u8"), false), Err(LoopXformError::FactorSuffix));
    assert_eq!(factor_from_literal(&s("4"), &s(""), true), Err(LoopXformError::FactorGarbage));
    assert_eq!(factor_from_literal(&s("0"), &s(""), false), Err(LoopXformError::FactorZero));
    assert_eq!(
        factor_from_literal(&s("-1"), &s(""), false),
        Err(LoopXformError::InvalidNumber(IntErrorKind::InvalidDigit))
    );
    assert_eq!(peel_count_from_literal(&s("7"), &s(""), false), Ok(7));
    assert_eq!(peel_count_from_literal(&s("7"), &s("i32"), true), Err(LoopXformError::PeelCountSuffix));
    assert_eq!(peel_count_from_literal(&s("7"), &s(""), true), Err(LoopXformError::PeelCountGarbage));
    assert_eq!(peel_count_from_literal(&s("0"), &s(""), false), Err(LoopXformError::PeelCountZero));
    assert_eq!(
        peel_count_from_literal(&s(""), &s(""), false),
        Err(LoopXformError::InvalidNumber(IntErrorKind::Empty))
    );
}

#[test]
fn loops_spell_themselves() {
    for src in ["'a: for x in 0..3 { f(x); }", "while i < n { i += 1; }", "loop { break; }"] {
        let item = parse_item(&format!("#[loop_peel(1)] {src} g();")).unwrap();
        let mut out = Vec::new();
        item.the_loop().to_tokens(&mut out, current_spans());
        assert_eq!(render(&out), expected(src));
    }
}

#[test]
fn errors_do_not_depend_on_spans() {
    let here = proc_macro2::Span::call_site();
    let other = rawspeed::tokens::Spans { mixed: here, call: here };
    for src in ["#[loop_peel(0)] loop { }", "loop { }", "#[loop_unroll(method(with_remainder), factor(2))] loop { }"] {
        let a = expand_loop_xforms(&toks(src), current_spans()).err();
        let b = expand_loop_xforms(&toks(src), other).err();
        assert!(a.is_some());
        assert_eq!(a, b);
    }
}

#[test]
fn loop_heads_with_blocks_read_as_syn_reads_them() {
    let item = parse_item("#[loop_peel(1)] for x in match v { a => b, _ => c } { f(x); } g();").unwrap();
    match item.the_loop() {
        Loop::ExprForLoop(l) => {
            assert_eq!(render(&l.pat), expected("x"));
            assert_eq!(render(&l.expr), expected("match v { a => b, _ => c }"));
            assert_eq!(render(&l.body), expected("f(x);"));
        }
        _ => panic!("expected a for loop"),
    }
    let item = parse_item("#[loop_peel(1)] while if a { b } else { c } { d(); }").unwrap();
    match item.the_loop() {
        Loop::ExprWhile(l) => {
            assert_eq!(render(&l.cond), expected("if a { b } else { c }"));
            assert_eq!(render(&l.body), expected("d();"));
        }
        _ => panic!("expected a while loop"),
    }
    let item = parse_item("#[loop_peel(1)] 'l: for (a, b) in unsafe { it() } { }").unwrap();
    match item.the_loop() {
        Loop::ExprForLoop(l) => {
            assert_eq!(render(&l.label), expected("'l:"));
            assert_eq!(render(&l.expr), expected("unsafe { it() }"));
        }
        _ => panic!("expected a for loop"),
    }
}

const BREAK_BODY: &str = "let i = *i; log.borrow_mut().push(format!(\"Loop body at i = {i}\")); if i == 0 { break; }";
const BREAK_LABEL_BODY: &str =
    "let i = *i; log.borrow_mut().push(format!(\"Loop body at i = {i}\")); if i == 0 { break 'my_loop; }";

fn runtime_unrolled_for(label: &str, body: &str, n: usize) -> String {
    let arm = format!("if let Some(i) = r#iter.next() {{ {body} }} else {{ break; }}");
    expected(&format!(
        "{{ let mut r#iter = crate::LoggingIter::new(std::rc::Rc::clone(&log), 0..16); {label} while true {{ {} }} }}",
        arm.repeat(n)
    ))
}

#[test]
fn break0_test() {
    let src = format!(
        "#[loop_unroll(method(runtime), factor(16))] for i in crate::LoggingIter::new(std::rc::Rc::clone(&log), 0..16) {{ {BREAK_BODY} }}"
    );
    let out = enable_loop_xforms(&toks(&src)).unwrap();
    // Each of the sixteen copies of the body is guarded by the iterator,
    // and a `break` in the body leaves the whole unrolled loop.
    assert_eq!(render(&out), runtime_unrolled_for("", BREAK_BODY, 16));
}

#[test]
fn break_label0_test() {
    let src = format!(
        "#[loop_unroll(method(runtime), factor(16))] 'my_loop: for i in crate::LoggingIter::new(std::rc::Rc::clone(&log), 0..16) {{ {BREAK_LABEL_BODY} }}"
    );
    let out = enable_loop_xforms(&toks(&src)).unwrap();
    // The label stays on the unrolled loop, so `break 'my_loop` still
    // leaves it.
    assert_eq!(render(&out), runtime_unrolled_for("'my_loop:", BREAK_LABEL_BODY, 16));
}

#[test]
fn nested_loops_end_where_syn_ends_them() {
    let label = toks("'l");
    let label_of = |src: &str| {
        render(&rawspeed::loop_xform::labeller::label_unlabelled_breaks(&toks(src), &label))
    };
    // The closure's block belongs to the nested loop's condition; the
    // `break` in the nested loop's body stays with the nested loop.
    assert_eq!(
        label_of("while p(|x| { x }) { break; } break;"),
        expected("while p(|x| { x }) { break; } break 'l;")
    );
    // `for<'a>` starts no loop, so the `break` after it is the outer loop's.
    assert_eq!(
        label_of("let f: &dyn for<'a> Fn(&'a u8) = &g; if c { break; }"),
        expected("let f: &dyn for<'a> Fn(&'a u8) = &g; if c { break 'l; }")
    );
    assert_eq!(
        label_of("for x in match v { _ => w } { break; } break;"),
        expected("for x in match v { _ => w } { break; } break 'l;")
    );
}
