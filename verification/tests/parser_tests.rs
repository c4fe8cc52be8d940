use re_mini::context::DataContext;
use re_mini::lexer::{tokenize, LexError, Token};
use re_mini::parser::{parse, ParseError};
use re_mini::value::Value;

#[test]
fn test_tokenize_simple() {
    let tokens = tokenize("Vibo.A == 0".to_string()).unwrap();
    assert_eq!(tokens.len(), 5);
}

#[test]
fn test_parse_fib_rule() {
    let input = r#"
    rule CalcFib "Calculate Fibonacci" {
        when
            Vibo.A == 0 || Vibo.B == 0
        then
            Vibo.A = 1;
            Vibo.B = 1;
    }
    "#;

    let rules = parse(input.to_string()).unwrap();
    assert_eq!(rules.len(), 1);
    assert_eq!(rules[0].name, "CalcFib");

    let mut ctx = DataContext::new();
    ctx.set("Vibo.A".into(), Value::Int(0));
    ctx.set("Vibo.B".into(), Value::Int(1));

    for rule in rules {
        let run = rule.evaluate(&ctx).unwrap();
        assert_eq!(run, true);

        assert_eq!(rule.execute(&mut ctx).unwrap(), ());

        assert_eq!(ctx.get("Vibo.A".into()).unwrap().clone(), Value::Int(1));
        assert_eq!(ctx.get("Vibo.B".into()).unwrap().clone(), Value::Int(1));
    }
}

#[test]
fn parse_is_deterministic() {
    let src = "rule R { when A.B == 0 then A.B = 1 + 2; } rule S { when C.D > 1 then C.D = 0; }";
    let first = parse(src.to_string()).unwrap();
    let second = parse(src.to_string()).unwrap();
    assert_eq!(first, second);
}

#[test]
fn round_trip_single_rule() {
    // parse, evaluate, fire, and observe the mutated fact store
    let rules = parse("rule R { when F.A == 0 then F.A = 1; }".to_string()).unwrap();
    assert_eq!(rules.len(), 1);
    assert_eq!(rules[0].name, "R");
    let mut ctx = DataContext::new();
    ctx.set("F.A".into(), Value::Int(0));
    assert_eq!(rules[0].evaluate(&ctx).unwrap(), true);
    rules[0].execute(&mut ctx).unwrap();
    assert_eq!(ctx.get("F.A".into()), Some(&Value::Int(1)));
}

#[test]
fn literal_sum_assignment() {
    let rules = parse("rule R { when X.A == 0 then X.B = 2 + 3; }".to_string()).unwrap();
    let mut ctx = DataContext::new();
    ctx.set("X.A".into(), Value::Int(0));
    assert_eq!(rules[0].evaluate(&ctx).unwrap(), true);
    rules[0].execute(&mut ctx).unwrap();
    assert_eq!(ctx.get("X.B".into()), Some(&Value::Int(5)));
}

#[test]
fn three_segment_field_path_rejected() {
    let r = parse("rule R { when A.B == 0 then A.B.C = 1; }".to_string());
    assert_eq!(r, Err(ParseError::ExpectedAssign));
}

#[test]
fn unknown_operator_char_fails_lexing() {
    let r = tokenize("Vibo.A ^ 1".to_string());
    assert_eq!(
        r,
        Err(LexError::UnexpectedChar {
            ch: '^',
            offset: 7
        })
    );
}

#[test]
fn max_int_literal_lexes() {
    let tokens = tokenize("9223372036854775807".to_string()).unwrap();
    assert_eq!(tokens, vec![Token::Int(i64::MAX)]);
}

#[test]
fn int_literal_overflow_fails_lexing() {
    let r = tokenize("9223372036854775808".to_string());
    assert_eq!(r, Err(LexError::IntOverflow { offset: 0 }));
    let r2 = tokenize("A.B == 99999999999999999999".to_string());
    assert_eq!(r2, Err(LexError::IntOverflow { offset: 7 }));
}

#[test]
fn keywords_and_identifiers() {
    let tokens = tokenize("rule when then true false foo_1".to_string()).unwrap();
    assert_eq!(
        tokens,
        vec![
            Token::Rule,
            Token::When,
            Token::Then,
            Token::Bool(true),
            Token::Bool(false),
            Token::Ident("foo_1".to_string()),
        ]
    );
}

#[test]
fn operator_tokens() {
    let tokens = tokenize("== != <= >= && || = < > + - * / { } ( ) ; .".to_string()).unwrap();
    assert_eq!(
        tokens,
        vec![
            Token::Eq,
            Token::NotEq,
            Token::LtEq,
            Token::GtEq,
            Token::And,
            Token::Or,
            Token::Assign,
            Token::Lt,
            Token::Gt,
            Token::Plus,
            Token::Minus,
            Token::Mul,
            Token::Div,
            Token::LBrace,
            Token::RBrace,
            Token::LParen,
            Token::RParen,
            Token::Semicolon,
            Token::Dot,
        ]
    );
}

#[test]
fn lone_partner_characters_fail_lexing() {
    assert_eq!(
        tokenize("A ! B".to_string()),
        Err(LexError::UnexpectedChar {
            ch: '!',
            offset: 2
        })
    );
    assert_eq!(
        tokenize("A & B".to_string()),
        Err(LexError::UnexpectedChar {
            ch: '&',
            offset: 2
        })
    );
    assert_eq!(
        tokenize("A | B".to_string()),
        Err(LexError::UnexpectedChar {
            ch: '|',
            offset: 2
        })
    );
}

#[test]
fn comments_are_skipped() {
    let tokens = tokenize("A // comment to line end\nB".to_string()).unwrap();
    assert_eq!(
        tokens,
        vec![Token::Ident("A".to_string()), Token::Ident("B".to_string())]
    );
    let tokens2 = tokenize("A /* inner */ B".to_string()).unwrap();
    assert_eq!(
        tokens2,
        vec![Token::Ident("A".to_string()), Token::Ident("B".to_string())]
    );
}

#[test]
fn unterminated_block_comment_consumes_input() {
    let tokens = tokenize("A /* never closed".to_string()).unwrap();
    assert_eq!(tokens, vec![Token::Ident("A".to_string())]);
}

#[test]
fn string_literals_lex() {
    let tokens = tokenize("\"doc text\"".to_string()).unwrap();
    assert_eq!(tokens, vec![Token::StringLit("doc text".to_string())]);
}

#[test]
fn unterminated_string_consumes_input() {
    let tokens = tokenize("\"abc".to_string()).unwrap();
    assert_eq!(tokens, vec![Token::StringLit("abc".to_string())]);
}

#[test]
fn parse_empty_source() {
    let rules = parse("".to_string()).unwrap();
    assert_eq!(rules.len(), 0);
    let rules2 = parse("   \n\t ".to_string()).unwrap();
    assert_eq!(rules2.len(), 0);
}

#[test]
fn operators_share_one_precedence_level() {
    // left-associative: (A.X == 1 || A.X == 2) && A.X == 2 is false for A.X = 1,
    // while conventional precedence would make it true
    let rules =
        parse("rule P { when A.X == 1 || A.X == 2 && A.X == 2 then A.Y = 1; }".to_string())
            .unwrap();
    let mut ctx = DataContext::new();
    ctx.set("A.X".into(), Value::Int(1));
    assert_eq!(rules[0].evaluate(&ctx).unwrap(), false);
}

#[test]
fn parenthesized_expressions() {
    let rules = parse("rule P { when (A.X + 1) == 2 then A.Y = (1 + 1) + 1; }".to_string())
        .unwrap();
    let mut ctx = DataContext::new();
    ctx.set("A.X".into(), Value::Int(1));
    assert_eq!(rules[0].evaluate(&ctx).unwrap(), true);
    rules[0].execute(&mut ctx).unwrap();
    assert_eq!(ctx.get("A.Y".into()), Some(&Value::Int(3)));
}

#[test]
fn rule_doc_string_is_optional_and_skipped() {
    let with_doc = parse("rule R \"described\" { when A.B == 0 then A.B = 1; }".to_string())
        .unwrap();
    let without = parse("rule R { when A.B == 0 then A.B = 1; }".to_string()).unwrap();
    assert_eq!(with_doc, without);
}

#[test]
fn parse_error_variants() {
    let p = |s: &str| parse(s.to_string());
    assert_eq!(p("foo"), Err(ParseError::ExpectedRule));
    assert_eq!(p("rule 1"), Err(ParseError::ExpectedRuleName));
    assert_eq!(p("rule R when"), Err(ParseError::ExpectedLBrace));
    assert_eq!(p("rule R { A.B == 0"), Err(ParseError::ExpectedWhen));
    assert_eq!(p("rule R { when A.B == 0 }"), Err(ParseError::ExpectedThen));
    assert_eq!(
        p("rule R { when A.B == 0 then A.B = 1;"),
        Err(ParseError::ExpectedRBrace)
    );
    assert_eq!(
        p("rule R { when A.B == 0 then 5 }"),
        Err(ParseError::ExpectedIdent)
    );
    assert_eq!(
        p("rule R { when A.B == 0 then A = 1; }"),
        Err(ParseError::ExpectedDot)
    );
    assert_eq!(
        p("rule R { when A.B == 0 then A. = 1; }"),
        Err(ParseError::ExpectedFieldName)
    );
    assert_eq!(
        p("rule R { when A.B == 0 then A.B = 1 }"),
        Err(ParseError::ExpectedSemicolon)
    );
    assert_eq!(
        p("rule R { when A.B != 0 then A.B = 1; }"),
        Err(ParseError::ExpectedCmpOp)
    );
    assert_eq!(
        p("rule R { when A. == 0 then A.B = 1; }"),
        Err(ParseError::ExpectedFieldAfterDot)
    );
    assert_eq!(
        p("rule R { when (A.B == 0 then A.B = 1; }"),
        Err(ParseError::ExpectedRParen)
    );
    assert_eq!(
        p("rule R { when == 0 then A.B = 1; }"),
        Err(ParseError::UnexpectedAtom)
    );
    assert_eq!(
        p("rule R @"),
        Err(ParseError::Lex(LexError::UnexpectedChar {
            ch: '@',
            offset: 7
        }))
    );
}

#[test]
fn parse_two_rules() {
    let rules = parse(
        "rule A1 { when X.A == 0 then X.A = 1; } rule A2 { when X.A == 1 then X.A = 2; }"
            .to_string(),
    )
    .unwrap();
    assert_eq!(rules.len(), 2);
    assert_eq!(rules[0].name, "A1");
    assert_eq!(rules[1].name, "A2");
}
