use mini_compiler::general::TryReader;
use mini_compiler::parse::parser::parse;
use mini_compiler::parse::{
    Add, BinaryOperation, BlockExpression, Equality, Expression, FnCall, Func, IfExpression,
    Multiply, Primary, Relational, Root, Statement, SyntaxTree, Unary,
};
use mini_compiler::sourcecode::{Code, Position, Span};
use mini_compiler::token::{tokenize, Operator, Token};

#[test]
fn test_parse_add() {
    let src = "3 + 5 - 1";

    let tokens = tokenize(&src.to_string()).unwrap();

    let mut token_reader = TryReader::new(&tokens);

    let add = Add::parse(&mut token_reader).unwrap();
    let mut tail = add.tail().into_iter();

    assert_eq!(tail.next().unwrap().0.value, Operator::Add);
    assert_eq!(tail.next().unwrap().0.value, Operator::Sub);
}

#[test]
fn test_parse_eq() {
    let src = "3 + 5 == 1";

    let tokens = tokenize(&src.to_string()).unwrap();

    let mut token_reader = TryReader::new(&tokens);

    let add = Equality::parse(&mut token_reader).unwrap();
    let mut tail = add.tail().into_iter();

    assert_eq!(tail.next().unwrap().0.value, Operator::Equal);
}

#[test]
fn test_parse_neq() {
    let src = "3 != 1";

    let tokens = tokenize(&src.to_string()).unwrap();

    let mut token_reader = TryReader::new(&tokens);

    let add = Equality::parse(&mut token_reader).unwrap();
    let mut tail = add.tail().into_iter();

    assert_eq!(tail.next().unwrap().0.value, Operator::NotEqual);
}

#[test]
fn test_parse() {
    let src = "func foo(a, b) {
            a + b
        }";
    let tokens = tokenize(&src.to_string()).unwrap();
    let mut token_reader = TryReader::new(&tokens);

    let func = Func::parse(&mut token_reader).unwrap();

    assert_eq!(func.name, "foo".to_string());
    assert_eq!(func.args.len(), 2);
    assert_eq!(func.args[0], "a".to_string());
    assert_eq!(func.args[1], "b".to_string());
}

#[test]
fn test_parse_zero_arg() {
    let src = "func main() 0";
    let tokens = tokenize(&src.to_string()).unwrap();
    let mut token_reader = TryReader::new(&tokens);

    let func = Func::parse(&mut token_reader).unwrap();

    assert_eq!(func.name, "main".to_string());
    assert_eq!(func.args.len(), 0);
}

#[test]
fn test_parse_multiply() {
    let src = "3 * 5 / 1";

    let tokens = tokenize(&src.to_string()).unwrap();

    let mut token_reader = TryReader::new(&tokens);

    let multiply = Multiply::parse(&mut token_reader).unwrap();
    let mut tail = multiply.tail().into_iter();

    assert_eq!(tail.next().unwrap().0.value, Operator::Mul);
    assert_eq!(tail.next().unwrap().0.value, Operator::Div);
}

#[test]
fn test_parse_expression() {
    // 3+5-1
    let findable_tokens = vec![
        Code { value: Token::Number(3), span: Span::new(0, 0, 1) },
        Code { value: Token::add(), span: Span::new(0, 1, 1) },
        Code { value: Token::Number(5), span: Span::new(0, 2, 1) },
        Code { value: Token::sub(), span: Span::new(0, 3, 1) },
        Code { value: Token::Number(1), span: Span::new(0, 4, 1) },
    ];
    let mut token_reader = TryReader::new(&findable_tokens);

    let syntax_tree = parse(&mut token_reader).unwrap();

    assert_eq!(&syntax_tree.expression.head.value, &3);

    assert_eq!(&syntax_tree.expression.tail[0].0.value, &Operator::Add);
    assert_eq!(&syntax_tree.expression.tail[0].1.value, &5);

    assert_eq!(&syntax_tree.expression.tail[1].0.value, &Operator::Sub);
    assert_eq!(&syntax_tree.expression.tail[1].1.value, &1);
}

#[test]
fn test_parse_integer() {
    // 10
    let tokens = vec![Code { value: Token::Number(10), span: Span::new(0, 0, 1) }];
    let mut token_reader = TryReader::new(&tokens);

    let primary = Primary::parse(&mut token_reader).unwrap();

    if let Primary::Integer(Code { value: i, span: _ }) = primary {
        assert_eq!(i, 10);
    } else {
        panic!("数字になっていません。")
    }
}

#[test]
fn test_parse_round_bracket() {
    let src = "(4+3)";

    let tokens = tokenize(&src.to_string()).unwrap();

    let mut token_reader = TryReader::new(&tokens);

    let primary = Primary::parse(&mut token_reader).unwrap();

    if let Primary::Expression(_expression) = primary {
    } else {
        panic!("Expressionになっていません。")
    }
}

#[test]
fn test_parse_fn_call() {
    let src = "foo(1, 2,)";

    let tokens = tokenize(&src.to_string()).unwrap();

    let mut token_reader = TryReader::new(&tokens);

    let fn_call = FnCall::parse(&mut token_reader).unwrap();

    assert_eq!(fn_call.func.value, "foo".to_string());
    assert_eq!(fn_call.args.len(), 2);

    let src = "bar(1, 2)";

    let tokens = tokenize(&src.to_string()).unwrap();

    let mut token_reader = TryReader::new(&tokens);

    let fn_call = FnCall::parse(&mut token_reader).unwrap();

    assert_eq!(fn_call.func.value, "bar".to_string());
    assert_eq!(fn_call.args.len(), 2);
}

#[test]
fn test_parse_relational() {
    let src = "3 < 5 <= 1";
    let tokens = tokenize(&src.to_string()).unwrap();
    let mut token_reader = TryReader::new(&tokens);

    let relational = Relational::parse(&mut token_reader).unwrap();
    let mut tail = relational.tail().into_iter();

    assert_eq!(tail.next().unwrap().0.value, Operator::Less);
    assert_eq!(tail.next().unwrap().0.value, Operator::LessEq);
}

#[test]
fn test_parse_positive() {
    let src = "+3";
    let tokens = tokenize(&src.to_string()).unwrap();
    let mut token_reader = TryReader::new(&tokens);

    let unary = Unary::parse(&mut token_reader).unwrap();

    if let Unary::Positive(_, _) = unary {
    } else {
        panic!("正になっていません。")
    }
}

#[test]
fn test_parse_implicit_positive() {
    // 6
    let src = "6";
    let tokens = tokenize(&src.to_string()).unwrap();
    let mut token_reader = TryReader::new(&tokens);

    let unary = Unary::parse(&mut token_reader).unwrap();

    if let Unary::Positive(_, _) = unary {
    } else {
        panic!("正になっていません。")
    }
}

#[test]
fn test_parse_negative() {
    let src = "-5";
    let tokens = tokenize(&src.to_string()).unwrap();
    let mut token_reader = TryReader::new(&tokens);

    let unary = Unary::parse(&mut token_reader).unwrap();

    if let Unary::Negative(_, _) = unary {
    } else {
        panic!("正になっています。")
    }
}

fn tokens_of(src: &str) -> Vec<Code<Token>> {
    tokenize(&src.to_string()).unwrap()
}

#[test]
fn flat_sum_stops_at_other_tokens_and_reports_missing_numbers() {
    let tokens = tokens_of("1 + 2 * 3");
    let mut reader = TryReader::new(&tokens);
    let tree = parse(&mut reader).unwrap();
    assert_eq!(tree.expression.tail.len(), 1);
    assert_eq!(reader.offset(), 3);

    let tokens = tokens_of("1 +");
    let mut reader = TryReader::new(&tokens);
    let error = parse(&mut reader).err().unwrap();
    assert_eq!(error.0, None);
    assert_eq!(error.1, "数を期待していましたが、トークンがありませんでした。");
    assert_eq!(reader.offset(), 0);

    let tokens = tokens_of("1 + x");
    let mut reader = TryReader::new(&tokens);
    let error = parse(&mut reader).err().unwrap();
    assert_eq!(error.0, Some(Span::new(0, 4, 1)));
    assert_eq!(error.1, "数ではありません。");

    let tokens = tokens_of("");
    let mut reader = TryReader::new(&tokens);
    let error = parse(&mut reader).err().unwrap();
    assert_eq!(error.0, None);
    assert_eq!(error.1, "式を期待していましたが、トークンがありませんでした。");
}

#[test]
fn chain_head_and_tail_follow_the_source_order() {
    let tokens = tokens_of("1 + 2 - 3 + 4");
    let mut reader = TryReader::new(&tokens);
    let add = Add::parse(&mut reader).unwrap();
    assert_eq!(reader.offset(), 7);
    let tail = add.tail();
    assert_eq!(tail.len(), 3);
    assert_eq!(tail[0].0.value, Operator::Add);
    assert_eq!(tail[1].0.value, Operator::Sub);
    assert_eq!(tail[2].0.value, Operator::Add);
    assert_eq!(tail[1].0.span, Span::new(0, 6, 1));
    let first = add.head().head();
    match first {
        Unary::Positive(Primary::Integer(number), span) => {
            assert_eq!(number.value, 1);
            assert_eq!(*span, Span::new(0, 0, 1));
        }
        _ => panic!("the head is the number 1"),
    }
    match tail[2].1.head() {
        Unary::Positive(Primary::Integer(number), _) => assert_eq!(number.value, 4),
        _ => panic!("the last element is the number 4"),
    }
    assert_eq!(add.span(), Span::new(0, 0, 13));
}

#[test]
fn precedence_nests_products_inside_sums() {
    let tokens = tokens_of("1 + 2 * 3 < 4 == 5");
    let mut reader = TryReader::new(&tokens);
    let equality = Equality::parse(&mut reader).unwrap();
    assert_eq!(equality.tail().len(), 1);
    let relational = equality.head();
    assert_eq!(relational.tail().len(), 1);
    let add = relational.head();
    assert_eq!(add.tail().len(), 1);
    assert_eq!(add.head().tail().len(), 0);
    assert_eq!(add.tail()[0].1.tail().len(), 1);
    assert_eq!(add.tail()[0].1.tail()[0].0.value, Operator::Mul);
}

#[test]
fn generic_chain_parser_reads_the_given_operators() {
    let tokens = tokens_of("1 * 2 + 3");
    let mut reader = TryReader::new(&tokens);
    let chain: BinaryOperation<Unary> =
        BinaryOperation::parse(&mut reader, &vec![Operator::Mul]).unwrap();
    assert_eq!(reader.offset(), 3);
    assert_eq!(chain.tail().len(), 1);
    assert_eq!(chain.span(), Span::new(0, 0, 5));

    let mut reader = TryReader::new(&tokens);
    let chain: BinaryOperation<Unary> =
        BinaryOperation::parse(&mut reader, &vec![Operator::Mul, Operator::Add]).unwrap();
    assert_eq!(reader.offset(), 5);
    assert_eq!(chain.tail().len(), 2);

    let tokens = tokens_of("1 *");
    let mut reader = TryReader::new(&tokens);
    let failed: Result<BinaryOperation<Unary>, _> =
        BinaryOperation::parse(&mut reader, &vec![Operator::Mul]);
    assert!(failed.is_err());
    assert_eq!(reader.offset(), 0);
}

#[test]
fn unary_span_covers_sign_and_term() {
    let tokens = tokens_of("- 12");
    let mut reader = TryReader::new(&tokens);
    let unary = Unary::parse(&mut reader).unwrap();
    assert_eq!(unary.span(), Span::new(0, 0, 4));
}

#[test]
fn primary_failures_name_the_offending_token() {
    let tokens = tokens_of("");
    let mut reader = TryReader::new(&tokens);
    let error = Primary::parse(&mut reader).err().unwrap();
    assert_eq!(error.0, None);
    assert_eq!(error.1, "式を期待していましたが、トークンがありませんでした。");

    let tokens = tokens_of("* 1");
    let mut reader = TryReader::new(&tokens);
    let error = Primary::parse(&mut reader).err().unwrap();
    assert_eq!(error.0, Some(Span::new(0, 0, 1)));
    assert_eq!(error.1, "数字または識別子または\"(\"を期待しています。");
    assert_eq!(reader.offset(), 0);
}

#[test]
fn missing_closing_bracket_is_reported() {
    let tokens = tokens_of("(1 + 2");
    let mut reader = TryReader::new(&tokens);
    let error = Primary::parse(&mut reader).err().unwrap();
    assert_eq!(error.0, None);
    assert_eq!(error.1, "\")\"を期待していましたが、トークンがありませんでした。");
    assert_eq!(reader.offset(), 0);

    let tokens = tokens_of("(1 + 2 }");
    let mut reader = TryReader::new(&tokens);
    let error = Primary::parse(&mut reader).err().unwrap();
    assert_eq!(error.0, Some(Span::new(0, 7, 1)));
    assert_eq!(error.1, "\")\"を期待しています。");
    assert_eq!(reader.offset(), 0);
}

#[test]
fn identifier_is_a_call_only_before_a_bracket() {
    let tokens = tokens_of("foo + 1");
    let mut reader = TryReader::new(&tokens);
    match Primary::parse(&mut reader).unwrap() {
        Primary::Identifier(name) => {
            assert_eq!(name.value, "foo");
            assert_eq!(name.span, Span::new(0, 0, 3));
        }
        _ => panic!("a name without a bracket is a variable"),
    }
    assert_eq!(reader.offset(), 1);

    let tokens = tokens_of("foo()");
    let mut reader = TryReader::new(&tokens);
    match Primary::parse(&mut reader).unwrap() {
        Primary::FnCall(call) => {
            assert_eq!(call.func.value, "foo");
            assert_eq!(call.args.len(), 0);
            assert_eq!(call.span(), Span::new(0, 0, 5));
        }
        _ => panic!("a name before a bracket is a call"),
    }
    assert_eq!(reader.offset(), 3);
}

#[test]
fn calls_take_up_to_six_arguments() {
    let tokens = tokens_of("f(1, 2, 3, 4, 5, 6)");
    let mut reader = TryReader::new(&tokens);
    assert_eq!(FnCall::parse(&mut reader).unwrap().args.len(), 6);

    let tokens = tokens_of("f(1, 2, 3, 4, 5, 6, 7)");
    let mut reader = TryReader::new(&tokens);
    let error = FnCall::parse(&mut reader).err().unwrap();
    assert_eq!(error.0, Some(Span::new(0, 20, 1)));
    assert_eq!(error.1, ")を期待していました");
    assert_eq!(reader.offset(), 0);
}

#[test]
fn call_failures() {
    let tokens = tokens_of("1");
    let mut reader = TryReader::new(&tokens);
    let error = FnCall::parse(&mut reader).err().unwrap();
    assert_eq!(error.0, Some(Span::new(0, 0, 1)));
    assert_eq!(error.1, "識別子を期待していました");

    let tokens = tokens_of("f 1");
    let mut reader = TryReader::new(&tokens);
    let error = FnCall::parse(&mut reader).err().unwrap();
    assert_eq!(error.0, None);
    assert_eq!(error.1, "(を期待していました。");
    assert_eq!(reader.offset(), 0);

    let tokens = tokens_of("f(1");
    let mut reader = TryReader::new(&tokens);
    let error = FnCall::parse(&mut reader).err().unwrap();
    assert_eq!(error.0, None);
    assert_eq!(error.1, ")を期待していました");
}

#[test]
fn if_expression_with_line_breaks() {
    let tokens = tokens_of("if 1 < 2\n then 3\n else 4");
    let mut reader = TryReader::new(&tokens);
    match Expression::parse(&mut reader).unwrap() {
        Expression::IfExpression(branch) => {
            assert_eq!(branch.span(), Span { start: Position { line: 0, pos: 0 }, end: Position { line: 2, pos: 7 } });
            assert_eq!(branch.if_span, Span::new(0, 0, 2));
        }
        _ => panic!("an expression that starts with if is a conditional"),
    }
    assert_eq!(reader.offset(), tokens.len());
}

#[test]
fn if_expression_failures() {
    let tokens = tokens_of("1");
    let mut reader = TryReader::new(&tokens);
    let error = IfExpression::parse(&mut reader).err().unwrap();
    assert_eq!(error.0, Some(Span::new(0, 0, 1)));
    assert_eq!(error.1, "ifを期待していました");

    let tokens = tokens_of("if 1 2");
    let mut reader = TryReader::new(&tokens);
    let error = IfExpression::parse(&mut reader).err().unwrap();
    assert_eq!(error.0, Some(Span::new(0, 5, 1)));
    assert_eq!(error.1, "thenを期待していました");
    assert_eq!(reader.offset(), 0);

    let tokens = tokens_of("if 1 then 2");
    let mut reader = TryReader::new(&tokens);
    let error = IfExpression::parse(&mut reader).err().unwrap();
    assert_eq!(error.0, None);
    assert_eq!(error.1, "elseを期待していました");
    assert_eq!(reader.offset(), 0);
}

#[test]
fn block_with_statements_and_outcome() {
    let tokens = tokens_of("{\n let x := 1\n return x\n x + 1\n}");
    let mut reader = TryReader::new(&tokens);
    let block = BlockExpression::parse(&mut reader).unwrap();
    assert_eq!(block.statements.len(), 2);
    match &block.statements[0] {
        Statement::Assignment(assignment) => {
            assert_eq!(assignment.identifier().value, "x");
            assert_eq!(assignment.identifier().span, Span::new(1, 5, 1));
            assert_eq!(assignment.span(), Span::new(1, 1, 10));
            match assignment.content() {
                Expression::PureExpression(_) => {}
                _ => panic!("the value is a term"),
            }
        }
        _ => panic!("the first statement is an assignment"),
    }
    match &block.statements[1] {
        Statement::Return(ret) => {
            assert_eq!(ret.span(), Span::new(2, 1, 8));
            match ret.content() {
                Expression::PureExpression(_) => {}
                _ => panic!("the value is a term"),
            }
        }
        _ => panic!("the second statement is a return"),
    }
    assert_eq!(block.statements[1].span(), Span::new(2, 1, 8));
    assert_eq!(block.span(), Span { start: Position { line: 0, pos: 0 }, end: Position { line: 4, pos: 1 } });
    assert_eq!(reader.offset(), tokens.len());
}

#[test]
fn block_failures() {
    let tokens = tokens_of("1");
    let mut reader = TryReader::new(&tokens);
    let error = BlockExpression::parse(&mut reader).err().unwrap();
    assert_eq!(error.0, Some(Span::new(0, 0, 1)));
    assert_eq!(error.1, "{ を期待していました");

    let tokens = tokens_of("{ 1");
    let mut reader = TryReader::new(&tokens);
    let error = BlockExpression::parse(&mut reader).err().unwrap();
    assert_eq!(error.0, None);
    assert_eq!(error.1, "ブロックを期待しいていました");
    assert_eq!(reader.offset(), 0);

    let tokens = tokens_of("{ 1 )");
    let mut reader = TryReader::new(&tokens);
    let error = BlockExpression::parse(&mut reader).err().unwrap();
    assert_eq!(error.0, Some(Span::new(0, 4, 1)));
    assert_eq!(error.1, "} を期待していました");

    let tokens = tokens_of("{ let x := 1 }");
    let mut reader = TryReader::new(&tokens);
    assert!(BlockExpression::parse(&mut reader).is_err());
    assert_eq!(reader.offset(), 0);
}

#[test]
fn abandoned_alternative_leaves_no_trace() {
    // `let return 5` is no assignment, and the cursor goes back before `let`,
    // so it is no return statement either.
    let tokens = tokens_of("let return 5");
    let mut reader = TryReader::new(&tokens);
    let error = Statement::parse(&mut reader).err().unwrap();
    assert_eq!(error.0, Some(Span::new(0, 0, 3)));
    assert_eq!(error.1, "returnを期待していました");
    assert_eq!(reader.offset(), 0);
}

#[test]
fn statement_failures() {
    let tokens = tokens_of("let 1");
    let mut reader = TryReader::new(&tokens);
    let error = mini_compiler::parse::Assignment::parse(&mut reader).err().unwrap();
    assert_eq!(error.0, Some(Span::new(0, 4, 1)));
    assert_eq!(error.1, "識別子を期待していました。");

    let tokens = tokens_of("let x 1");
    let mut reader = TryReader::new(&tokens);
    let error = mini_compiler::parse::Assignment::parse(&mut reader).err().unwrap();
    assert_eq!(error.0, Some(Span::new(0, 6, 1)));
    assert_eq!(error.1, "代入演算子を期待していました");

    let tokens = tokens_of("x");
    let mut reader = TryReader::new(&tokens);
    let error = mini_compiler::parse::Assignment::parse(&mut reader).err().unwrap();
    assert_eq!(error.0, Some(Span::new(0, 0, 1)));
    assert_eq!(error.1, "letを期待していました");

    let tokens = tokens_of("");
    let mut reader = TryReader::new(&tokens);
    let error = mini_compiler::parse::Return::parse(&mut reader).err().unwrap();
    assert_eq!(error.0, None);
    assert_eq!(error.1, "returnを期待していました");
}

#[test]
fn func_span_and_failures() {
    let tokens = tokens_of("func add(a, b,) a + b");
    let mut reader = TryReader::new(&tokens);
    let func = Func::parse(&mut reader).unwrap();
    assert_eq!(func.args, vec!["a".to_string(), "b".to_string()]);
    assert_eq!(func.span(), Span::new(0, 0, 21));

    let tokens = tokens_of("add()");
    let mut reader = TryReader::new(&tokens);
    let error = Func::parse(&mut reader).err().unwrap();
    assert_eq!(error.0, Some(Span::new(0, 0, 3)));
    assert_eq!(error.1, "funcを期待していました");

    let tokens = tokens_of("func 1");
    let mut reader = TryReader::new(&tokens);
    let error = Func::parse(&mut reader).err().unwrap();
    assert_eq!(error.0, Some(Span::new(0, 5, 1)));
    assert_eq!(error.1, "識別子を期待していました");

    let tokens = tokens_of("func f 1");
    let mut reader = TryReader::new(&tokens);
    let error = Func::parse(&mut reader).err().unwrap();
    assert_eq!(error.0, Some(Span::new(0, 7, 1)));
    assert_eq!(error.1, "(を期待していました");

    let tokens = tokens_of("func f(a b) 1");
    let mut reader = TryReader::new(&tokens);
    let error = Func::parse(&mut reader).err().unwrap();
    assert_eq!(error.0, Some(Span::new(0, 9, 1)));
    assert_eq!(error.1, ")を期待していました");
    assert_eq!(reader.offset(), 0);

    let tokens = tokens_of("func f(a, b, c, d, e, f, g) 1");
    let mut reader = TryReader::new(&tokens);
    assert!(Func::parse(&mut reader).is_err());
}

#[test]
fn root_reads_every_function() {
    let tokens = tokens_of("func one() 1\n\nfunc two(a) a\n");
    let mut reader = TryReader::new(&tokens);
    let root = Root::parse(&mut reader).unwrap();
    assert_eq!(root.funcs.len(), 2);
    assert_eq!(root.funcs[0].name, "one");
    assert_eq!(root.funcs[1].name, "two");
    assert_eq!(reader.offset(), tokens.len());
    assert_eq!(root.span(), Span { start: Position { line: 0, pos: 0 }, end: Position { line: 2, pos: 13 } });

    let tokens = tokens_of("");
    let mut reader = TryReader::new(&tokens);
    assert_eq!(Root::parse(&mut reader).unwrap().funcs.len(), 0);

    let tokens = tokens_of("func one() 1\n 2");
    let mut reader = TryReader::new(&tokens);
    let error = Root::parse(&mut reader).err().unwrap();
    assert_eq!(error.0, Some(Span::new(1, 1, 1)));
    assert_eq!(reader.offset(), 0);
}

fn contains(outer: Span, inner: Span) -> bool {
    outer.start <= inner.start && inner.end <= outer.end
}

fn check_expression(expression: &Expression, outer: Span) {
    let span = expression.span();
    assert!(contains(outer, span), "{:?} is not within {:?}", span, outer);
    match expression {
        Expression::PureExpression(pure) => {
            for relational in pure.equality.tail().iter().map(|pair| pair.1).chain(Some(pure.equality.head())) {
                assert!(contains(span, relational.span()));
                for add in relational.tail().iter().map(|pair| pair.1).chain(Some(relational.head())) {
                    assert!(contains(relational.span(), add.span()));
                    for multiply in add.tail().iter().map(|pair| pair.1).chain(Some(add.head())) {
                        assert!(contains(add.span(), multiply.span()));
                        for unary in multiply.tail().iter().map(|pair| pair.1).chain(Some(multiply.head())) {
                            assert!(contains(multiply.span(), unary.span()));
                            let primary = match unary {
                                Unary::Positive(primary, _) => primary,
                                Unary::Negative(primary, _) => primary,
                            };
                            assert!(contains(unary.span(), primary.span()));
                            match primary {
                                Primary::Expression(inner) => check_expression(inner, primary.span()),
                                Primary::FnCall(call) => {
                                    assert!(contains(call.span(), call.func.span));
                                    for argument in &call.args {
                                        check_expression(argument, call.span());
                                    }
                                }
                                _ => {}
                            }
                        }
                    }
                }
            }
        }
        Expression::IfExpression(branch) => {
            assert!(contains(span, branch.if_span));
            check_expression(&branch.condition, span);
            check_expression(&branch.then_, span);
            check_expression(&branch.else_, span);
        }
        Expression::BlockExpression(block) => {
            assert!(contains(span, block.open));
            assert!(contains(span, block.close));
            for statement in &block.statements {
                assert!(contains(span, statement.span()));
                match statement {
                    Statement::Assignment(assignment) => {
                        assert!(contains(statement.span(), assignment.identifier().span));
                        check_expression(assignment.content(), statement.span());
                    }
                    Statement::Return(ret) => check_expression(ret.content(), statement.span()),
                }
            }
            check_expression(&block.outcome, span);
        }
    }
}

#[test]
fn every_span_contains_the_spans_of_the_children() {
    let src = "func f(a, b) {
    let x := a + 1 * (b - 2)
    let y := if x < 3 then f(x - 1, { let z := 4
        z }) else -(x == b) + g()

    return x + y != 0
    { y }
}

func g() if 1 then 2
    else 3
";
    let tokens = tokens_of(src);
    for pair in tokens.windows(2) {
        assert!(pair[0].span.start <= pair[0].span.end);
        assert!(pair[0].span.end <= pair[1].span.start);
    }
    let mut reader = TryReader::new(&tokens);
    let root = Root::parse(&mut reader).unwrap();
    assert_eq!(root.funcs.len(), 2);
    for func in &root.funcs {
        assert!(contains(root.span(), func.span()));
        check_expression(&func.body, func.span());
    }
}
