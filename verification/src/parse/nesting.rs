use vstd::prelude::*;
use crate::parse::binary_operation::BinaryOperation;
use crate::parse::grammar::{
    add_operators, add_span, arguments, assignment, block_expression, close_curly, close_round,
    equality, equality_operators, equality_span, expression, expression_span, fn_call,
    fn_call_span, func, identifier_at, if_expression, line_breaks, multiply, multiply_operators,
    multiply_span, open_curly, open_round, operator_at, parameters, primary, primary_span,
    relational, relational_operators, relational_span, remaining, return_, root, root_span,
    round_bracket, statement, statement_span, statements, token_is, unary, unary_span, word,
    AddModel, EqualityModel, ExpressionModel, FnCallModel, FuncModel, Expectation, MultiplyModel,
    PrimaryModel, RelationalModel, RootModel, StatementModel, UnaryModel,
};
use crate::sourcecode::Code;
use crate::sourcecode::Span;
use crate::token::order::{before, in_order, lemma_tokens_in_order, well_formed};
use crate::token::tokenize::tokens_of;
use crate::token::Bracket;
use crate::token::BracketSide;
use crate::token::Operator;
use crate::token::ReservedWord;
use crate::token::TokenModel;

verus! {

/// Tells whether a span lies within the text of the tokens `from` to
/// `to`, the last not counted, and is well formed.
pub open spec fn within(span: Span, tokens: Seq<Code<TokenModel>>, from: int, to: int) -> bool {
    &&& 0 <= from < to <= tokens.len()
    &&& well_formed(span)
    &&& tokens[from].span.start.precedes(span.start)
    &&& span.end.precedes(tokens[to - 1].span.end)
}

/// Tells whether, in a primary term and in all that it holds, the span of
/// every node contains the spans of its children.
pub open spec fn nested_primary(primary: PrimaryModel) -> bool
    decreases primary, 0int,
{
    match primary {
        PrimaryModel::Integer(_) => true,
        PrimaryModel::Identifier(_) => true,
        PrimaryModel::Expression(inner) => nested_expression(*inner),
        PrimaryModel::FnCall(call) => nested_fn_call(call),
    }
}

/// The same of a call: its span contains the span of the name and of each
/// argument.
pub open spec fn nested_fn_call(call: FnCallModel) -> bool
    decreases call, 0int,
{
    &&& fn_call_span(call).contains(call.func.span)
    &&& forall|i: int|
        0 <= i < call.args.len() ==> fn_call_span(call).contains(
            expression_span(#[trigger] call.args[i]),
        ) && nested_expression(call.args[i])
}

/// The same of a term with its sign.
pub open spec fn nested_unary(unary: UnaryModel) -> bool
    decreases unary, 0int,
{
    match unary {
        UnaryModel::Positive(operand, span) => span.contains(primary_span(operand))
            && nested_primary(operand),
        UnaryModel::Negative(operand, span) => span.contains(primary_span(operand))
            && nested_primary(operand),
    }
}

/// The same of a product: the span of a chain contains the spans of its
/// first element, of its first operator and of the chain that follows.
pub open spec fn nested_multiply(chain: MultiplyModel) -> bool
    decreases chain, 0int,
{
    match chain {
        BinaryOperation::Single(element) => nested_unary(element),
        BinaryOperation::Binary { operator, left, right } => {
            &&& multiply_span(chain).contains(unary_span(left))
            &&& multiply_span(chain).contains(operator.span)
            &&& multiply_span(chain).contains(multiply_span(*right))
            &&& nested_unary(left)
            &&& nested_multiply(*right)
        },
    }
}

/// The same of a sum.
pub open spec fn nested_add(chain: AddModel) -> bool
    decreases chain, 0int,
{
    match chain {
        BinaryOperation::Single(element) => nested_multiply(element),
        BinaryOperation::Binary { operator, left, right } => {
            &&& add_span(chain).contains(multiply_span(left))
            &&& add_span(chain).contains(operator.span)
            &&& add_span(chain).contains(add_span(*right))
            &&& nested_multiply(left)
            &&& nested_add(*right)
        },
    }
}

/// The same of a comparison by size.
pub open spec fn nested_relational(chain: RelationalModel) -> bool
    decreases chain, 0int,
{
    match chain {
        BinaryOperation::Single(element) => nested_add(element),
        BinaryOperation::Binary { operator, left, right } => {
            &&& relational_span(chain).contains(add_span(left))
            &&& relational_span(chain).contains(operator.span)
            &&& relational_span(chain).contains(relational_span(*right))
            &&& nested_add(left)
            &&& nested_relational(*right)
        },
    }
}

/// The same of a comparison for equality.
pub open spec fn nested_equality(chain: EqualityModel) -> bool
    decreases chain, 0int,
{
    match chain {
        BinaryOperation::Single(element) => nested_relational(element),
        BinaryOperation::Binary { operator, left, right } => {
            &&& equality_span(chain).contains(relational_span(left))
            &&& equality_span(chain).contains(operator.span)
            &&& equality_span(chain).contains(equality_span(*right))
            &&& nested_relational(left)
            &&& nested_equality(*right)
        },
    }
}

/// The same of an expression: the span of a conditional contains the spans
/// of its `if` and of its three expressions, and the span of a block those of
/// its brackets, its statements and its outcome.
pub open spec fn nested_expression(expression: ExpressionModel) -> bool
    decreases expression, 1int,
{
    let span = expression_span(expression);
    match expression {
        ExpressionModel::PureExpression(pure) => nested_equality(pure),
        ExpressionModel::IfExpression(branch) => {
            &&& span.contains(branch.if_span)
            &&& span.contains(expression_span(*branch.condition))
            &&& span.contains(expression_span(*branch.then_))
            &&& span.contains(expression_span(*branch.else_))
            &&& nested_expression(*branch.condition)
            &&& nested_expression(*branch.then_)
            &&& nested_expression(*branch.else_)
        },
        ExpressionModel::BlockExpression(block) => {
            &&& span.contains(block.open)
            &&& span.contains(block.close)
            &&& span.contains(expression_span(*block.outcome))
            &&& nested_expression(*block.outcome)
            &&& forall|i: int|
                0 <= i < block.statements.len() ==> span.contains(
                    statement_span(#[trigger] block.statements[i]),
                ) && nested_statement(block.statements[i])
        },
    }
}

/// The same of a statement: its span contains the spans of its first word,
/// of the name it declares and of its expression.
pub open spec fn nested_statement(statement: StatementModel) -> bool
    decreases statement, 0int,
{
    let span = statement_span(statement);
    match statement {
        StatementModel::Assignment { identifier, content, let_span } => {
            &&& span.contains(let_span)
            &&& span.contains(identifier.span)
            &&& span.contains(expression_span(content))
            &&& nested_expression(content)
        },
        StatementModel::Return { return_span, content } => {
            &&& span.contains(return_span)
            &&& span.contains(expression_span(content))
            &&& nested_expression(content)
        },
    }
}

/// The same of a function: its span contains the span of its body.
pub open spec fn nested_func(func: FuncModel) -> bool {
    &&& func.span.contains(expression_span(func.body))
    &&& nested_expression(func.body)
}

/// The same of a program: its span contains the span of each function.
pub open spec fn nested_root(root: RootModel) -> bool {
    forall|i: int|
        0 <= i < root.funcs.len() ==> root_span(root).contains((#[trigger] root.funcs[i]).span)
            && nested_func(root.funcs[i])
}

/// Of tokens in order, an earlier one ends before a later one starts.
#[verifier::spinoff_prover]
proof fn lemma_tokens_before(tokens: Seq<Code<TokenModel>>, i: int, j: int)
    requires
        in_order(tokens),
        0 <= i < j < tokens.len(),
    ensures
        before(tokens[i].span, tokens[j].span),
        well_formed(tokens[i].span),
        well_formed(tokens[j].span),
    decreases j - i,
{
    reveal(in_order);
    if i + 1 < j {
        lemma_tokens_before(tokens, i, j - 1);
        assert(before(tokens[j - 1].span, tokens[j].span));
        assert(well_formed(tokens[j - 1].span));
    } else {
        assert(before(tokens[i].span, tokens[i + 1].span));
    }
}

/// A span within a stretch of tokens is within every stretch around it.
#[verifier::spinoff_prover]
proof fn lemma_within_widen(
    span: Span,
    tokens: Seq<Code<TokenModel>>,
    from: int,
    to: int,
    wider_from: int,
    wider_to: int,
)
    requires
        in_order(tokens),
        within(span, tokens, from, to),
        0 <= wider_from <= from,
        to <= wider_to <= tokens.len(),
    ensures
        within(span, tokens, wider_from, wider_to),
{
    reveal(in_order);
    if wider_from < from {
        lemma_tokens_before(tokens, wider_from, from);
    }
    if to < wider_to {
        lemma_tokens_before(tokens, to - 1, wider_to - 1);
    }
    assert(well_formed(tokens[from].span));
    assert(well_formed(tokens[to - 1].span));
}

/// Of two spans within stretches of tokens of which the first ends where
/// the second starts, or before, the first is before the second.
#[verifier::spinoff_prover]
proof fn lemma_stretches_before(
    first: Span,
    second: Span,
    tokens: Seq<Code<TokenModel>>,
    a: int,
    b: int,
    c: int,
    d: int,
)
    requires
        in_order(tokens),
        within(first, tokens, a, b),
        within(second, tokens, c, d),
        b <= c,
    ensures
        before(first, second),
{
    reveal(in_order);
    if b - 1 < c {
        lemma_tokens_before(tokens, b - 1, c);
    }
    assert(well_formed(tokens[c].span));
}

/// The span of a token is within the stretch that is the token.
#[verifier::spinoff_prover]
proof fn lemma_token_within(tokens: Seq<Code<TokenModel>>, i: int)
    requires
        in_order(tokens),
        0 <= i < tokens.len(),
    ensures
        within(tokens[i].span, tokens, i, i + 1),
{
    reveal(in_order);
}

/// The merge of a first and a last span contains each span that is the
/// first or behind it, and the last or before it.
#[verifier::spinoff_prover]
proof fn lemma_merge_contains(first: Span, last: Span, child: Span)
    requires
        well_formed(first),
        well_formed(last),
        well_formed(child),
        child == first || before(first, child),
        child == last || before(child, last),
    ensures
        first.merge(last).contains(child),
{
}

/// The merge of a span within a stretch of tokens and a span within a
/// later stretch is within the stretch from the start of the one to the end
/// of the other.
#[verifier::spinoff_prover]
proof fn lemma_merge_within(
    first: Span,
    last: Span,
    tokens: Seq<Code<TokenModel>>,
    a: int,
    b: int,
    c: int,
    d: int,
)
    requires
        in_order(tokens),
        within(first, tokens, a, b),
        within(last, tokens, c, d),
        b <= c,
    ensures
        within(first.merge(last), tokens, a, d),
        first.merge(last).contains(first),
        first.merge(last).contains(last),
        first.merge(last) == (Span { start: first.start, end: last.end }),
{
    lemma_stretches_before(first, last, tokens, a, b, c, d);
}


/// The primary term read at `pos`, if one is read, has a span within its
/// tokens and is nested.
pub open spec fn placed_primary(tokens: Seq<Code<TokenModel>>, pos: int) -> bool {
    primary(tokens, pos) matches Ok(done) ==> within(
        primary_span(done.0),
        tokens,
        pos,
        pos + done.1,
    ) && nested_primary(done.0)
}

/// The same of what is read behind an opening round bracket.
pub open spec fn placed_round_bracket(tokens: Seq<Code<TokenModel>>, pos: int) -> bool {
    round_bracket(tokens, pos) matches Ok(done) ==> within(
        primary_span(done.0),
        tokens,
        pos,
        pos + done.1,
    ) && nested_primary(done.0)
}

/// The same of a call.
pub open spec fn placed_fn_call(tokens: Seq<Code<TokenModel>>, pos: int) -> bool {
    fn_call(tokens, pos) matches Ok(done) ==> within(
        fn_call_span(done.0),
        tokens,
        pos,
        pos + done.1,
    ) && nested_fn_call(done.0)
}

/// The same of an expression.
pub open spec fn placed_expression(tokens: Seq<Code<TokenModel>>, pos: int) -> bool {
    expression(tokens, pos) matches Ok(done) ==> within(
        expression_span(done.0),
        tokens,
        pos,
        pos + done.1,
    ) && nested_expression(done.0)
}

/// The same of each argument of a call, within the tokens of all of them.
pub open spec fn placed_arguments(tokens: Seq<Code<TokenModel>>, pos: int, limit: nat) -> bool {
    &&& pos <= tokens.len() ==> pos + arguments(tokens, pos, limit).1 <= tokens.len()
    &&& forall|i: int|
        0 <= i < arguments(tokens, pos, limit).0.len() ==> within(
            expression_span(#[trigger] arguments(tokens, pos, limit).0[i]),
            tokens,
            pos,
            pos + arguments(tokens, pos, limit).1,
        ) && nested_expression(arguments(tokens, pos, limit).0[i])
}

/// Line breaks end where the tokens end, or before.
#[verifier::spinoff_prover]
proof fn lemma_line_breaks(tokens: Seq<Code<TokenModel>>, pos: int)
    requires
        0 <= pos <= tokens.len(),
    ensures
        pos + line_breaks(tokens, pos) <= tokens.len(),
    decreases remaining(tokens, pos),
{
    if pos < tokens.len() && tokens[pos].value is LineBreak {
        lemma_line_breaks(tokens, pos + 1);
    }
}

#[verifier::spinoff_prover]
#[verifier::rlimit(80)]
proof fn lemma_primary_within(tokens: Seq<Code<TokenModel>>, pos: int)
    requires
        in_order(tokens),
        0 <= pos,
        placed_fn_call(tokens, pos),
        placed_round_bracket(tokens, pos + 1),
    ensures
        primary(tokens, pos) matches Ok(done) ==> within(
            primary_span(done.0),
            tokens,
            pos,
            pos + done.1,
        ),
{
    match fn_call(tokens, pos) {
        Ok((call, used)) => {
            assert(primary(tokens, pos) == Ok::<(PrimaryModel, nat), (Option<Span>, Expectation)>(
                (PrimaryModel::FnCall(call), used),
            ));
        },
        Err(_) => {
            if pos < tokens.len() {
                lemma_token_within(tokens, pos);
                let span = tokens[pos].span;
                match tokens[pos].value {
                    TokenModel::Number(n) => {
                        assert(primary(tokens, pos) == Ok::<
                            (PrimaryModel, nat),
                            (Option<Span>, Expectation),
                        >((PrimaryModel::Integer(Code { value: n, span }), 1)));
                    },
                    TokenModel::Identifier(name) => {
                        assert(primary(tokens, pos) == Ok::<
                            (PrimaryModel, nat),
                            (Option<Span>, Expectation),
                        >((PrimaryModel::Identifier(Code { value: name, span }), 1)));
                    },
                    TokenModel::Bracket(BracketSide::Left(Bracket::Round)) => {
                        match round_bracket(tokens, pos + 1) {
                            Ok((inner, used)) => {
                                assert(primary(tokens, pos) == Ok::<
                                    (PrimaryModel, nat),
                                    (Option<Span>, Expectation),
                                >((inner, 1 + used)));
                                lemma_within_widen(
                                    primary_span(inner),
                                    tokens,
                                    pos + 1,
                                    pos + 1 + used,
                                    pos,
                                    pos + 1 + used,
                                );
                            },
                            Err(_) => {
                                assert(primary(tokens, pos) is Err);
                            },
                        }
                    },
                    _ => {
                        assert(primary(tokens, pos) is Err);
                    },
                }
            } else {
                assert(primary(tokens, pos) is Err);
            }
        },
    }
}

#[verifier::spinoff_prover]
proof fn lemma_primary_nested(tokens: Seq<Code<TokenModel>>, pos: int)
    requires
        in_order(tokens),
        0 <= pos,
        placed_fn_call(tokens, pos),
        placed_round_bracket(tokens, pos + 1),
    ensures
        primary(tokens, pos) matches Ok(done) ==> nested_primary(done.0),
{
    match fn_call(tokens, pos) {
        Ok((call, used)) => {
            assert(primary(tokens, pos) == Ok::<(PrimaryModel, nat), (Option<Span>, Expectation)>(
                (PrimaryModel::FnCall(call), used),
            ));
        },
        Err(_) => {
            if pos < tokens.len() {
                lemma_token_within(tokens, pos);
                let span = tokens[pos].span;
                match tokens[pos].value {
                    TokenModel::Number(n) => {
                        assert(primary(tokens, pos) == Ok::<
                            (PrimaryModel, nat),
                            (Option<Span>, Expectation),
                        >((PrimaryModel::Integer(Code { value: n, span }), 1)));
                    },
                    TokenModel::Identifier(name) => {
                        assert(primary(tokens, pos) == Ok::<
                            (PrimaryModel, nat),
                            (Option<Span>, Expectation),
                        >((PrimaryModel::Identifier(Code { value: name, span }), 1)));
                    },
                    TokenModel::Bracket(BracketSide::Left(Bracket::Round)) => {
                        match round_bracket(tokens, pos + 1) {
                            Ok((inner, used)) => {
                                assert(primary(tokens, pos) == Ok::<
                                    (PrimaryModel, nat),
                                    (Option<Span>, Expectation),
                                >((inner, 1 + used)));
                                lemma_within_widen(
                                    primary_span(inner),
                                    tokens,
                                    pos + 1,
                                    pos + 1 + used,
                                    pos,
                                    pos + 1 + used,
                                );
                            },
                            Err(_) => {
                                assert(primary(tokens, pos) is Err);
                            },
                        }
                    },
                    _ => {
                        assert(primary(tokens, pos) is Err);
                    },
                }
            } else {
                assert(primary(tokens, pos) is Err);
            }
        },
    }
}

#[verifier::spinoff_prover]
proof fn lemma_primary_step(tokens: Seq<Code<TokenModel>>, pos: int)
    requires
        in_order(tokens),
        0 <= pos,
        placed_fn_call(tokens, pos),
        placed_round_bracket(tokens, pos + 1),
    ensures
        placed_primary(tokens, pos),
{
    lemma_primary_within(tokens, pos);
    lemma_primary_nested(tokens, pos);
}

#[verifier::spinoff_prover]
proof fn lemma_primary(tokens: Seq<Code<TokenModel>>, pos: int)
    requires
        in_order(tokens),
        0 <= pos,
    ensures
        placed_primary(tokens, pos),
    decreases remaining(tokens, pos), 2int, 0int,
{
    lemma_fn_call(tokens, pos);
    if pos < tokens.len() {
        lemma_round_bracket(tokens, pos + 1);
    }
    lemma_primary_step(tokens, pos);
}

#[verifier::spinoff_prover]
proof fn lemma_round_bracket_step(tokens: Seq<Code<TokenModel>>, pos: int)
    requires
        in_order(tokens),
        0 <= pos,
        placed_expression(tokens, pos),
    ensures
        placed_round_bracket(tokens, pos),
{
    match expression(tokens, pos) {
        Ok((inner, used)) => {
            if pos + used < tokens.len() {
                lemma_within_widen(
                    expression_span(inner),
                    tokens,
                    pos,
                    pos + used,
                    pos,
                    pos + used + 1,
                );
            }
        },
        Err(_) => {},
    }
}

#[verifier::spinoff_prover]
proof fn lemma_round_bracket(tokens: Seq<Code<TokenModel>>, pos: int)
    requires
        in_order(tokens),
        0 <= pos,
    ensures
        placed_round_bracket(tokens, pos),
    decreases remaining(tokens, pos), 11int, 0int,
{
    lemma_expression(tokens, pos);
    lemma_round_bracket_step(tokens, pos);
}

#[verifier::spinoff_prover]
proof fn lemma_fn_call_within(tokens: Seq<Code<TokenModel>>, pos: int)
    requires
        in_order(tokens),
        0 <= pos,
        placed_arguments(tokens, pos + 2, 6),
    ensures
        fn_call(tokens, pos) matches Ok(done) ==> within(
            fn_call_span(done.0),
            tokens,
            pos,
            pos + done.1,
        ),
{
    match identifier_at(tokens, pos) {
        Some(name) => {
            if token_is(tokens, pos + 1, open_round()) {
                let (args, used) = arguments(tokens, pos + 2, 6);
                let close = pos + 2 + used;
                if token_is(tokens, close, close_round()) {
                    let call = FnCallModel { func: name, args, end_pos: tokens[close].span.end };
                    assert(fn_call(tokens, pos) == Ok::<
                        (FnCallModel, nat),
                        (Option<Span>, Expectation),
                    >((call, (used + 3) as nat)));
                    let span = fn_call_span(call);
                    lemma_tokens_before(tokens, pos, close);
                    lemma_token_within(tokens, pos);
                    lemma_token_within(tokens, close);
                    assert(name.span == tokens[pos].span);
                    assert(span == (Span {
                        start: tokens[pos].span.start,
                        end: tokens[close].span.end,
                    }));
                    assert(within(span, tokens, pos, close + 1));
                } else {
                    assert(fn_call(tokens, pos) is Err);
                }
            } else {
                assert(fn_call(tokens, pos) is Err);
            }
        },
        None => {
            assert(fn_call(tokens, pos) is Err);
        },
    }
}

#[verifier::spinoff_prover]
proof fn lemma_fn_call_nested(tokens: Seq<Code<TokenModel>>, pos: int)
    requires
        in_order(tokens),
        0 <= pos,
        placed_arguments(tokens, pos + 2, 6),
    ensures
        fn_call(tokens, pos) matches Ok(done) ==> nested_fn_call(done.0),
{
    match identifier_at(tokens, pos) {
        Some(name) => {
            if token_is(tokens, pos + 1, open_round()) {
                let (args, used) = arguments(tokens, pos + 2, 6);
                let close = pos + 2 + used;
                if token_is(tokens, close, close_round()) {
                    let call = FnCallModel { func: name, args, end_pos: tokens[close].span.end };
                    assert(fn_call(tokens, pos) == Ok::<
                        (FnCallModel, nat),
                        (Option<Span>, Expectation),
                    >((call, (used + 3) as nat)));
                    let span = fn_call_span(call);
                    lemma_tokens_before(tokens, pos, close);
                    lemma_token_within(tokens, pos);
                    lemma_token_within(tokens, close);
                    assert(name.span == tokens[pos].span);
                    assert(span == (Span {
                        start: tokens[pos].span.start,
                        end: tokens[close].span.end,
                    }));
                    assert(within(span, tokens, pos, close + 1));
                    assert(span.contains(name.span));
                    assert forall|i: int| 0 <= i < args.len() implies span.contains(
                        expression_span(#[trigger] args[i]),
                    ) && nested_expression(args[i]) by {
                        let argument = expression_span(args[i]);
                        assert(within(argument, tokens, pos + 2, pos + 2 + used));
                        lemma_within_widen(
                            argument,
                            tokens,
                            pos + 2,
                            pos + 2 + used,
                            pos,
                            close + 1,
                        );
                    }
                    assert(nested_fn_call(call));
                } else {
                    assert(fn_call(tokens, pos) is Err);
                }
            } else {
                assert(fn_call(tokens, pos) is Err);
            }
        },
        None => {
            assert(fn_call(tokens, pos) is Err);
        },
    }
}

#[verifier::spinoff_prover]
proof fn lemma_fn_call_step(tokens: Seq<Code<TokenModel>>, pos: int)
    requires
        in_order(tokens),
        0 <= pos,
        placed_arguments(tokens, pos + 2, 6),
    ensures
        placed_fn_call(tokens, pos),
{
    lemma_fn_call_within(tokens, pos);
    lemma_fn_call_nested(tokens, pos);
}

#[verifier::spinoff_prover]
proof fn lemma_fn_call(tokens: Seq<Code<TokenModel>>, pos: int)
    requires
        in_order(tokens),
        0 <= pos,
    ensures
        placed_fn_call(tokens, pos),
    decreases remaining(tokens, pos), 1int, 0int,
{
    if pos < tokens.len() {
        lemma_arguments(tokens, pos + 2, 6);
        lemma_fn_call_step(tokens, pos);
    }
}

#[verifier::spinoff_prover]
proof fn lemma_arguments(tokens: Seq<Code<TokenModel>>, pos: int, limit: nat)
    requires
        in_order(tokens),
        0 <= pos,
    ensures
        placed_arguments(tokens, pos, limit),
    decreases remaining(tokens, pos), 14int, limit,
{
    if limit > 0 {
        lemma_expression(tokens, pos);
        match expression(tokens, pos) {
            Ok((first, used)) => {
                if token_is(tokens, pos + used, TokenModel::Comma) {
                    lemma_arguments(tokens, pos + used + 1, (limit - 1) as nat);
                    let (rest, more) = arguments(tokens, pos + used + 1, (limit - 1) as nat);
                    let all = seq![first] + rest;
                    let end = pos + used + 1 + more;
                    assert(arguments(tokens, pos, limit) == (all, used + 1 + more));
                    assert forall|i: int| 0 <= i < all.len() implies within(
                        expression_span(#[trigger] all[i]),
                        tokens,
                        pos,
                        end,
                    ) && nested_expression(all[i]) by {
                        if i == 0 {
                            lemma_within_widen(
                                expression_span(first),
                                tokens,
                                pos,
                                pos + used,
                                pos,
                                end,
                            );
                        } else {
                            assert(all[i] == rest[i - 1]);
                            lemma_within_widen(
                                expression_span(rest[i - 1]),
                                tokens,
                                pos + used + 1,
                                end,
                                pos,
                                end,
                            );
                        }
                    }
                } else {
                    assert(arguments(tokens, pos, limit) == (seq![first], used));
                }
            },
            Err(_) => {},
        }
    }
}

/// The same of a term with its sign.
pub open spec fn placed_unary(tokens: Seq<Code<TokenModel>>, pos: int) -> bool {
    unary(tokens, pos) matches Ok(done) ==> within(
        unary_span(done.0),
        tokens,
        pos,
        pos + done.1,
    ) && nested_unary(done.0)
}

#[verifier::spinoff_prover]
#[verifier::rlimit(80)]
proof fn lemma_unary_step(tokens: Seq<Code<TokenModel>>, pos: int)
    requires
        in_order(tokens),
        0 <= pos,
        placed_primary(tokens, pos),
        placed_primary(tokens, pos + 1),
    ensures
        placed_unary(tokens, pos),
{
    match operator_at(tokens, pos, add_operators()) {
        Some(sign) => {
            match primary(tokens, pos + 1) {
                Ok((operand, used)) => {
                    lemma_token_within(tokens, pos);
                    lemma_merge_within(
                        sign.span,
                        primary_span(operand),
                        tokens,
                        pos,
                        pos + 1,
                        pos + 1,
                        pos + 1 + used,
                    );
                },
                Err(_) => {},
            }
        },
        None => {},
    }
}

#[verifier::spinoff_prover]
proof fn lemma_unary(tokens: Seq<Code<TokenModel>>, pos: int)
    requires
        in_order(tokens),
        0 <= pos,
    ensures
        placed_unary(tokens, pos),
    decreases remaining(tokens, pos), 3int, 0int,
{
    lemma_primary(tokens, pos);
    if pos < tokens.len() {
        lemma_primary(tokens, pos + 1);
        lemma_unary_step(tokens, pos);
    } else {
        assert(operator_at(tokens, pos, add_operators()) is None);
    }
}

#[verifier::spinoff_prover]
proof fn lemma_multiply(tokens: Seq<Code<TokenModel>>, pos: int)
    requires
        in_order(tokens),
        0 <= pos,
    ensures
        multiply(tokens, pos) matches Ok(done) ==> within(
            multiply_span(done.0),
            tokens,
            pos,
            pos + done.1,
        ) && nested_multiply(done.0),
    decreases remaining(tokens, pos), 4int, 0int,
{
    lemma_unary(tokens, pos);
    match unary(tokens, pos) {
        Ok((left, used)) => {
            match operator_at(tokens, pos + used, multiply_operators()) {
                Some(operator) => {
                    lemma_multiply(tokens, pos + used + 1);
                    match multiply(tokens, pos + used + 1) {
                        Ok((right, more)) => {
                            let first = unary_span(left);
                            let last = multiply_span(right);
                            let end = pos + used + 1 + more;
                            lemma_token_within(tokens, pos + used);
                            lemma_merge_within(first, last, tokens, pos, pos + used, pos + used + 1, end);
                            lemma_stretches_before(
                                first,
                                operator.span,
                                tokens,
                                pos,
                                pos + used,
                                pos + used,
                                pos + used + 1,
                            );
                            lemma_stretches_before(
                                operator.span,
                                last,
                                tokens,
                                pos + used,
                                pos + used + 1,
                                pos + used + 1,
                                end,
                            );
                            lemma_merge_contains(first, last, operator.span);
                        },
                        Err(_) => {},
                    }
                },
                None => {},
            }
        },
        Err(_) => {},
    }
}

#[verifier::spinoff_prover]
proof fn lemma_add(tokens: Seq<Code<TokenModel>>, pos: int)
    requires
        in_order(tokens),
        0 <= pos,
    ensures
        crate::parse::grammar::add(tokens, pos) matches Ok(done) ==> within(
            add_span(done.0),
            tokens,
            pos,
            pos + done.1,
        ) && nested_add(done.0),
    decreases remaining(tokens, pos), 5int, 0int,
{
    lemma_multiply(tokens, pos);
    match multiply(tokens, pos) {
        Ok((left, used)) => {
            match operator_at(tokens, pos + used, add_operators()) {
                Some(operator) => {
                    lemma_add(tokens, pos + used + 1);
                    match crate::parse::grammar::add(tokens, pos + used + 1) {
                        Ok((right, more)) => {
                            let first = multiply_span(left);
                            let last = add_span(right);
                            let end = pos + used + 1 + more;
                            lemma_token_within(tokens, pos + used);
                            lemma_merge_within(first, last, tokens, pos, pos + used, pos + used + 1, end);
                            lemma_stretches_before(
                                first,
                                operator.span,
                                tokens,
                                pos,
                                pos + used,
                                pos + used,
                                pos + used + 1,
                            );
                            lemma_stretches_before(
                                operator.span,
                                last,
                                tokens,
                                pos + used,
                                pos + used + 1,
                                pos + used + 1,
                                end,
                            );
                            lemma_merge_contains(first, last, operator.span);
                        },
                        Err(_) => {},
                    }
                },
                None => {},
            }
        },
        Err(_) => {},
    }
}

#[verifier::spinoff_prover]
proof fn lemma_relational(tokens: Seq<Code<TokenModel>>, pos: int)
    requires
        in_order(tokens),
        0 <= pos,
    ensures
        relational(tokens, pos) matches Ok(done) ==> within(
            relational_span(done.0),
            tokens,
            pos,
            pos + done.1,
        ) && nested_relational(done.0),
    decreases remaining(tokens, pos), 6int, 0int,
{
    lemma_add(tokens, pos);
    match crate::parse::grammar::add(tokens, pos) {
        Ok((left, used)) => {
            match operator_at(tokens, pos + used, relational_operators()) {
                Some(operator) => {
                    lemma_relational(tokens, pos + used + 1);
                    match relational(tokens, pos + used + 1) {
                        Ok((right, more)) => {
                            let first = add_span(left);
                            let last = relational_span(right);
                            let end = pos + used + 1 + more;
                            lemma_token_within(tokens, pos + used);
                            lemma_merge_within(first, last, tokens, pos, pos + used, pos + used + 1, end);
                            lemma_stretches_before(
                                first,
                                operator.span,
                                tokens,
                                pos,
                                pos + used,
                                pos + used,
                                pos + used + 1,
                            );
                            lemma_stretches_before(
                                operator.span,
                                last,
                                tokens,
                                pos + used,
                                pos + used + 1,
                                pos + used + 1,
                                end,
                            );
                            lemma_merge_contains(first, last, operator.span);
                        },
                        Err(_) => {},
                    }
                },
                None => {},
            }
        },
        Err(_) => {},
    }
}

#[verifier::spinoff_prover]
proof fn lemma_equality(tokens: Seq<Code<TokenModel>>, pos: int)
    requires
        in_order(tokens),
        0 <= pos,
    ensures
        equality(tokens, pos) matches Ok(done) ==> within(
            equality_span(done.0),
            tokens,
            pos,
            pos + done.1,
        ) && nested_equality(done.0),
    decreases remaining(tokens, pos), 7int, 0int,
{
    lemma_relational(tokens, pos);
    match relational(tokens, pos) {
        Ok((left, used)) => {
            match operator_at(tokens, pos + used, equality_operators()) {
                Some(operator) => {
                    lemma_equality(tokens, pos + used + 1);
                    match equality(tokens, pos + used + 1) {
                        Ok((right, more)) => {
                            let first = relational_span(left);
                            let last = equality_span(right);
                            let end = pos + used + 1 + more;
                            lemma_token_within(tokens, pos + used);
                            lemma_merge_within(first, last, tokens, pos, pos + used, pos + used + 1, end);
                            lemma_stretches_before(
                                first,
                                operator.span,
                                tokens,
                                pos,
                                pos + used,
                                pos + used,
                                pos + used + 1,
                            );
                            lemma_stretches_before(
                                operator.span,
                                last,
                                tokens,
                                pos + used,
                                pos + used + 1,
                                pos + used + 1,
                                end,
                            );
                            lemma_merge_contains(first, last, operator.span);
                        },
                        Err(_) => {},
                    }
                },
                None => {},
            }
        },
        Err(_) => {},
    }
}

#[verifier::spinoff_prover]
proof fn lemma_expression(tokens: Seq<Code<TokenModel>>, pos: int)
    requires
        in_order(tokens),
        0 <= pos,
    ensures
        placed_expression(tokens, pos),
    decreases remaining(tokens, pos), 10int, 0int,
{
    lemma_if(tokens, pos);
    match if_expression(tokens, pos) {
        Ok(_) => {},
        Err(_) => {
            lemma_block(tokens, pos);
            match block_expression(tokens, pos) {
                Ok(_) => {},
                Err(_) => {
                    lemma_equality(tokens, pos);
                },
            }
        },
    }
}

#[verifier::spinoff_prover]
proof fn lemma_if(tokens: Seq<Code<TokenModel>>, pos: int)
    requires
        in_order(tokens),
        0 <= pos,
    ensures
        if_expression(tokens, pos) matches Ok(done) ==> within(
            expression_span(ExpressionModel::IfExpression(done.0)),
            tokens,
            pos,
            pos + done.1,
        ) && nested_expression(ExpressionModel::IfExpression(done.0)),
    decreases remaining(tokens, pos), 9int, 0int,
{
    if token_is(tokens, pos, word(ReservedWord::If)) {
        lemma_expression(tokens, pos + 1);
        match expression(tokens, pos + 1) {
            Ok((condition, used1)) => {
                let at_then = pos + 1 + used1 + line_breaks(tokens, pos + 1 + used1);
                if token_is(tokens, at_then, word(ReservedWord::Then)) {
                    lemma_expression(tokens, at_then + 1);
                    match expression(tokens, at_then + 1) {
                        Ok((then_, used2)) => {
                            let at_else = at_then + 1 + used2 + line_breaks(
                                tokens,
                                at_then + 1 + used2,
                            );
                            if token_is(tokens, at_else, word(ReservedWord::Else)) {
                                lemma_expression(tokens, at_else + 1);
                                match expression(tokens, at_else + 1) {
                                    Ok((else_, used3)) => {
                                        let opening = tokens[pos].span;
                                        let first = expression_span(condition);
                                        let second = expression_span(then_);
                                        let last = expression_span(else_);
                                        let end = at_else + 1 + used3;
                                        lemma_token_within(tokens, pos);
                                        lemma_merge_within(
                                            opening,
                                            last,
                                            tokens,
                                            pos,
                                            pos + 1,
                                            at_else + 1,
                                            end,
                                        );
                                        lemma_stretches_before(
                                            opening,
                                            first,
                                            tokens,
                                            pos,
                                            pos + 1,
                                            pos + 1,
                                            pos + 1 + used1,
                                        );
                                        lemma_stretches_before(
                                            first,
                                            last,
                                            tokens,
                                            pos + 1,
                                            pos + 1 + used1,
                                            at_else + 1,
                                            end,
                                        );
                                        lemma_stretches_before(
                                            opening,
                                            second,
                                            tokens,
                                            pos,
                                            pos + 1,
                                            at_then + 1,
                                            at_then + 1 + used2,
                                        );
                                        lemma_stretches_before(
                                            second,
                                            last,
                                            tokens,
                                            at_then + 1,
                                            at_then + 1 + used2,
                                            at_else + 1,
                                            end,
                                        );
                                        lemma_merge_contains(opening, last, first);
                                        lemma_merge_contains(opening, last, second);
                                    },
                                    Err(_) => {},
                                }
                            }
                        },
                        Err(_) => {},
                    }
                }
            },
            Err(_) => {},
        }
    }
}

#[verifier::spinoff_prover]
proof fn lemma_block(tokens: Seq<Code<TokenModel>>, pos: int)
    requires
        in_order(tokens),
        0 <= pos,
    ensures
        block_expression(tokens, pos) matches Ok(done) ==> within(
            expression_span(ExpressionModel::BlockExpression(done.0)),
            tokens,
            pos,
            pos + done.1,
        ) && nested_expression(ExpressionModel::BlockExpression(done.0)),
    decreases remaining(tokens, pos), 9int, 0int,
{
    if token_is(tokens, pos, open_curly()) {
        lemma_line_breaks(tokens, pos + 1);
        let at_statements = pos + 1 + line_breaks(tokens, pos + 1);
        lemma_statements(tokens, at_statements);
        let (list, used) = statements(tokens, at_statements);
        lemma_line_breaks(tokens, at_statements + used);
        let at_outcome = at_statements + used + line_breaks(tokens, at_statements + used);
        lemma_expression(tokens, at_outcome);
        match expression(tokens, at_outcome) {
            Ok((outcome, used2)) => {
                let at_close = at_outcome + used2 + line_breaks(tokens, at_outcome + used2);
                if 0 <= at_close < tokens.len() && tokens[at_close].value == close_curly() {
                    let block = block_expression(tokens, pos).unwrap().0;
                    let opening = tokens[pos].span;
                    let closing = tokens[at_close].span;
                    let span = opening.merge(closing);
                    lemma_token_within(tokens, pos);
                    lemma_token_within(tokens, at_close);
                    lemma_merge_within(opening, closing, tokens, pos, pos + 1, at_close, at_close + 1);
                    lemma_stretches_before(
                        opening,
                        expression_span(outcome),
                        tokens,
                        pos,
                        pos + 1,
                        at_outcome,
                        at_outcome + used2,
                    );
                    lemma_stretches_before(
                        expression_span(outcome),
                        closing,
                        tokens,
                        at_outcome,
                        at_outcome + used2,
                        at_close,
                        at_close + 1,
                    );
                    lemma_merge_contains(opening, closing, expression_span(outcome));
                    assert forall|i: int| 0 <= i < block.statements.len() implies span.contains(
                        statement_span(#[trigger] block.statements[i]),
                    ) && nested_statement(block.statements[i]) by {
                        let inner = statement_span(list[i]);
                        assert(within(inner, tokens, at_statements, at_statements + used));
                        lemma_stretches_before(
                            opening,
                            inner,
                            tokens,
                            pos,
                            pos + 1,
                            at_statements,
                            at_statements + used,
                        );
                        lemma_stretches_before(
                            inner,
                            closing,
                            tokens,
                            at_statements,
                            at_statements + used,
                            at_close,
                            at_close + 1,
                        );
                        lemma_merge_contains(opening, closing, inner);
                    }
                }
            },
            Err(_) => {},
        }
    }
}

#[verifier::spinoff_prover]
proof fn lemma_statements(tokens: Seq<Code<TokenModel>>, pos: int)
    requires
        in_order(tokens),
        0 <= pos,
    ensures
        pos <= tokens.len() ==> pos + statements(tokens, pos).1 <= tokens.len(),
        forall|i: int|
            0 <= i < statements(tokens, pos).0.len() ==> within(
                statement_span(#[trigger] statements(tokens, pos).0[i]),
                tokens,
                pos,
                pos + statements(tokens, pos).1,
            ) && nested_statement(statements(tokens, pos).0[i]),
    decreases remaining(tokens, pos), 13int, 0int,
{
    lemma_statement(tokens, pos);
    match statement(tokens, pos) {
        Ok((first, used)) => {
            if used > 0 && 0 <= pos < tokens.len() {
                lemma_statements(tokens, pos + used);
                let (rest, more) = statements(tokens, pos + used);
                let all = seq![first] + rest;
                let end = pos + used + more;
                assert(statements(tokens, pos) == (all, used + more));
                assert forall|i: int| 0 <= i < all.len() implies within(
                    statement_span(#[trigger] all[i]),
                    tokens,
                    pos,
                    end,
                ) && nested_statement(all[i]) by {
                    if i == 0 {
                        lemma_within_widen(statement_span(first), tokens, pos, pos + used, pos, end);
                    } else {
                        assert(all[i] == rest[i - 1]);
                        lemma_within_widen(
                            statement_span(rest[i - 1]),
                            tokens,
                            pos + used,
                            end,
                            pos,
                            end,
                        );
                    }
                }
            }
        },
        Err(_) => {},
    }
}

#[verifier::spinoff_prover]
proof fn lemma_statement(tokens: Seq<Code<TokenModel>>, pos: int)
    requires
        in_order(tokens),
        0 <= pos,
    ensures
        statement(tokens, pos) matches Ok(done) ==> within(
            statement_span(done.0),
            tokens,
            pos,
            pos + done.1,
        ) && nested_statement(done.0),
    decreases remaining(tokens, pos), 12int, 0int,
{
    lemma_assignment(tokens, pos);
    match assignment(tokens, pos) {
        Ok(_) => {},
        Err(_) => {
            lemma_return(tokens, pos);
        },
    }
}

#[verifier::spinoff_prover]
proof fn lemma_assignment(tokens: Seq<Code<TokenModel>>, pos: int)
    requires
        in_order(tokens),
        0 <= pos,
    ensures
        assignment(tokens, pos) matches Ok(done) ==> within(
            statement_span(done.0),
            tokens,
            pos,
            pos + done.1,
        ) && nested_statement(done.0),
    decreases remaining(tokens, pos), 11int, 0int,
{
    let at_let = pos + line_breaks(tokens, pos);
    if token_is(tokens, at_let, word(ReservedWord::Let)) && identifier_at(tokens, at_let + 1)
        is Some && token_is(tokens, at_let + 2, TokenModel::Operator(Operator::Assign)) {
        lemma_expression(tokens, at_let + 3);
        match expression(tokens, at_let + 3) {
            Ok((content, used)) => {
                let opening = tokens[at_let].span;
                let name = tokens[at_let + 1].span;
                let value = expression_span(content);
                let end = at_let + 3 + used;
                lemma_token_within(tokens, at_let);
                lemma_token_within(tokens, at_let + 1);
                lemma_merge_within(opening, value, tokens, at_let, at_let + 1, at_let + 3, end);
                lemma_stretches_before(opening, name, tokens, at_let, at_let + 1, at_let + 1, at_let + 2);
                lemma_stretches_before(name, value, tokens, at_let + 1, at_let + 2, at_let + 3, end);
                lemma_merge_contains(opening, value, name);
                lemma_within_widen(opening.merge(value), tokens, at_let, end, pos, end);
            },
            Err(_) => {},
        }
    }
}

#[verifier::spinoff_prover]
proof fn lemma_return(tokens: Seq<Code<TokenModel>>, pos: int)
    requires
        in_order(tokens),
        0 <= pos,
    ensures
        return_(tokens, pos) matches Ok(done) ==> within(
            statement_span(done.0),
            tokens,
            pos,
            pos + done.1,
        ) && nested_statement(done.0),
    decreases remaining(tokens, pos), 11int, 0int,
{
    let at_return = pos + line_breaks(tokens, pos);
    if token_is(tokens, at_return, word(ReservedWord::Return)) {
        lemma_expression(tokens, at_return + 1);
        match expression(tokens, at_return + 1) {
            Ok((content, used)) => {
                let opening = tokens[at_return].span;
                let value = expression_span(content);
                let end = at_return + 1 + used;
                lemma_token_within(tokens, at_return);
                lemma_merge_within(opening, value, tokens, at_return, at_return + 1, at_return + 1, end);
                lemma_within_widen(opening.merge(value), tokens, at_return, end, pos, end);
            },
            Err(_) => {},
        }
    }
}

/// The function read at `pos`, if one is read, has a span within its
/// tokens and is nested.
pub open spec fn placed_func(tokens: Seq<Code<TokenModel>>, pos: int) -> bool {
    func(tokens, pos) matches Ok(done) ==> within(done.0.span, tokens, pos, pos + done.1)
        && nested_func(done.0)
}

#[verifier::spinoff_prover]
proof fn lemma_func_step(tokens: Seq<Code<TokenModel>>, pos: int, at_body: int)
    requires
        in_order(tokens),
        0 <= pos,
        at_body == pos + 4 + parameters(tokens, pos + 3, 6).1,
        placed_expression(tokens, at_body),
    ensures
        placed_func(tokens, pos),
{
    match func(tokens, pos) {
        Ok((read, used)) => {
            let body = expression(tokens, at_body).unwrap().0;
            let inner = expression_span(body);
            let end = pos + used;
            assert(read.body == body);
            assert(read.span == (Span { start: tokens[pos].span.start, end: inner.end }));
            assert(within(inner, tokens, at_body, end));
            lemma_tokens_before(tokens, pos, at_body);
            lemma_token_within(tokens, pos);
        },
        Err(_) => {},
    }
}

/// The span of a function that is read from tokens in order lies within
/// the tokens of the function, and contains the span of the body; and the
/// body is nested.
pub proof fn lemma_func_nested(tokens: Seq<Code<TokenModel>>, pos: int)
    requires
        in_order(tokens),
        0 <= pos,
    ensures
        placed_func(tokens, pos),
{
    let at_body = pos + 4 + parameters(tokens, pos + 3, 6).1;
    lemma_expression(tokens, at_body);
    lemma_func_step(tokens, pos, at_body);
}

/// The functions of a program read at `pos`, if one is read, each have a
/// span within the tokens of the program and are nested, and each comes
/// before the next.
pub open spec fn placed_root(tokens: Seq<Code<TokenModel>>, pos: int) -> bool {
    root(tokens, pos) matches Ok(done) ==> {
        &&& pos <= tokens.len() ==> pos + done.1 <= tokens.len()
        &&& forall|i: int|
            0 <= i < done.0.funcs.len() ==> within(
                (#[trigger] done.0.funcs[i]).span,
                tokens,
                pos,
                pos + done.1,
            ) && nested_func(done.0.funcs[i])
        &&& forall|i: int, j: int|
            0 <= i < j < done.0.funcs.len() ==> before(
                (#[trigger] done.0.funcs[i]).span,
                (#[trigger] done.0.funcs[j]).span,
            )
    }
}

#[verifier::spinoff_prover]
proof fn lemma_root_step(tokens: Seq<Code<TokenModel>>, pos: int, next: int)
    requires
        in_order(tokens),
        0 <= pos < tokens.len(),
        placed_func(tokens, pos),
        func(tokens, pos) matches Ok(done) && done.1 > 0 && next == pos + done.1 + line_breaks(
            tokens,
            pos + done.1,
        ),
        next <= tokens.len(),
        placed_root(tokens, next),
    ensures
        placed_root(tokens, pos),
{
    let (first, used) = func(tokens, pos).unwrap();
    match root(tokens, next) {
        Ok((rest, more)) => {
            let all = seq![first] + rest.funcs;
            let end = next + more;
            assert(root(tokens, pos) matches Ok(done) && done.0.funcs == all && pos + done.1 == end);
            assert forall|i: int| 0 <= i < all.len() implies within(
                (#[trigger] all[i]).span,
                tokens,
                pos,
                end,
            ) && nested_func(all[i]) by {
                if i == 0 {
                    lemma_within_widen(first.span, tokens, pos, pos + used, pos, end);
                } else {
                    assert(all[i] == rest.funcs[i - 1]);
                    lemma_within_widen(rest.funcs[i - 1].span, tokens, next, end, pos, end);
                }
            }
            assert forall|i: int, j: int| 0 <= i < j < all.len() implies before(
                (#[trigger] all[i]).span,
                (#[trigger] all[j]).span,
            ) by {
                assert(all[j] == rest.funcs[j - 1]);
                if i == 0 {
                    lemma_stretches_before(
                        first.span,
                        rest.funcs[j - 1].span,
                        tokens,
                        pos,
                        pos + used,
                        next,
                        end,
                    );
                } else {
                    assert(all[i] == rest.funcs[i - 1]);
                }
            }
        },
        Err(_) => {},
    }
}

proof fn lemma_root(tokens: Seq<Code<TokenModel>>, pos: int)
    requires
        in_order(tokens),
        0 <= pos,
    ensures
        placed_root(tokens, pos),
    decreases remaining(tokens, pos),
{
    if pos < tokens.len() {
        lemma_func_nested(tokens, pos);
        match func(tokens, pos) {
            Ok((first, used)) => {
                if used > 0 {
                    lemma_line_breaks(tokens, pos + used);
                    let next = pos + used + line_breaks(tokens, pos + used);
                    lemma_root(tokens, next);
                    lemma_root_step(tokens, pos, next);
                }
            },
            Err(_) => {},
        }
    }
}

/// In the tree that is read from tokens in order, the span of every node
/// contains the spans of the nodes and of the tokens that the node is made
/// of: a parent's span contains every child's.
pub proof fn lemma_spans_are_nested(tokens: Seq<Code<TokenModel>>, pos: int)
    requires
        in_order(tokens),
        0 <= pos,
    ensures
        root(tokens, pos) matches Ok(done) ==> nested_root(done.0),
        expression(tokens, pos) matches Ok(done) ==> nested_expression(done.0),
        func(tokens, pos) matches Ok(done) ==> nested_func(done.0),
{
    lemma_root(tokens, pos);
    lemma_expression(tokens, pos);
    lemma_func_nested(tokens, pos);
    match root(tokens, pos) {
        Ok((read, used)) => {
            let count = read.funcs.len() as int;
            assert forall|i: int| 0 <= i < count implies root_span(read).contains(
                (#[trigger] read.funcs[i]).span,
            ) && nested_func(read.funcs[i]) by {
                let first = read.funcs[0].span;
                let last = read.funcs[count - 1].span;
                let child = read.funcs[i].span;
                assert(within(first, tokens, pos, pos + used));
                assert(within(last, tokens, pos, pos + used));
                assert(within(child, tokens, pos, pos + used));
                if 0 < i {
                    assert(before(read.funcs[0].span, read.funcs[i].span));
                }
                if i < count - 1 {
                    assert(before(read.funcs[i].span, read.funcs[count - 1].span));
                }
                lemma_merge_contains(first, last, child);
            }
        },
        Err(_) => {},
    }
}

/// In the tree of a program that is read from a text, a parent's span
/// contains every child's.
pub proof fn lemma_text_spans_are_nested(source: Seq<char>)
    requires
        source.len() <= usize::MAX,
    ensures
        tokens_of(source) matches Ok(tokens) ==> (root(tokens, 0) matches Ok(done)
            ==> nested_root(done.0)),
{
    lemma_tokens_in_order(source);
    match tokens_of(source) {
        Ok(tokens) => {
            lemma_spans_are_nested(tokens, 0);
        },
        Err(_) => {},
    }
}

} // verus!
