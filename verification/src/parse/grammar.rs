use vstd::prelude::*;
use crate::parse::binary_operation::BinaryOperation;
use crate::sourcecode::Code;
use crate::sourcecode::Position;
use crate::sourcecode::Span;
use crate::token::Bracket;
use crate::token::BracketSide;
use crate::token::Operator;
use crate::token::ReservedWord;
use crate::token::TokenModel;

verus! {

/// A product of unary terms.
pub type MultiplyModel = BinaryOperation<UnaryModel>;

/// A sum of products.
pub type AddModel = BinaryOperation<MultiplyModel>;

/// A comparison of sums by size.
pub type RelationalModel = BinaryOperation<AddModel>;

/// A comparison of relational terms for equality.
pub type EqualityModel = BinaryOperation<RelationalModel>;

/// A primary term with its sign and the span of both.
pub enum UnaryModel {
    Positive(PrimaryModel, Span),
    Negative(PrimaryModel, Span),
}

/// The innermost kind of term.
pub enum PrimaryModel {
    Integer(Code<i64>),
    Identifier(Code<Seq<char>>),
    Expression(Box<ExpressionModel>),
    FnCall(FnCallModel),
}

/// A call: the name of the function with its span, the arguments, and the
/// position behind the closing bracket.
pub struct FnCallModel {
    pub func: Code<Seq<char>>,
    pub args: Seq<ExpressionModel>,
    pub end_pos: Position,
}

/// An expression: a term of operators, a conditional or a block.
pub enum ExpressionModel {
    PureExpression(EqualityModel),
    IfExpression(IfModel),
    BlockExpression(BlockModel),
}

/// A conditional, with the span of its `if`.
pub struct IfModel {
    pub condition: Box<ExpressionModel>,
    pub then_: Box<ExpressionModel>,
    pub else_: Box<ExpressionModel>,
    pub if_span: Span,
}

/// A block, with the spans of its brackets.
pub struct BlockModel {
    pub statements: Seq<StatementModel>,
    pub outcome: Box<ExpressionModel>,
    pub open: Span,
    pub close: Span,
}

/// A statement: an assignment with the span of its `let`, or a return with
/// the span of its `return`.
pub enum StatementModel {
    Assignment { identifier: Code<Seq<char>>, content: ExpressionModel, let_span: Span },
    Return { return_span: Span, content: ExpressionModel },
}

/// A function: its name, its parameters, its body and its span.
pub struct FuncModel {
    pub name: Seq<char>,
    pub args: Seq<Seq<char>>,
    pub body: ExpressionModel,
    pub span: Span,
}

/// A program: its functions in order.
pub struct RootModel {
    pub funcs: Seq<FuncModel>,
}

/// What a parse was waiting for when it failed.
#[derive(Debug, PartialEq, Eq, Clone, Copy, Structural)]
pub enum Expectation {
    ExpectedName,
    ExpectedIdentifier,
    ExpectedArguments,
    ExpectedParameters,
    ExpectedCloseRound,
    MissingExpression,
    ExpectedPrimary,
    MissingCloseBracket,
    ExpectedCloseBracket,
    ExpectedIf,
    ExpectedThen,
    ExpectedElse,
    ExpectedOpenCurly,
    MissingCloseCurly,
    ExpectedCloseCurly,
    ExpectedLet,
    ExpectedAssign,
    ExpectedReturn,
    ExpectedFunc,
    NotNumber,
    MissingNumber,
}

impl Expectation {
    /// The message that tells the user what was expected.
    #[verifier::opaque]
    pub open spec fn text(self) -> Seq<char> {
        match self {
            Expectation::ExpectedName => "識別子を期待していました。"@,
            Expectation::ExpectedIdentifier => "識別子を期待していました"@,
            Expectation::ExpectedArguments => "(を期待していました。"@,
            Expectation::ExpectedParameters => "(を期待していました"@,
            Expectation::ExpectedCloseRound => ")を期待していました"@,
            Expectation::MissingExpression => "式を期待していましたが、トークンがありませんでした。"@,
            Expectation::ExpectedPrimary => "数字または識別子または\"(\"を期待しています。"@,
            Expectation::MissingCloseBracket => "\")\"を期待していましたが、トークンがありませんでした。"@,
            Expectation::ExpectedCloseBracket => "\")\"を期待しています。"@,
            Expectation::ExpectedIf => "ifを期待していました"@,
            Expectation::ExpectedThen => "thenを期待していました"@,
            Expectation::ExpectedElse => "elseを期待していました"@,
            Expectation::ExpectedOpenCurly => "{ を期待していました"@,
            Expectation::MissingCloseCurly => "ブロックを期待しいていました"@,
            Expectation::ExpectedCloseCurly => "} を期待していました"@,
            Expectation::ExpectedLet => "letを期待していました"@,
            Expectation::ExpectedAssign => "代入演算子を期待していました"@,
            Expectation::ExpectedReturn => "returnを期待していました"@,
            Expectation::ExpectedFunc => "funcを期待していました"@,
            Expectation::NotNumber => "数ではありません。"@,
            Expectation::MissingNumber => "数を期待していましたが、トークンがありませんでした。"@,
        }
    }

    /// The message that tells the user what was expected.
    pub fn message(self) -> (r: String)
        ensures
            r@ == self.text(),
    {
        reveal(Expectation::text);
        match self {
            Expectation::ExpectedName => "識別子を期待していました。".to_owned(),
            Expectation::ExpectedIdentifier => "識別子を期待していました".to_owned(),
            Expectation::ExpectedArguments => "(を期待していました。".to_owned(),
            Expectation::ExpectedParameters => "(を期待していました".to_owned(),
            Expectation::ExpectedCloseRound => ")を期待していました".to_owned(),
            Expectation::MissingExpression => "式を期待していましたが、トークンがありませんでした。".to_owned(),
            Expectation::ExpectedPrimary => "数字または識別子または\"(\"を期待しています。".to_owned(),
            Expectation::MissingCloseBracket => "\")\"を期待していましたが、トークンがありませんでした。".to_owned(),
            Expectation::ExpectedCloseBracket => "\")\"を期待しています。".to_owned(),
            Expectation::ExpectedIf => "ifを期待していました".to_owned(),
            Expectation::ExpectedThen => "thenを期待していました".to_owned(),
            Expectation::ExpectedElse => "elseを期待していました".to_owned(),
            Expectation::ExpectedOpenCurly => "{ を期待していました".to_owned(),
            Expectation::MissingCloseCurly => "ブロックを期待しいていました".to_owned(),
            Expectation::ExpectedCloseCurly => "} を期待していました".to_owned(),
            Expectation::ExpectedLet => "letを期待していました".to_owned(),
            Expectation::ExpectedAssign => "代入演算子を期待していました".to_owned(),
            Expectation::ExpectedReturn => "returnを期待していました".to_owned(),
            Expectation::ExpectedFunc => "funcを期待していました".to_owned(),
            Expectation::NotNumber => "数ではありません。".to_owned(),
            Expectation::MissingNumber => "数を期待していましたが、トークンがありませんでした。".to_owned(),
        }
    }
}

/// What parsing gives: the tree with the number of tokens it took, or the
/// span of the offending token, if there is one, with what was expected.
pub type Parsed<M> = Result<(M, nat), (Option<Span>, Expectation)>;

// ----------------------------------------------------------------------
// Spans
// ----------------------------------------------------------------------
/// The span of a term with its sign.
pub open spec fn unary_span(unary: UnaryModel) -> Span {
    match unary {
        UnaryModel::Positive(_, span) => span,
        UnaryModel::Negative(_, span) => span,
    }
}

/// The span of a chain reaches from its first element to its last.
pub open spec fn multiply_span(chain: MultiplyModel) -> Span
    decreases chain,
{
    match chain {
        BinaryOperation::Single(element) => unary_span(element),
        BinaryOperation::Binary { operator, left, right } => unary_span(left).merge(
            multiply_span(*right),
        ),
    }
}

/// The span of a sum: from its first product to its last.
pub open spec fn add_span(chain: AddModel) -> Span
    decreases chain,
{
    match chain {
        BinaryOperation::Single(element) => multiply_span(element),
        BinaryOperation::Binary { operator, left, right } => multiply_span(left).merge(
            add_span(*right),
        ),
    }
}

/// The span of a comparison by size: from its first sum to its last.
pub open spec fn relational_span(chain: RelationalModel) -> Span
    decreases chain,
{
    match chain {
        BinaryOperation::Single(element) => add_span(element),
        BinaryOperation::Binary { operator, left, right } => add_span(left).merge(
            relational_span(*right),
        ),
    }
}

/// The span of a comparison for equality: from its first element to its
/// last.
pub open spec fn equality_span(chain: EqualityModel) -> Span
    decreases chain,
{
    match chain {
        BinaryOperation::Single(element) => relational_span(element),
        BinaryOperation::Binary { operator, left, right } => relational_span(left).merge(
            equality_span(*right),
        ),
    }
}

/// The span of an expression reaches from its first token to its last
/// token or child. A conditional ends with its last branch, a block with its
/// closing bracket.
pub open spec fn expression_span(expression: ExpressionModel) -> Span
    decreases expression,
{
    match expression {
        ExpressionModel::PureExpression(equality) => equality_span(equality),
        ExpressionModel::IfExpression(branch) => branch.if_span.merge(
            expression_span(*branch.else_),
        ),
        ExpressionModel::BlockExpression(block) => block.open.merge(block.close),
    }
}

/// The span of a call: from the name to the closing bracket.
pub open spec fn fn_call_span(call: FnCallModel) -> Span {
    Span { start: call.func.span.start, end: call.end_pos }
}

/// The span of a primary term. An expression in round brackets has the span
/// of the expression.
pub open spec fn primary_span(primary: PrimaryModel) -> Span {
    match primary {
        PrimaryModel::Integer(number) => number.span,
        PrimaryModel::Identifier(name) => name.span,
        PrimaryModel::Expression(expression) => expression_span(*expression),
        PrimaryModel::FnCall(call) => fn_call_span(call),
    }
}

/// The span of a statement: from its first word to the end of its
/// expression.
pub open spec fn statement_span(statement: StatementModel) -> Span {
    match statement {
        StatementModel::Assignment { identifier, content, let_span } => let_span.merge(
            expression_span(content),
        ),
        StatementModel::Return { return_span, content } => return_span.merge(
            expression_span(content),
        ),
    }
}

/// The span of a program reaches from its first function to its last.
pub open spec fn root_span(root: RootModel) -> Span {
    root.funcs[0].span.merge(root.funcs[root.funcs.len() - 1].span)
}

// ----------------------------------------------------------------------
// Tokens
// ----------------------------------------------------------------------
/// The number of tokens from `pos` to the end.
pub open spec fn remaining(tokens: Seq<Code<TokenModel>>, pos: int) -> nat {
    if pos < tokens.len() {
        (tokens.len() - pos) as nat
    } else {
        0
    }
}

/// The span of the token at `pos`, if there is one.
pub open spec fn span_at(tokens: Seq<Code<TokenModel>>, pos: int) -> Option<Span> {
    if 0 <= pos < tokens.len() {
        Some(tokens[pos].span)
    } else {
        None
    }
}

/// Tells whether the token at `pos` is `value`.
pub open spec fn token_is(tokens: Seq<Code<TokenModel>>, pos: int, value: TokenModel) -> bool {
    0 <= pos < tokens.len() && tokens[pos].value == value
}

/// The failure for a token that is not the expected one, or is missing.
pub open spec fn unexpected<M>(tokens: Seq<Code<TokenModel>>, pos: int, message: Expectation)
    -> Parsed<M> {
    Err((span_at(tokens, pos), message))
}

/// The number of line breaks that stand in a row from `pos` on.
pub open spec fn line_breaks(tokens: Seq<Code<TokenModel>>, pos: int) -> nat
    decreases remaining(tokens, pos),
{
    if 0 <= pos < tokens.len() && tokens[pos].value is LineBreak {
        1 + line_breaks(tokens, pos + 1)
    } else {
        0
    }
}

/// The operator at `pos`, if it is one of `accepted`.
pub open spec fn operator_at(tokens: Seq<Code<TokenModel>>, pos: int, accepted: Seq<Operator>)
    -> Option<Code<Operator>> {
    if 0 <= pos < tokens.len() {
        match tokens[pos].value {
            TokenModel::Operator(operator) => if accepted.contains(operator) {
                Some(Code { value: operator, span: tokens[pos].span })
            } else {
                None
            },
            _ => None,
        }
    } else {
        None
    }
}

/// The name at `pos`, if an identifier stands there.
pub open spec fn identifier_at(tokens: Seq<Code<TokenModel>>, pos: int) -> Option<
    Code<Seq<char>>,
> {
    if 0 <= pos < tokens.len() {
        match tokens[pos].value {
            TokenModel::Identifier(name) => Some(Code { value: name, span: tokens[pos].span }),
            _ => None,
        }
    } else {
        None
    }
}

/// The operators that compare for equality.
pub open spec fn equality_operators() -> Seq<Operator> {
    seq![Operator::Equal, Operator::NotEqual]
}

/// The operators that compare by size.
pub open spec fn relational_operators() -> Seq<Operator> {
    seq![Operator::Less, Operator::LessEq, Operator::Greater, Operator::GreaterEq]
}

/// The operators of sums, which are also the signs.
pub open spec fn add_operators() -> Seq<Operator> {
    seq![Operator::Add, Operator::Sub]
}

/// The operators of products.
pub open spec fn multiply_operators() -> Seq<Operator> {
    seq![Operator::Mul, Operator::Div]
}

/// The token of a reserved word.
pub open spec fn word(word: ReservedWord) -> TokenModel {
    TokenModel::ReservedWord(word)
}

/// The token `(`.
pub open spec fn open_round() -> TokenModel {
    TokenModel::Bracket(BracketSide::Left(Bracket::Round))
}

/// The token `)`.
pub open spec fn close_round() -> TokenModel {
    TokenModel::Bracket(BracketSide::Right(Bracket::Round))
}

/// The token `{`.
pub open spec fn open_curly() -> TokenModel {
    TokenModel::Bracket(BracketSide::Left(Bracket::Curly))
}

/// The token `}`.
pub open spec fn close_curly() -> TokenModel {
    TokenModel::Bracket(BracketSide::Right(Bracket::Curly))
}

// ----------------------------------------------------------------------
// The grammar
//
// Each function reads the tokens from `pos` on and gives the tree that
// stands there with the number of tokens it takes, or the failure. The
// alternatives of a rule are tried in the order written, and the first that
// succeeds is taken.
// ----------------------------------------------------------------------
/// fn_call := identifier "(" arguments ")"
pub open spec fn fn_call(tokens: Seq<Code<TokenModel>>, pos: int) -> Parsed<FnCallModel>
    decreases remaining(tokens, pos), 1int, 0int,
{
    match identifier_at(tokens, pos) {
        None => unexpected(tokens, pos, Expectation::ExpectedIdentifier),
        Some(func) => if !token_is(tokens, pos + 1, open_round()) {
            Err((None, Expectation::ExpectedArguments))
        } else {
            let (args, used) = arguments(tokens, pos + 2, 6);
            let close = pos + 2 + used;
            if token_is(tokens, close, close_round()) {
                Ok(
                    (
                        FnCallModel { func, args, end_pos: tokens[close].span.end },
                        (used + 3) as nat,
                    ),
                )
            } else {
                unexpected(tokens, close, Expectation::ExpectedCloseRound)
            }
        },
    }
}

/// arguments := ( expression ( "," expression )* ","? )?  with at most
/// `limit` expressions
pub open spec fn arguments(tokens: Seq<Code<TokenModel>>, pos: int, limit: nat) -> (
    Seq<ExpressionModel>,
    nat,
)
    decreases remaining(tokens, pos), 14int, limit,
{
    if limit == 0 {
        (Seq::empty(), 0)
    } else {
        match expression(tokens, pos) {
            Err(_) => (Seq::empty(), 0),
            Ok((first, used)) => if token_is(tokens, pos + used, TokenModel::Comma) {
                let (rest, more) = arguments(tokens, pos + used + 1, (limit - 1) as nat);
                (seq![first] + rest, used + 1 + more)
            } else {
                (seq![first], used)
            },
        }
    }
}

/// primary := fn_call | number | identifier | "(" expression ")"
pub open spec fn primary(tokens: Seq<Code<TokenModel>>, pos: int) -> Parsed<PrimaryModel>
    decreases remaining(tokens, pos), 2int, 0int,
{
    match fn_call(tokens, pos) {
        Ok((call, used)) => Ok((PrimaryModel::FnCall(call), used)),
        Err(_) => if !(0 <= pos < tokens.len()) {
            Err((None, Expectation::MissingExpression))
        } else {
            match tokens[pos].value {
                TokenModel::Number(n) => Ok(
                    (PrimaryModel::Integer(Code { value: n, span: tokens[pos].span }), 1),
                ),
                TokenModel::Identifier(name) => Ok(
                    (PrimaryModel::Identifier(Code { value: name, span: tokens[pos].span }), 1),
                ),
                TokenModel::Bracket(BracketSide::Left(Bracket::Round)) => match round_bracket(
                    tokens,
                    pos + 1,
                ) {
                    Ok((inner, used)) => Ok((inner, 1 + used)),
                    Err(error) => Err(error),
                },
                _ => Err(
                    (
                        Some(tokens[pos].span),
                        Expectation::ExpectedPrimary,
                    ),
                ),
            }
        },
    }
}

/// What follows an opening round bracket: expression ")"
pub open spec fn round_bracket(tokens: Seq<Code<TokenModel>>, pos: int) -> Parsed<PrimaryModel>
    decreases remaining(tokens, pos), 11int, 0int,
{
    match expression(tokens, pos) {
        Err(error) => Err(error),
        Ok((inner, used)) => if !(0 <= pos + used < tokens.len()) {
            Err((None, Expectation::MissingCloseBracket))
        } else if tokens[pos + used].value == close_round() {
            Ok((PrimaryModel::Expression(Box::new(inner)), used + 1))
        } else {
            Err((Some(tokens[pos + used].span), Expectation::ExpectedCloseBracket))
        },
    }
}

/// unary := ( "+" | "-" )? primary
pub open spec fn unary(tokens: Seq<Code<TokenModel>>, pos: int) -> Parsed<UnaryModel>
    decreases remaining(tokens, pos), 3int, 0int,
{
    match operator_at(tokens, pos, add_operators()) {
        Some(sign) => match primary(tokens, pos + 1) {
            Err(error) => Err(error),
            Ok((operand, used)) => {
                let span = sign.span.merge(primary_span(operand));
                if sign.value == Operator::Add {
                    Ok((UnaryModel::Positive(operand, span), 1 + used))
                } else {
                    Ok((UnaryModel::Negative(operand, span), 1 + used))
                }
            },
        },
        None => match primary(tokens, pos) {
            Err(error) => Err(error),
            Ok((operand, used)) => Ok(
                (UnaryModel::Positive(operand, primary_span(operand)), used),
            ),
        },
    }
}

/// multiply := unary ( ( "*" | "/" ) unary )*
pub open spec fn multiply(tokens: Seq<Code<TokenModel>>, pos: int) -> Parsed<MultiplyModel>
    decreases remaining(tokens, pos), 4int, 0int,
{
    match unary(tokens, pos) {
        Err(error) => Err(error),
        Ok((left, used)) => match operator_at(tokens, pos + used, multiply_operators()) {
            None => Ok((BinaryOperation::Single(left), used)),
            Some(operator) => match multiply(tokens, pos + used + 1) {
                Err(error) => Err(error),
                Ok((right, more)) => Ok(
                    (
                        BinaryOperation::Binary { operator, left, right: Box::new(right) },
                        used + 1 + more,
                    ),
                ),
            },
        },
    }
}

/// add := multiply ( ( "+" | "-" ) multiply )*
pub open spec fn add(tokens: Seq<Code<TokenModel>>, pos: int) -> Parsed<AddModel>
    decreases remaining(tokens, pos), 5int, 0int,
{
    match multiply(tokens, pos) {
        Err(error) => Err(error),
        Ok((left, used)) => match operator_at(tokens, pos + used, add_operators()) {
            None => Ok((BinaryOperation::Single(left), used)),
            Some(operator) => match self::add(tokens, pos + used + 1) {
                Err(error) => Err(error),
                Ok((right, more)) => Ok(
                    (
                        BinaryOperation::Binary { operator, left, right: Box::new(right) },
                        used + 1 + more,
                    ),
                ),
            },
        },
    }
}

/// relational := add ( ( "<" | "<=" | ">" | ">=" ) add )*
pub open spec fn relational(tokens: Seq<Code<TokenModel>>, pos: int) -> Parsed<RelationalModel>
    decreases remaining(tokens, pos), 6int, 0int,
{
    match self::add(tokens, pos) {
        Err(error) => Err(error),
        Ok((left, used)) => match operator_at(tokens, pos + used, relational_operators()) {
            None => Ok((BinaryOperation::Single(left), used)),
            Some(operator) => match relational(tokens, pos + used + 1) {
                Err(error) => Err(error),
                Ok((right, more)) => Ok(
                    (
                        BinaryOperation::Binary { operator, left, right: Box::new(right) },
                        used + 1 + more,
                    ),
                ),
            },
        },
    }
}

/// equality := relational ( ( "==" | "!=" ) relational )*
pub open spec fn equality(tokens: Seq<Code<TokenModel>>, pos: int) -> Parsed<EqualityModel>
    decreases remaining(tokens, pos), 7int, 0int,
{
    match relational(tokens, pos) {
        Err(error) => Err(error),
        Ok((left, used)) => match operator_at(tokens, pos + used, equality_operators()) {
            None => Ok((BinaryOperation::Single(left), used)),
            Some(operator) => match equality(tokens, pos + used + 1) {
                Err(error) => Err(error),
                Ok((right, more)) => Ok(
                    (
                        BinaryOperation::Binary { operator, left, right: Box::new(right) },
                        used + 1 + more,
                    ),
                ),
            },
        },
    }
}

/// if_expression := "if" expression "then" expression "else" expression,
/// where line breaks may stand before "then" and before "else"
pub open spec fn if_expression(tokens: Seq<Code<TokenModel>>, pos: int) -> Parsed<IfModel>
    decreases remaining(tokens, pos), 9int, 0int,
{
    if !token_is(tokens, pos, word(ReservedWord::If)) {
        unexpected(tokens, pos, Expectation::ExpectedIf)
    } else {
        match expression(tokens, pos + 1) {
            Err(error) => Err(error),
            Ok((condition, used)) => {
                let at_then = pos + 1 + used + line_breaks(tokens, pos + 1 + used);
                if !token_is(tokens, at_then, word(ReservedWord::Then)) {
                    unexpected(tokens, at_then, Expectation::ExpectedThen)
                } else {
                    match expression(tokens, at_then + 1) {
                        Err(error) => Err(error),
                        Ok((then_, used)) => {
                            let at_else = at_then + 1 + used + line_breaks(
                                tokens,
                                at_then + 1 + used,
                            );
                            if !token_is(tokens, at_else, word(ReservedWord::Else)) {
                                unexpected(tokens, at_else, Expectation::ExpectedElse)
                            } else {
                                match expression(tokens, at_else + 1) {
                                    Err(error) => Err(error),
                                    Ok((else_, used)) => Ok(
                                        (
                                            IfModel {
                                                condition: Box::new(condition),
                                                then_: Box::new(then_),
                                                else_: Box::new(else_),
                                                if_span: tokens[pos].span,
                                            },
                                            (at_else + 1 + used - pos) as nat,
                                        ),
                                    ),
                                }
                            }
                        },
                    }
                }
            },
        }
    }
}

/// block_expression := "{" statement* expression "}", where line breaks may
/// stand after "{", before each statement, before the expression and
/// before "}"
pub open spec fn block_expression(tokens: Seq<Code<TokenModel>>, pos: int) -> Parsed<BlockModel>
    decreases remaining(tokens, pos), 9int, 0int,
{
    if !token_is(tokens, pos, open_curly()) {
        unexpected(tokens, pos, Expectation::ExpectedOpenCurly)
    } else {
        let at_statements = pos + 1 + line_breaks(tokens, pos + 1);
        let (statements, used) = statements(tokens, at_statements);
        let at_outcome = at_statements + used + line_breaks(tokens, at_statements + used);
        match expression(tokens, at_outcome) {
            Err(error) => Err(error),
            Ok((outcome, used)) => {
                let at_close = at_outcome + used + line_breaks(tokens, at_outcome + used);
                if !(0 <= at_close < tokens.len()) {
                    Err((None, Expectation::MissingCloseCurly))
                } else if tokens[at_close].value == close_curly() {
                    Ok(
                        (
                            BlockModel {
                                statements,
                                outcome: Box::new(outcome),
                                open: tokens[pos].span,
                                close: tokens[at_close].span,
                            },
                            (at_close + 1 - pos) as nat,
                        ),
                    )
                } else {
                    Err((Some(tokens[at_close].span), Expectation::ExpectedCloseCurly))
                }
            },
        }
    }
}

/// The statements that stand in a row from `pos` on.
pub open spec fn statements(tokens: Seq<Code<TokenModel>>, pos: int) -> (
    Seq<StatementModel>,
    nat,
)
    decreases remaining(tokens, pos), 13int, 0int,
{
    match statement(tokens, pos) {
        Err(_) => (Seq::empty(), 0),
        Ok((first, used)) => if used > 0 && 0 <= pos < tokens.len() {
            let (rest, more) = statements(tokens, pos + used);
            (seq![first] + rest, used + more)
        } else {
            (Seq::empty(), 0)
        },
    }
}

/// statement := assignment | return
pub open spec fn statement(tokens: Seq<Code<TokenModel>>, pos: int) -> Parsed<StatementModel>
    decreases remaining(tokens, pos), 12int, 0int,
{
    match assignment(tokens, pos) {
        Ok(done) => Ok(done),
        Err(_) => return_(tokens, pos),
    }
}

/// assignment := "let" identifier ":=" expression, after any line breaks
pub open spec fn assignment(tokens: Seq<Code<TokenModel>>, pos: int) -> Parsed<StatementModel>
    decreases remaining(tokens, pos), 11int, 0int,
{
    let at_let = pos + line_breaks(tokens, pos);
    if !token_is(tokens, at_let, word(ReservedWord::Let)) {
        unexpected(tokens, at_let, Expectation::ExpectedLet)
    } else {
        match identifier_at(tokens, at_let + 1) {
            None => unexpected(tokens, at_let + 1, Expectation::ExpectedName),
            Some(identifier) => if !token_is(
                tokens,
                at_let + 2,
                TokenModel::Operator(Operator::Assign),
            ) {
                unexpected(tokens, at_let + 2, Expectation::ExpectedAssign)
            } else {
                match expression(tokens, at_let + 3) {
                    Err(error) => Err(error),
                    Ok((content, used)) => Ok(
                        (
                            StatementModel::Assignment {
                                identifier,
                                content,
                                let_span: tokens[at_let].span,
                            },
                            (at_let + 3 + used - pos) as nat,
                        ),
                    ),
                }
            },
        }
    }
}

/// return := "return" expression, after any line breaks
pub open spec fn return_(tokens: Seq<Code<TokenModel>>, pos: int) -> Parsed<StatementModel>
    decreases remaining(tokens, pos), 11int, 0int,
{
    let at_return = pos + line_breaks(tokens, pos);
    if !token_is(tokens, at_return, word(ReservedWord::Return)) {
        unexpected(tokens, at_return, Expectation::ExpectedReturn)
    } else {
        match expression(tokens, at_return + 1) {
            Err(error) => Err(error),
            Ok((content, used)) => Ok(
                (
                    StatementModel::Return { return_span: tokens[at_return].span, content },
                    (at_return + 1 + used - pos) as nat,
                ),
            ),
        }
    }
}

/// expression := if_expression | block_expression | equality
pub open spec fn expression(tokens: Seq<Code<TokenModel>>, pos: int) -> Parsed<ExpressionModel>
    decreases remaining(tokens, pos), 10int, 0int,
{
    match if_expression(tokens, pos) {
        Ok((branch, used)) => Ok((ExpressionModel::IfExpression(branch), used)),
        Err(_) => match block_expression(tokens, pos) {
            Ok((block, used)) => Ok((ExpressionModel::BlockExpression(block), used)),
            Err(_) => match equality(tokens, pos) {
                Ok((pure, used)) => Ok((ExpressionModel::PureExpression(pure), used)),
                Err(error) => Err(error),
            },
        },
    }
}

/// parameters := ( identifier ( "," identifier )* ","? )?  with at most
/// `limit` names
pub open spec fn parameters(tokens: Seq<Code<TokenModel>>, pos: int, limit: nat) -> (
    Seq<Seq<char>>,
    nat,
)
    decreases limit,
{
    if limit == 0 {
        (Seq::empty(), 0)
    } else {
        match identifier_at(tokens, pos) {
            None => (Seq::empty(), 0),
            Some(name) => if token_is(tokens, pos + 1, TokenModel::Comma) {
                let (rest, more) = parameters(tokens, pos + 2, (limit - 1) as nat);
                (seq![name.value] + rest, 2 + more)
            } else {
                (seq![name.value], 1)
            },
        }
    }
}

/// func := "func" identifier "(" parameters ")" expression
pub open spec fn func(tokens: Seq<Code<TokenModel>>, pos: int) -> Parsed<FuncModel> {
    if !token_is(tokens, pos, word(ReservedWord::Func)) {
        unexpected(tokens, pos, Expectation::ExpectedFunc)
    } else {
        match identifier_at(tokens, pos + 1) {
            None => unexpected(tokens, pos + 1, Expectation::ExpectedIdentifier),
            Some(name) => if !token_is(tokens, pos + 2, open_round()) {
                unexpected(tokens, pos + 2, Expectation::ExpectedParameters)
            } else {
                let (args, used) = parameters(tokens, pos + 3, 6);
                let at_close = pos + 3 + used;
                if !token_is(tokens, at_close, close_round()) {
                    unexpected(tokens, at_close, Expectation::ExpectedCloseRound)
                } else {
                    match expression(tokens, at_close + 1) {
                        Err(error) => Err(error),
                        Ok((body, more)) => Ok(
                            (
                                FuncModel {
                                    name: name.value,
                                    args,
                                    body,
                                    span: Span {
                                        start: tokens[pos].span.start,
                                        end: expression_span(body).end,
                                    },
                                },
                                (used + 4 + more) as nat,
                            ),
                        ),
                    }
                }
            },
        }
    }
}

/// root := ( func line_break* )*  up to the end of the tokens
pub open spec fn root(tokens: Seq<Code<TokenModel>>, pos: int) -> Parsed<RootModel>
    decreases remaining(tokens, pos),
{
    if !(0 <= pos < tokens.len()) {
        Ok((RootModel { funcs: Seq::empty() }, 0))
    } else {
        match func(tokens, pos) {
            Err(error) => Err(error),
            Ok((first, used)) => if used == 0 {
                Err((None, Expectation::ExpectedFunc))
            } else {
                let next = pos + used + line_breaks(tokens, pos + used);
                match root(tokens, next) {
                    Err(error) => Err(error),
                    Ok((rest, more)) => Ok(
                        (
                            RootModel { funcs: seq![first] + rest.funcs },
                            (next + more - pos) as nat,
                        ),
                    ),
                }
            },
        }
    }
}

} // verus!
