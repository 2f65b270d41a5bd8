use vstd::prelude::*;
use crate::compile::assembly::{
    argument_registers, line_models, InstructionModel, Line, LineModel, Readable, Register,
    Writable,
};
use crate::compile::scope::{
    epilogue_lines, instruction, load_lines, prologue_lines, store_lines, PointerOffset,
    ScopeModel,
};
use crate::general::text::decimal;
use crate::parse::binary_operation::BinaryOperation;
use crate::parse::grammar::{
    AddModel, BlockModel, EqualityModel, ExpressionModel, FnCallModel, FuncModel, IfModel,
    MultiplyModel, PrimaryModel, RelationalModel, RootModel, StatementModel, UnaryModel,
};
use crate::sourcecode::Code;
use crate::sourcecode::Span;
use crate::token::Operator;

verus! {

/// What the compiler keeps track of while it walks a function.
pub struct CompileState {
    /// The symbol table.
    pub scope: ScopeModel,
    /// The number of the next label.
    pub next_label: u64,
    /// The number of bytes that the code emitted so far has pushed on the
    /// evaluation stack and not popped.
    pub stack_depth: i64,
    /// What is put in front of a function's name to make its symbol.
    pub prefix: Seq<char>,
}

/// Why a function cannot be compiled.
#[derive(Debug, PartialEq, Eq, Clone, Copy, Structural)]
pub enum Failure {
    /// An identifier at the given span names no variable in scope.
    UndefinedSymbol(Span),
    /// The function at the given span has two parameters of one name.
    ArgumentError(Span),
    /// The tree is one that the parser never gives: it declares a name
    /// twice in one block or calls with more than six arguments; or it is
    /// so large that a counter of the compiler would overflow.
    Defect,
}

/// The lines for a piece of the tree and the state after it, or the
/// failure.
pub type Generated = Result<(Seq<LineModel>, CompileState), Failure>;

/// What compiling a piece of the tree gave, in terms of models.
pub open spec fn outcome(result: Result<Vec<Line>, Failure>) -> Result<Seq<LineModel>, Failure> {
    match result {
        Ok(lines) => Ok(line_models(lines@)),
        Err(failure) => Err(failure),
    }
}

/// Tells whether compiling did what `generated` says: it gave the lines and
/// left the compiler in the state that `generated` names, or it failed as
/// `generated` does. Where it gave lines, the stack behind them is `delta`
/// bytes deeper than before them, and the prefix of symbols is as it was.
pub open spec fn agrees(
    generated: Generated,
    result: Result<Seq<LineModel>, Failure>,
    before: CompileState,
    after: CompileState,
    delta: int,
) -> bool {
    match result {
        Ok(lines) => generated matches Ok(done) && done.0 == lines && done.1 == after
            && after.stack_depth == before.stack_depth + delta && after.prefix == before.prefix,
        Err(failure) => generated == Err::<(Seq<LineModel>, CompileState), Failure>(failure),
    }
}

/// The state after one more value was pushed, if the counter can hold it.
pub open spec fn pushed(state: CompileState) -> Option<CompileState> {
    if state.stack_depth + 8 <= i64::MAX {
        Some(
            CompileState {
                scope: state.scope,
                next_label: state.next_label,
                stack_depth: (state.stack_depth + 8) as i64,
                prefix: state.prefix,
            },
        )
    } else {
        None
    }
}

/// The state after `count` values were popped.
pub open spec fn popped(state: CompileState, count: int) -> CompileState {
    CompileState {
        scope: state.scope,
        next_label: state.next_label,
        stack_depth: (state.stack_depth - 8 * count) as i64,
        prefix: state.prefix,
    }
}

/// The state with another symbol table.
pub open spec fn with_scope(state: CompileState, scope: ScopeModel) -> CompileState {
    CompileState {
        scope,
        next_label: state.next_label,
        stack_depth: state.stack_depth,
        prefix: state.prefix,
    }
}

/// The state after two labels were taken.
pub open spec fn labelled(state: CompileState) -> CompileState {
    CompileState {
        scope: state.scope,
        next_label: (state.next_label + 2) as u64,
        stack_depth: state.stack_depth,
        prefix: state.prefix,
    }
}

/// The name of the label with the given number.
pub open spec fn local_label(index: u64) -> Seq<char> {
    seq!['.', 'L'] + decimal(index as int)
}

/// The symbol of the function with the given name.
pub open spec fn func_label(prefix: Seq<char>, name: Seq<char>) -> Seq<char> {
    prefix + name
}

/// The line that pushes a register.
pub open spec fn push_register(register: Register) -> LineModel {
    instruction(InstructionModel::Push(Readable::Register(register)))
}

/// The line that pops into a register.
pub open spec fn pop_register(register: Register) -> LineModel {
    instruction(InstructionModel::Pop(register))
}

/// The number of bytes to reserve before a call, so that with them the
/// number of bytes pushed is a multiple of 16.
pub open spec fn padding(stack_depth: i64) -> i64 {
    ((16 - stack_depth % 16) % 16) as i64
}

/// The lines that pop the first `count` argument registers, the last one
/// first.
pub open spec fn pop_argument_lines(count: int) -> Seq<LineModel>
    decreases count,
{
    if count <= 0 || count > 6 {
        Seq::empty()
    } else {
        seq![pop_register(argument_registers()[count - 1])] + pop_argument_lines(count - 1)
    }
}

/// The lines that call `symbol` with `padding` bytes reserved, and push
/// what the call returns.
pub open spec fn call_lines(symbol: Seq<char>, padding: i64) -> Seq<LineModel> {
    seq![
        instruction(InstructionModel::Sub(Register::Rsp, Readable::Literal(padding))),
        instruction(InstructionModel::Call(symbol)),
        instruction(InstructionModel::Add(Register::Rsp, Readable::Literal(padding))),
        push_register(Register::Rax),
    ]
}

/// The lines that replace the top of the stack by its negative.
pub open spec fn negate_lines() -> Seq<LineModel> {
    seq![
        pop_register(Register::Rdi),
        instruction(
            InstructionModel::Mov(Writable::Register(Register::Rax), Readable::Literal(0)),
        ),
        instruction(InstructionModel::Sub(Register::Rax, Readable::Register(Register::Rdi))),
        push_register(Register::Rax),
    ]
}

/// The lines that pop the right and the left operand and push their
/// product or, for any operator but `*`, their quotient.
pub open spec fn multiply_lines(operator: Operator) -> Seq<LineModel> {
    if operator == Operator::Mul {
        seq![
            pop_register(Register::Rdi),
            pop_register(Register::Rax),
            instruction(InstructionModel::Imul(Register::Rax, Readable::Register(Register::Rdi))),
            push_register(Register::Rax),
        ]
    } else {
        seq![
            pop_register(Register::Rdi),
            pop_register(Register::Rax),
            instruction(InstructionModel::Cqo),
            instruction(InstructionModel::Idiv(Register::Rdi)),
            push_register(Register::Rax),
        ]
    }
}

/// The lines that pop the right and the left operand and push their sum
/// or, for any operator but `+`, their difference.
pub open spec fn add_lines(operator: Operator) -> Seq<LineModel> {
    seq![
        pop_register(Register::Rdi),
        pop_register(Register::Rax),
        if operator == Operator::Add {
            instruction(InstructionModel::Add(Register::Rax, Readable::Register(Register::Rdi)))
        } else {
            instruction(InstructionModel::Sub(Register::Rax, Readable::Register(Register::Rdi)))
        },
        push_register(Register::Rax),
    ]
}

/// The lines that pop the right and the left operand, compare them, and
/// push 1 where `set` holds of the comparison and 0 where it does not.
pub open spec fn compare_lines(set: InstructionModel) -> Seq<LineModel> {
    seq![
        pop_register(Register::Rdi),
        pop_register(Register::Rax),
        instruction(InstructionModel::Cmp(Register::Rax, Readable::Register(Register::Rdi))),
        instruction(set),
        instruction(InstructionModel::Movzb(Register::Rax, Readable::Register(Register::Al))),
        push_register(Register::Rax),
    ]
}

/// The lines for a comparison by size; any operator but `<`, `<=` and `>`
/// counts as `>=`.
pub open spec fn relational_lines(operator: Operator) -> Seq<LineModel> {
    compare_lines(
        if operator == Operator::Less {
            InstructionModel::Setl(Register::Al)
        } else if operator == Operator::LessEq {
            InstructionModel::Setle(Register::Al)
        } else if operator == Operator::Greater {
            InstructionModel::Setg(Register::Al)
        } else {
            InstructionModel::Setge(Register::Al)
        },
    )
}

/// The lines for a comparison for equality; any operator but `==` counts
/// as `!=`.
pub open spec fn equality_lines(operator: Operator) -> Seq<LineModel> {
    compare_lines(
        if operator == Operator::Equal {
            InstructionModel::Sete(Register::Al)
        } else {
            InstructionModel::Setne(Register::Al)
        },
    )
}

/// The lines that pop the condition and jump to `else_label` where it is 0.
pub open spec fn branch_lines(else_label: Seq<char>) -> Seq<LineModel> {
    seq![
        pop_register(Register::Rax),
        instruction(InstructionModel::Cmp(Register::Rax, Readable::Literal(0))),
        instruction(InstructionModel::Je(else_label)),
    ]
}

/// The lines between the two branches of a conditional.
pub open spec fn middle_lines(else_label: Seq<char>, end_label: Seq<char>) -> Seq<LineModel> {
    seq![instruction(InstructionModel::Jmp(end_label)), LineModel::Label(else_label)]
}

/// The lines that pop the result into the accumulator and return.
pub open spec fn return_lines() -> Seq<LineModel> {
    seq![pop_register(Register::Rax)] + epilogue_lines()
}

// ----------------------------------------------------------------------
// The code of each kind of node
//
// Compiling an expression gives code that leaves one value more on the
// evaluation stack; compiling a statement gives code that leaves the stack
// as deep as it was.
// ----------------------------------------------------------------------
/// A number is pushed; the value of a variable is loaded and pushed; an
/// expression in round brackets is just its expression.
pub open spec fn gen_primary(primary: PrimaryModel, state: CompileState) -> Generated
    decreases primary, 0int,
{
    match primary {
        PrimaryModel::Integer(number) => match pushed(state) {
            None => Err(Failure::Defect),
            Some(after) => Ok(
                (seq![instruction(InstructionModel::Push(Readable::Literal(number.value)))], after),
            ),
        },
        PrimaryModel::Identifier(name) => match state.scope.lookup(name.value) {
            None => Err(Failure::UndefinedSymbol(name.span)),
            Some(offset) => match pushed(state) {
                None => Err(Failure::Defect),
                Some(after) => Ok((load_lines(offset), after)),
            },
        },
        PrimaryModel::Expression(expression) => gen_expression(*expression, state),
        PrimaryModel::FnCall(call) => gen_fn_call(call, state),
    }
}

/// A reference to a name fails with the span of the reference where no open
/// block and not the outermost scope declares the name, and only there.
pub proof fn lemma_undefined_symbol(name: Code<Seq<char>>, state: CompileState)
    ensures
        state.scope.lookup(name.value) is None <==> gen_primary(
            PrimaryModel::Identifier(name),
            state,
        ) == Err::<(Seq<LineModel>, CompileState), Failure>(Failure::UndefinedSymbol(name.span)),
{
}

/// A call: the arguments from left to right, then their values popped into
/// the argument registers, then the call with its padding, then the result.
pub open spec fn gen_fn_call(call: FnCallModel, state: CompileState) -> Generated
    decreases call, 1int,
{
    if call.args.len() > 6 {
        Err(Failure::Defect)
    } else {
        match gen_arguments(call.args, 0, state) {
            Err(failure) => Err(failure),
            Ok((arguments, evaluated)) => {
                let before = popped(evaluated, call.args.len() as int);
                match pushed(before) {
                    None => Err(Failure::Defect),
                    Some(after) => Ok(
                        (
                            arguments + pop_argument_lines(call.args.len() as int) + call_lines(
                                func_label(state.prefix, call.func.value),
                                padding(before.stack_depth),
                            ),
                            after,
                        ),
                    ),
                }
            },
        }
    }
}

/// The code of the arguments from index `from` on.
pub open spec fn gen_arguments(arguments: Seq<ExpressionModel>, from: int, state: CompileState)
    -> Generated
    decreases arguments, arguments.len() - from,
{
    if from < 0 || from >= arguments.len() {
        Ok((Seq::empty(), state))
    } else {
        match gen_expression(arguments[from], state) {
            Err(failure) => Err(failure),
            Ok((first, next)) => match gen_arguments(arguments, from + 1, next) {
                Err(failure) => Err(failure),
                Ok((rest, last)) => Ok((first + rest, last)),
            },
        }
    }
}

/// A term with a minus sign is the term, then its negation.
pub open spec fn gen_unary(unary: UnaryModel, state: CompileState) -> Generated
    decreases unary, 0int,
{
    match unary {
        UnaryModel::Positive(operand, _) => gen_primary(operand, state),
        UnaryModel::Negative(operand, _) => match gen_primary(operand, state) {
            Err(failure) => Err(failure),
            Ok((lines, after)) => Ok((lines + negate_lines(), after)),
        },
    }
}

/// A chain: the first element, then each further element followed by the
/// operation that joins it to what came before.
pub open spec fn gen_multiply(chain: MultiplyModel, state: CompileState) -> Generated
    decreases chain, 1int,
{
    let head = match chain {
        BinaryOperation::Single(element) => element,
        BinaryOperation::Binary { operator, left, right } => left,
    };
    match gen_unary(head, state) {
        Err(failure) => Err(failure),
        Ok((first, next)) => match gen_multiply_tail(chain, next) {
            Err(failure) => Err(failure),
            Ok((rest, last)) => Ok((first + rest, last)),
        },
    }
}

/// What follows the first element of a product.
pub open spec fn gen_multiply_tail(chain: MultiplyModel, state: CompileState) -> Generated
    decreases chain, 0int,
{
    match chain {
        BinaryOperation::Single(_) => Ok((Seq::empty(), state)),
        BinaryOperation::Binary { operator, left, right } => {
            let element = match *right {
                BinaryOperation::Single(element) => element,
                BinaryOperation::Binary { operator, left, right } => left,
            };
            match gen_unary(element, state) {
                Err(failure) => Err(failure),
                Ok((lines, next)) => match gen_multiply_tail(*right, popped(next, 1)) {
                    Err(failure) => Err(failure),
                    Ok((rest, last)) => Ok((lines + multiply_lines(operator.value) + rest, last)),
                },
            }
        },
    }
}

/// A sum: as a product, with the operations of sums.
pub open spec fn gen_add(chain: AddModel, state: CompileState) -> Generated
    decreases chain, 1int,
{
    let head = match chain {
        BinaryOperation::Single(element) => element,
        BinaryOperation::Binary { operator, left, right } => left,
    };
    match gen_multiply(head, state) {
        Err(failure) => Err(failure),
        Ok((first, next)) => match gen_add_tail(chain, next) {
            Err(failure) => Err(failure),
            Ok((rest, last)) => Ok((first + rest, last)),
        },
    }
}

/// What follows the first element of a sum.
pub open spec fn gen_add_tail(chain: AddModel, state: CompileState) -> Generated
    decreases chain, 0int,
{
    match chain {
        BinaryOperation::Single(_) => Ok((Seq::empty(), state)),
        BinaryOperation::Binary { operator, left, right } => {
            let element = match *right {
                BinaryOperation::Single(element) => element,
                BinaryOperation::Binary { operator, left, right } => left,
            };
            match gen_multiply(element, state) {
                Err(failure) => Err(failure),
                Ok((lines, next)) => match gen_add_tail(*right, popped(next, 1)) {
                    Err(failure) => Err(failure),
                    Ok((rest, last)) => Ok((lines + add_lines(operator.value) + rest, last)),
                },
            }
        },
    }
}

/// A comparison by size: as a product, with the comparisons by size.
pub open spec fn gen_relational(chain: RelationalModel, state: CompileState) -> Generated
    decreases chain, 1int,
{
    let head = match chain {
        BinaryOperation::Single(element) => element,
        BinaryOperation::Binary { operator, left, right } => left,
    };
    match gen_add(head, state) {
        Err(failure) => Err(failure),
        Ok((first, next)) => match gen_relational_tail(chain, next) {
            Err(failure) => Err(failure),
            Ok((rest, last)) => Ok((first + rest, last)),
        },
    }
}

/// What follows the first element of a comparison by size.
pub open spec fn gen_relational_tail(chain: RelationalModel, state: CompileState) -> Generated
    decreases chain, 0int,
{
    match chain {
        BinaryOperation::Single(_) => Ok((Seq::empty(), state)),
        BinaryOperation::Binary { operator, left, right } => {
            let element = match *right {
                BinaryOperation::Single(element) => element,
                BinaryOperation::Binary { operator, left, right } => left,
            };
            match gen_add(element, state) {
                Err(failure) => Err(failure),
                Ok((lines, next)) => match gen_relational_tail(*right, popped(next, 1)) {
                    Err(failure) => Err(failure),
                    Ok((rest, last)) => Ok(
                        (lines + relational_lines(operator.value) + rest, last),
                    ),
                },
            }
        },
    }
}

/// A comparison for equality: as a product, with the comparisons for
/// equality.
pub open spec fn gen_equality(chain: EqualityModel, state: CompileState) -> Generated
    decreases chain, 1int,
{
    let head = match chain {
        BinaryOperation::Single(element) => element,
        BinaryOperation::Binary { operator, left, right } => left,
    };
    match gen_relational(head, state) {
        Err(failure) => Err(failure),
        Ok((first, next)) => match gen_equality_tail(chain, next) {
            Err(failure) => Err(failure),
            Ok((rest, last)) => Ok((first + rest, last)),
        },
    }
}

/// What follows the first element of a comparison for equality.
pub open spec fn gen_equality_tail(chain: EqualityModel, state: CompileState) -> Generated
    decreases chain, 0int,
{
    match chain {
        BinaryOperation::Single(_) => Ok((Seq::empty(), state)),
        BinaryOperation::Binary { operator, left, right } => {
            let element = match *right {
                BinaryOperation::Single(element) => element,
                BinaryOperation::Binary { operator, left, right } => left,
            };
            match gen_relational(element, state) {
                Err(failure) => Err(failure),
                Ok((lines, next)) => match gen_equality_tail(*right, popped(next, 1)) {
                    Err(failure) => Err(failure),
                    Ok((rest, last)) => Ok((lines + equality_lines(operator.value) + rest, last)),
                },
            }
        },
    }
}

/// An expression is compiled by its kind.
pub open spec fn gen_expression(expression: ExpressionModel, state: CompileState) -> Generated
    decreases expression, 2int,
{
    match expression {
        ExpressionModel::PureExpression(equality) => gen_equality(equality, state),
        ExpressionModel::IfExpression(branch) => gen_if(branch, state),
        ExpressionModel::BlockExpression(block) => gen_block(block, state),
    }
}

/// A conditional: the condition; a jump to the else label where it is 0;
/// the first branch and a jump to the end label; the else label and the
/// second branch; the end label. Each branch starts with the stack as deep
/// as the condition found it.
pub open spec fn gen_if(branch: IfModel, state: CompileState) -> Generated
    decreases branch, 1int,
{
    if state.next_label + 2 > u64::MAX {
        Err(Failure::Defect)
    } else {
        let else_label = local_label(state.next_label);
        let end_label = local_label((state.next_label + 1) as u64);
        match gen_expression(*branch.condition, labelled(state)) {
            Err(failure) => Err(failure),
            Ok((condition, tested)) => match gen_expression(*branch.then_, popped(tested, 1)) {
                Err(failure) => Err(failure),
                Ok((then_, first)) => match gen_expression(*branch.else_, popped(first, 1)) {
                    Err(failure) => Err(failure),
                    Ok((else_, second)) => Ok(
                        (
                            condition + branch_lines(else_label) + then_ + middle_lines(
                                else_label,
                                end_label,
                            ) + else_ + seq![LineModel::Label(end_label)],
                            second,
                        ),
                    ),
                },
            },
        }
    }
}

/// A block: its statements in order and then its outcome, in a scope of
/// its own.
pub open spec fn gen_block(block: BlockModel, state: CompileState) -> Generated
    decreases block, 1int,
{
    if !state.scope.can_nest() {
        Err(Failure::Defect)
    } else {
        match gen_statements(block.statements, 0, with_scope(state, state.scope.into_block())) {
            Err(failure) => Err(failure),
            Ok((statements, next)) => match gen_expression(*block.outcome, next) {
                Err(failure) => Err(failure),
                Ok((outcome, last)) => Ok(
                    (statements + outcome, with_scope(last, last.scope.outof_block())),
                ),
            },
        }
    }
}

/// The code of the statements from index `from` on.
pub open spec fn gen_statements(statements: Seq<StatementModel>, from: int, state: CompileState)
    -> Generated
    decreases statements, statements.len() - from,
{
    if from < 0 || from >= statements.len() {
        Ok((Seq::empty(), state))
    } else {
        match gen_statement(statements[from], state) {
            Err(failure) => Err(failure),
            Ok((first, next)) => match gen_statements(statements, from + 1, next) {
                Err(failure) => Err(failure),
                Ok((rest, last)) => Ok((first + rest, last)),
            },
        }
    }
}

/// An assignment: the value, then its move into a new slot. A return: the
/// value, then its move into the accumulator and the return to the caller.
pub open spec fn gen_statement(statement: StatementModel, state: CompileState) -> Generated
    decreases statement, 3int,
{
    match statement {
        StatementModel::Assignment { identifier, content, let_span } => match gen_expression(
            content,
            state,
        ) {
            Err(failure) => Err(failure),
            Ok((value, next)) => if !next.scope.can_grow() || next.scope.declares(
                identifier.value,
            ) {
                Err(Failure::Defect)
            } else {
                let scope = next.scope.declare(identifier.value);
                Ok((value + store_lines(scope.next), with_scope(popped(next, 1), scope)))
            },
        },
        StatementModel::Return { return_span, content } => match gen_expression(content, state) {
            Err(failure) => Err(failure),
            Ok((value, next)) => Ok((value + return_lines(), popped(next, 1))),
        },
    }
}

/// The lines that move the arguments from their registers into slots, for
/// the parameters from index `from` on, with the symbol table after them.
pub open spec fn gen_parameters(names: Seq<Seq<char>>, from: int, scope: ScopeModel, span: Span)
    -> Result<(Seq<LineModel>, ScopeModel), Failure>
    decreases names.len() - from,
{
    if from < 0 || from >= names.len() || from >= 6 {
        Ok((Seq::empty(), scope))
    } else if !scope.can_grow() {
        Err(Failure::Defect)
    } else if scope.declares(names[from]) {
        Err(Failure::ArgumentError(span))
    } else {
        let declared = scope.declare(names[from]);
        match gen_parameters(names, from + 1, declared, span) {
            Err(failure) => Err(failure),
            Ok((rest, last)) => Ok(
                (
                    seq![push_register(argument_registers()[from])] + store_lines(declared.next)
                        + rest,
                    last,
                ),
            ),
        }
    }
}

/// The state in which the body of a function is compiled.
pub open spec fn body_state(scope: ScopeModel, prefix: Seq<char>) -> CompileState {
    CompileState { scope, next_label: 0, stack_depth: 0, prefix }
}

/// The lines of a function behind its prologue, with the size of its
/// frame: the parameters moved into their slots, the body, and the return
/// of the body's value.
pub open spec fn gen_body(func: FuncModel, prefix: Seq<char>) -> Result<
    (Seq<LineModel>, PointerOffset),
    Failure,
> {
    match gen_parameters(func.args, 0, ScopeModel::fresh(), func.span) {
        Err(failure) => Err(failure),
        Ok((parameters, scope)) => match gen_expression(func.body, body_state(scope, prefix)) {
            Err(failure) => Err(failure),
            Ok((body, last)) => Ok((parameters + body + return_lines(), last.scope.next)),
        },
    }
}

/// The lines of a function: its label, the prologue that reserves the
/// frame for all its variables, and the lines behind the prologue.
pub open spec fn gen_func(func: FuncModel, prefix: Seq<char>) -> Result<Seq<LineModel>, Failure> {
    match gen_body(func, prefix) {
        Err(failure) => Err(failure),
        Ok((lines, frame)) => Ok(
            seq![LineModel::Label(func_label(prefix, func.name))] + prologue_lines(frame) + lines,
        ),
    }
}

/// The lines of each function of a program, from index `from` on.
pub open spec fn gen_root(root: RootModel, from: int, prefix: Seq<char>) -> Result<
    Seq<Seq<LineModel>>,
    Failure,
>
    decreases root.funcs.len() - from,
{
    if from < 0 || from >= root.funcs.len() {
        Ok(Seq::empty())
    } else {
        match gen_func(root.funcs[from], prefix) {
            Err(failure) => Err(failure),
            Ok(first) => match gen_root(root, from + 1, prefix) {
                Err(failure) => Err(failure),
                Ok(rest) => Ok(seq![first] + rest),
            },
        }
    }
}

} // verus!
