use vstd::prelude::*;
use crate::compile::assembly::{
    argument_registers, lemma_line_models_concat, lemma_line_models_push, line_models,
    Instruction, Label, Line, LineModel, Readable, Register, Writable,
};
use crate::compile::codegen::{
    add_lines, branch_lines, call_lines, compare_lines, equality_lines, func_label, middle_lines,
    multiply_lines, negate_lines, padding, pop_argument_lines, relational_lines, return_lines,
};
use crate::compile::scope::Scope;
use crate::general::text::push_text;
use crate::token::Operator;

verus! {

/// Puts `more` behind `lines`.
pub(crate) fn append(lines: &mut Vec<Line>, more: Vec<Line>)
    ensures
        line_models(final(lines)@) == line_models(old(lines)@) + line_models(more@),
{
    let mut more = more;
    proof {
        lemma_line_models_concat(lines@, more@);
    }
    lines.append(&mut more);
}

/// Puts one instruction behind `lines`.
pub(crate) fn emit(lines: &mut Vec<Line>, instruction: Instruction)
    ensures
        line_models(final(lines)@) == line_models(old(lines)@).push(
            LineModel::Instruction(instruction@),
        ),
{
    let line = Line::Instruction(instruction);
    proof {
        lemma_line_models_push(lines@, line);
    }
    lines.push(line);
}

/// Puts one label behind `lines`.
pub(crate) fn mark(lines: &mut Vec<Line>, label: Label)
    ensures
        line_models(final(lines)@) == line_models(old(lines)@).push(LineModel::Label(label@)),
{
    let line = Line::Label(label);
    proof {
        lemma_line_models_push(lines@, line);
    }
    lines.push(line);
}

pub(crate) fn no_lines() -> (lines: Vec<Line>)
    ensures
        line_models(lines@) == Seq::<LineModel>::empty(),
{
    let lines: Vec<Line> = Vec::new();
    assert(line_models(lines@) =~= Seq::empty());
    lines
}

pub(crate) fn negate() -> (lines: Vec<Line>)
    ensures
        line_models(lines@) == negate_lines(),
{
    let mut lines = no_lines();
    emit(&mut lines, Instruction::Pop(Register::Rdi));
    emit(&mut lines, Instruction::Mov(Writable::Register(Register::Rax), Readable::Literal(0)));
    emit(&mut lines, Instruction::Sub(Register::Rax, Readable::Register(Register::Rdi)));
    emit(&mut lines, Instruction::Push(Readable::Register(Register::Rax)));
    assert(line_models(lines@) =~= negate_lines());
    lines
}

pub(crate) fn multiply_operation(operator: Operator) -> (lines: Vec<Line>)
    ensures
        line_models(lines@) == multiply_lines(operator),
{
    let mut lines = no_lines();
    emit(&mut lines, Instruction::Pop(Register::Rdi));
    emit(&mut lines, Instruction::Pop(Register::Rax));
    match operator {
        Operator::Mul => {
            emit(&mut lines, Instruction::Imul(Register::Rax, Readable::Register(Register::Rdi)));
        },
        _ => {
            emit(&mut lines, Instruction::Cqo);
            emit(&mut lines, Instruction::Idiv(Register::Rdi));
        },
    }
    emit(&mut lines, Instruction::Push(Readable::Register(Register::Rax)));
    assert(line_models(lines@) =~= multiply_lines(operator));
    lines
}

pub(crate) fn add_operation(operator: Operator) -> (lines: Vec<Line>)
    ensures
        line_models(lines@) == add_lines(operator),
{
    let mut lines = no_lines();
    emit(&mut lines, Instruction::Pop(Register::Rdi));
    emit(&mut lines, Instruction::Pop(Register::Rax));
    match operator {
        Operator::Add => {
            emit(&mut lines, Instruction::Add(Register::Rax, Readable::Register(Register::Rdi)));
        },
        _ => {
            emit(&mut lines, Instruction::Sub(Register::Rax, Readable::Register(Register::Rdi)));
        },
    }
    emit(&mut lines, Instruction::Push(Readable::Register(Register::Rax)));
    assert(line_models(lines@) =~= add_lines(operator));
    lines
}

pub(crate) fn comparison(set: Instruction) -> (lines: Vec<Line>)
    ensures
        line_models(lines@) == compare_lines(set@),
{
    let mut lines = no_lines();
    emit(&mut lines, Instruction::Pop(Register::Rdi));
    emit(&mut lines, Instruction::Pop(Register::Rax));
    emit(&mut lines, Instruction::Cmp(Register::Rax, Readable::Register(Register::Rdi)));
    emit(&mut lines, set);
    emit(&mut lines, Instruction::Movzb(Register::Rax, Readable::Register(Register::Al)));
    emit(&mut lines, Instruction::Push(Readable::Register(Register::Rax)));
    assert(line_models(lines@) =~= compare_lines(set@));
    lines
}

pub(crate) fn relational_operation(operator: Operator) -> (lines: Vec<Line>)
    ensures
        line_models(lines@) == relational_lines(operator),
{
    let set = match operator {
        Operator::Less => Instruction::Setl(Register::Al),
        Operator::LessEq => Instruction::Setle(Register::Al),
        Operator::Greater => Instruction::Setg(Register::Al),
        _ => Instruction::Setge(Register::Al),
    };
    comparison(set)
}

pub(crate) fn equality_operation(operator: Operator) -> (lines: Vec<Line>)
    ensures
        line_models(lines@) == equality_lines(operator),
{
    let set = match operator {
        Operator::Equal => Instruction::Sete(Register::Al),
        _ => Instruction::Setne(Register::Al),
    };
    comparison(set)
}

pub(crate) fn branch(else_label: Label) -> (lines: Vec<Line>)
    ensures
        line_models(lines@) == branch_lines(else_label@),
{
    let mut lines = no_lines();
    emit(&mut lines, Instruction::Pop(Register::Rax));
    emit(&mut lines, Instruction::Cmp(Register::Rax, Readable::Literal(0)));
    emit(&mut lines, Instruction::Je(else_label));
    assert(line_models(lines@) =~= branch_lines(else_label@));
    lines
}

pub(crate) fn middle(else_label: Label, end_label: Label) -> (lines: Vec<Line>)
    ensures
        line_models(lines@) == middle_lines(else_label@, end_label@),
{
    let mut lines = no_lines();
    emit(&mut lines, Instruction::Jmp(end_label));
    mark(&mut lines, else_label);
    assert(line_models(lines@) =~= middle_lines(else_label@, end_label@));
    lines
}

pub(crate) fn return_to_caller(scope: &Scope) -> (lines: Vec<Line>)
    ensures
        line_models(lines@) == return_lines(),
{
    let mut lines = no_lines();
    emit(&mut lines, Instruction::Pop(Register::Rax));
    append(&mut lines, scope.epilogue());
    assert(line_models(lines@) =~= return_lines());
    lines
}

pub(crate) fn call(symbol: Label, padding: i64) -> (lines: Vec<Line>)
    ensures
        line_models(lines@) == call_lines(symbol@, padding),
{
    let mut lines = no_lines();
    emit(&mut lines, Instruction::Sub(Register::Rsp, Readable::Literal(padding)));
    emit(&mut lines, Instruction::Call(symbol.name));
    emit(&mut lines, Instruction::Add(Register::Rsp, Readable::Literal(padding)));
    emit(&mut lines, Instruction::Push(Readable::Register(Register::Rax)));
    assert(line_models(lines@) =~= call_lines(symbol@, padding));
    lines
}

pub(crate) fn pop_arguments(count: usize) -> (lines: Vec<Line>)
    requires
        count <= 6,
    ensures
        line_models(lines@) == pop_argument_lines(count as int),
{
    let registers = Register::fn_args();
    let mut lines = no_lines();
    let mut left = count;
    proof {
        assert(pop_argument_lines(count as int) =~= Seq::<LineModel>::empty()
            + pop_argument_lines(count as int));
    }
    while left > 0
        invariant
            left <= count <= 6,
            registers@ == argument_registers(),
            pop_argument_lines(count as int) == line_models(lines@) + pop_argument_lines(
                left as int,
            ),
        decreases left,
    {
        let ghost before = line_models(lines@);
        emit(&mut lines, Instruction::Pop(registers[left - 1]));
        left = left - 1;
        assert(before + pop_argument_lines(left + 1) =~= line_models(lines@) + pop_argument_lines(
            left as int,
        ));
    }
    assert(line_models(lines@) + pop_argument_lines(0) =~= line_models(lines@));
    lines
}

/// The symbol of a function: the prefix and the function's name.
pub(crate) fn symbol_of(prefix: &str, name: &str) -> (label: Label)
    ensures
        label@ == func_label(prefix@, name@),
{
    let mut text = String::new();
    push_text(&mut text, prefix);
    push_text(&mut text, name);
    assert(text@ =~= func_label(prefix@, name@));
    Label { name: text }
}

/// The bytes to reserve before a call at the given depth of the stack.
pub(crate) fn padding_for(stack_depth: i64) -> (r: i64)
    ensures
        r == padding(stack_depth),
{
    match stack_depth.checked_rem_euclid(16) {
        Some(rest) => {
            if rest == 0 {
                0
            } else {
                16 - rest
            }
        },
        None => 0,
    }
}


} // verus!
