use vstd::prelude::*;
use crate::compile::assembly::{
    line_models, Instruction, InstructionModel, Line, LineModel, Readable,
};
use crate::compile::codegen::{
    gen_arguments, gen_fn_call, gen_primary, agrees, call_lines, func_label, gen_unary, outcome,
    padding, pop_argument_lines, popped, pushed, CompileState, Failure,
};
use crate::compile::compiler::FuncCompiler;
use crate::compile::lines::{append, call, emit, negate, no_lines, padding_for, pop_arguments};
use crate::parse::expression::{expression_models, Expression};
use crate::parse::primary::{FnCall, Primary};
use crate::parse::unary::Unary;

verus! {

impl FuncCompiler {
    /// A number is pushed; a variable's value is loaded and pushed; an
    /// expression in brackets is its expression; a call is a call.
    pub(crate) fn compile_primary(&mut self, primary: &Primary) -> (r: Result<Vec<Line>, Failure>)
        ensures
            agrees(
                gen_primary(primary.to_model(), old(self).state()),
                outcome(r),
                old(self).state(),
                final(self).state(),
                8,
            ),
        decreases primary, 0int,
    {
        match primary {
            Primary::Integer(n) => {
                match self.push_value() {
                    Ok(_) => {},
                    Err(failure) => {
                        return Err(failure);
                    },
                }
                let mut lines = no_lines();
                emit(&mut lines, Instruction::Push(Readable::Literal(n.value)));
                assert(line_models(lines@) =~= seq![
                    LineModel::Instruction(InstructionModel::Push(Readable::Literal(n.value))),
                ]);
                Ok(lines)
            },
            Primary::Identifier(name) => {
                match self.lookup(name) {
                    Ok(lines) => {
                        match self.push_value() {
                            Ok(_) => Ok(lines),
                            Err(failure) => Err(failure),
                        }
                    },
                    Err(span) => Err(Failure::UndefinedSymbol(span)),
                }
            },
            Primary::Expression(expression) => self.compile_expression(expression),
            Primary::FnCall(fn_call) => self.compile_fn_call(fn_call),
        }
    }

    /// The arguments are evaluated from left to right and popped into the
    /// argument registers; the call is made with the stack padded to a
    /// multiple of 16 bytes; the result is pushed.
    pub(crate) fn compile_fn_call(&mut self, fn_call: &FnCall) -> (r: Result<Vec<Line>, Failure>)
        ensures
            agrees(
                gen_fn_call(fn_call.to_model(), old(self).state()),
                outcome(r),
                old(self).state(),
                final(self).state(),
                8,
            ),
        decreases fn_call, 1int,
    {
        let count = fn_call.args.len();
        if count > 6 {
            return Err(Failure::Defect);
        }
        let ghost entered = self.state();
        let ghost model = fn_call.to_model();
        assert(model.args.len() == count);
        let mut lines = match self.compile_arguments(&fn_call.args, 0) {
            Ok(lines) => lines,
            Err(failure) => {
                return Err(failure);
            },
        };
        let ghost argument_lines = line_models(lines@);
        let ghost evaluated = self.state();
        assert(gen_arguments(model.args, 0, entered) == Ok::<
            (Seq<LineModel>, CompileState),
            Failure,
        >((argument_lines, evaluated)));
        self.pop_values(count);
        let ghost before = self.state();
        assert(before == popped(evaluated, model.args.len() as int));
        let reserve = padding_for(self.depth());
        let symbol = self.call_symbol(&fn_call.func.value);
        match self.push_value() {
            Ok(_) => {},
            Err(failure) => {
                return Err(failure);
            },
        }
        assert(pushed(before) == Some(self.state()));
        append(&mut lines, pop_arguments(count));
        append(&mut lines, call(symbol, reserve));
        assert(line_models(lines@) == argument_lines + pop_argument_lines(model.args.len() as int)
            + call_lines(func_label(entered.prefix, model.func.value), padding(before.stack_depth)));
        Ok(lines)
    }

    pub(crate) fn compile_arguments(&mut self, arguments: &Vec<Expression>, from: usize) -> (r:
        Result<Vec<Line>, Failure>)
        requires
            from <= arguments@.len(),
        ensures
            agrees(
                gen_arguments(expression_models(arguments@), from as int, old(self).state()),
                outcome(r),
                old(self).state(),
                final(self).state(),
                8 * (arguments@.len() - from),
            ),
        decreases arguments, arguments@.len() - from,
    {
        if from >= arguments.len() {
            return Ok(no_lines());
        }
        assert(expression_models(arguments@)[from as int] == arguments@[from as int].to_model());
        let mut lines = match self.compile_expression(&arguments[from]) {
            Ok(lines) => lines,
            Err(failure) => {
                return Err(failure);
            },
        };
        let rest = match self.compile_arguments(arguments, from + 1) {
            Ok(lines) => lines,
            Err(failure) => {
                return Err(failure);
            },
        };
        append(&mut lines, rest);
        Ok(lines)
    }

    /// A term with a minus sign is the term subtracted from 0.
    pub(crate) fn compile_unary(&mut self, unary: &Unary) -> (r: Result<Vec<Line>, Failure>)
        ensures
            agrees(
                gen_unary(unary.to_model(), old(self).state()),
                outcome(r),
                old(self).state(),
                final(self).state(),
                8,
            ),
        decreases unary, 0int,
    {
        match unary {
            Unary::Positive(primary, _) => self.compile_primary(primary),
            Unary::Negative(primary, _) => {
                let mut lines = match self.compile_primary(primary) {
                    Ok(lines) => lines,
                    Err(failure) => {
                        return Err(failure);
                    },
                };
                append(&mut lines, negate());
                Ok(lines)
            },
        }
    }
}

} // verus!
