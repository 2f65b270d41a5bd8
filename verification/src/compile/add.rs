use vstd::prelude::*;
use crate::compile::assembly::{line_models, Line, LineModel};
use crate::compile::codegen::{
    gen_add, gen_add_tail, gen_multiply, agrees, outcome, popped, CompileState, Failure,
};
use crate::compile::compiler::FuncCompiler;
use crate::compile::lines::{add_operation, append, no_lines};
use crate::parse::add::Add;
use crate::parse::binary_operation::BinaryOperation;
use crate::parse::multiply::Multiply;

verus! {

impl FuncCompiler {
    /// The first element, then each further element followed by the
    /// operation that joins it to what came before.
    pub(crate) fn compile_add(&mut self, add: &Add) -> (r: Result<Vec<Line>, Failure>)
        ensures
            agrees(
                gen_add(add.to_model(), old(self).state()),
                outcome(r),
                old(self).state(),
                final(self).state(),
                8,
            ),
        decreases add, 1int,
    {
        let chain = &add.binary_operation;
        let mut lines = match self.compile_multiply(chain.head()) {
            Ok(lines) => lines,
            Err(failure) => {
                return Err(failure);
            },
        };
        let rest = match self.compile_add_tail(chain) {
            Ok(lines) => lines,
            Err(failure) => {
                return Err(failure);
            },
        };
        append(&mut lines, rest);
        Ok(lines)
    }

    pub(crate) fn compile_add_tail(&mut self, chain: &BinaryOperation<Multiply>) -> (r: Result<
        Vec<Line>,
        Failure,
    >)
        ensures
            agrees(
                gen_add_tail(Add::chain_model(*chain), old(self).state()),
                outcome(r),
                old(self).state(),
                final(self).state(),
                0,
            ),
        decreases chain, 0int,
    {
        match chain {
            BinaryOperation::Single(_) => Ok(no_lines()),
            BinaryOperation::Binary { operator, left, right } => {
                let ghost entered = self.state();
                let ghost following = Add::chain_model(**right);
                assert(Add::chain_model(*chain) == (BinaryOperation::Binary {
                    operator: *operator,
                    left: left.to_model(),
                    right: Box::new(following),
                }));
                let element = right.head();
                assert(element.to_model() == following.first());
                let mut lines = match self.compile_multiply(element) {
                    Ok(lines) => lines,
                    Err(failure) => {
                        return Err(failure);
                    },
                };
                let ghost element_lines = line_models(lines@);
                let ghost evaluated = self.state();
                assert(gen_multiply(element.to_model(), entered) == Ok::<
                    (Seq<LineModel>, CompileState),
                    Failure,
                >((element_lines, evaluated)));
                self.pop_values(1);
                append(&mut lines, add_operation(operator.value));
                let rest = match self.compile_add_tail(right) {
                    Ok(lines) => lines,
                    Err(failure) => {
                        return Err(failure);
                    },
                };
                let ghost rest_lines = line_models(rest@);
                assert(gen_add_tail(following, popped(evaluated, 1)) == Ok::<
                    (Seq<LineModel>, CompileState),
                    Failure,
                >((rest_lines, self.state())));
                append(&mut lines, rest);
                Ok(lines)
            },
        }
    }
}

} // verus!
