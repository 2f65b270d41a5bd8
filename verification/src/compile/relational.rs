use vstd::prelude::*;
use crate::compile::assembly::{line_models, Line, LineModel};
use crate::compile::codegen::{
    gen_add, agrees, gen_relational, gen_relational_tail, outcome, popped, CompileState, Failure,
};
use crate::compile::compiler::FuncCompiler;
use crate::compile::lines::{append, no_lines, relational_operation};
use crate::parse::add::Add;
use crate::parse::binary_operation::BinaryOperation;
use crate::parse::relational::Relational;

verus! {

impl FuncCompiler {
    /// The first element, then each further element followed by the
    /// operation that joins it to what came before.
    pub(crate) fn compile_relational(&mut self, relational: &Relational) -> (r: Result<Vec<Line>, Failure>)
        ensures
            agrees(
                gen_relational(relational.to_model(), old(self).state()),
                outcome(r),
                old(self).state(),
                final(self).state(),
                8,
            ),
        decreases relational, 1int,
    {
        let chain = &relational.binary_operation;
        let mut lines = match self.compile_add(chain.head()) {
            Ok(lines) => lines,
            Err(failure) => {
                return Err(failure);
            },
        };
        let rest = match self.compile_relational_tail(chain) {
            Ok(lines) => lines,
            Err(failure) => {
                return Err(failure);
            },
        };
        append(&mut lines, rest);
        Ok(lines)
    }

    pub(crate) fn compile_relational_tail(&mut self, chain: &BinaryOperation<Add>) -> (r: Result<
        Vec<Line>,
        Failure,
    >)
        ensures
            agrees(
                gen_relational_tail(Relational::chain_model(*chain), old(self).state()),
                outcome(r),
                old(self).state(),
                final(self).state(),
                0,
            ),
        decreases chain, 0int,
    {
        match chain {
            BinaryOperation::Single(_) => Ok(no_lines()),
            BinaryOperation::Binary { operator, left, right } => {
                let ghost entered = self.state();
                let ghost following = Relational::chain_model(**right);
                assert(Relational::chain_model(*chain) == (BinaryOperation::Binary {
                    operator: *operator,
                    left: left.to_model(),
                    right: Box::new(following),
                }));
                let element = right.head();
                assert(element.to_model() == following.first());
                let mut lines = match self.compile_add(element) {
                    Ok(lines) => lines,
                    Err(failure) => {
                        return Err(failure);
                    },
                };
                let ghost element_lines = line_models(lines@);
                let ghost evaluated = self.state();
                assert(gen_add(element.to_model(), entered) == Ok::<
                    (Seq<LineModel>, CompileState),
                    Failure,
                >((element_lines, evaluated)));
                self.pop_values(1);
                append(&mut lines, relational_operation(operator.value));
                let rest = match self.compile_relational_tail(right) {
                    Ok(lines) => lines,
                    Err(failure) => {
                        return Err(failure);
                    },
                };
                let ghost rest_lines = line_models(rest@);
                assert(gen_relational_tail(following, popped(evaluated, 1)) == Ok::<
                    (Seq<LineModel>, CompileState),
                    Failure,
                >((rest_lines, self.state())));
                append(&mut lines, rest);
                Ok(lines)
            },
        }
    }
}

} // verus!
