use vstd::prelude::*;
use crate::compile::assembly::{line_models, Line, LineModel};
use crate::compile::codegen::{
    gen_equality, gen_equality_tail, agrees, gen_relational, outcome, popped, CompileState,
    Failure,
};
use crate::compile::compiler::FuncCompiler;
use crate::compile::lines::{append, equality_operation, no_lines};
use crate::parse::binary_operation::BinaryOperation;
use crate::parse::equality::Equality;
use crate::parse::relational::Relational;

verus! {

impl FuncCompiler {
    /// The first element, then each further element followed by the
    /// operation that joins it to what came before.
    pub(crate) fn compile_equality(&mut self, equality: &Equality) -> (r: Result<Vec<Line>, Failure>)
        ensures
            agrees(
                gen_equality(equality.to_model(), old(self).state()),
                outcome(r),
                old(self).state(),
                final(self).state(),
                8,
            ),
        decreases equality, 1int,
    {
        let chain = &equality.binary_operation;
        let mut lines = match self.compile_relational(chain.head()) {
            Ok(lines) => lines,
            Err(failure) => {
                return Err(failure);
            },
        };
        let rest = match self.compile_equality_tail(chain) {
            Ok(lines) => lines,
            Err(failure) => {
                return Err(failure);
            },
        };
        append(&mut lines, rest);
        Ok(lines)
    }

    pub(crate) fn compile_equality_tail(&mut self, chain: &BinaryOperation<Relational>) -> (r: Result<
        Vec<Line>,
        Failure,
    >)
        ensures
            agrees(
                gen_equality_tail(Equality::chain_model(*chain), old(self).state()),
                outcome(r),
                old(self).state(),
                final(self).state(),
                0,
            ),
        decreases chain, 0int,
    {
        match chain {
            BinaryOperation::Single(_) => Ok(no_lines()),
            BinaryOperation::Binary { operator, left, right } => {
                let ghost entered = self.state();
                let ghost following = Equality::chain_model(**right);
                assert(Equality::chain_model(*chain) == (BinaryOperation::Binary {
                    operator: *operator,
                    left: left.to_model(),
                    right: Box::new(following),
                }));
                let element = right.head();
                assert(element.to_model() == following.first());
                let mut lines = match self.compile_relational(element) {
                    Ok(lines) => lines,
                    Err(failure) => {
                        return Err(failure);
                    },
                };
                let ghost element_lines = line_models(lines@);
                let ghost evaluated = self.state();
                assert(gen_relational(element.to_model(), entered) == Ok::<
                    (Seq<LineModel>, CompileState),
                    Failure,
                >((element_lines, evaluated)));
                self.pop_values(1);
                append(&mut lines, equality_operation(operator.value));
                let rest = match self.compile_equality_tail(right) {
                    Ok(lines) => lines,
                    Err(failure) => {
                        return Err(failure);
                    },
                };
                let ghost rest_lines = line_models(rest@);
                assert(gen_equality_tail(following, popped(evaluated, 1)) == Ok::<
                    (Seq<LineModel>, CompileState),
                    Failure,
                >((rest_lines, self.state())));
                append(&mut lines, rest);
                Ok(lines)
            },
        }
    }
}

} // verus!
