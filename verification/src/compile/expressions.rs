use vstd::prelude::*;
use crate::compile::assembly::{line_models, Line, LineModel};
use crate::compile::codegen::{
    gen_block, gen_equality, gen_expression, gen_if, agrees, gen_statement, gen_statements,
    labelled, local_label, outcome, popped, CompileState, Failure,
};
use crate::compile::compiler::FuncCompiler;
use crate::compile::lines::{append, branch, mark, middle, no_lines};
use crate::parse::expression::{
    statement_models, BlockExpression, Expression, IfExpression, PureExpression,
};
use crate::parse::statement::Statement;

verus! {

impl FuncCompiler {
    pub(crate) fn compile_pure_expression(&mut self, expr: &PureExpression) -> (r: Result<
        Vec<Line>,
        Failure,
    >)
        ensures
            agrees(
                gen_equality(expr.to_model(), old(self).state()),
                outcome(r),
                old(self).state(),
                final(self).state(),
                8,
            ),
        decreases expr, 2int,
    {
        self.compile_equality(&expr.equality)
    }

    /// The code of an expression leaves one value more on the stack.
    pub(crate) fn compile_expression(&mut self, expression: &Expression) -> (r: Result<
        Vec<Line>,
        Failure,
    >)
        ensures
            agrees(
                gen_expression(expression.to_model(), old(self).state()),
                outcome(r),
                old(self).state(),
                final(self).state(),
                8,
            ),
        decreases expression, 3int,
    {
        match expression {
            Expression::PureExpression(expr) => self.compile_pure_expression(expr),
            Expression::IfExpression(expr) => self.compile_if_expression(expr),
            Expression::BlockExpression(expr) => self.compile_block_expression(expr),
        }
    }

    /// The condition is popped and compared with 0; one branch runs, and
    /// either leaves one value.
    pub(crate) fn compile_if_expression(&mut self, expr: &IfExpression) -> (r: Result<
        Vec<Line>,
        Failure,
    >)
        ensures
            agrees(
                gen_if(expr.to_model(), old(self).state()),
                outcome(r),
                old(self).state(),
                final(self).state(),
                8,
            ),
        decreases expr, 1int,
    {
        let ghost entered = self.state();
        let ghost model = expr.to_model();
        let (else_label, end_label) = match self.new_labels() {
            Ok(labels) => labels,
            Err(failure) => {
                return Err(failure);
            },
        };
        let mut lines = match self.compile_expression(&expr.condition) {
            Ok(lines) => lines,
            Err(failure) => {
                return Err(failure);
            },
        };
        let ghost condition = line_models(lines@);
        let ghost tested = self.state();
        assert(gen_expression(*model.condition, labelled(entered)) == Ok::<
            (Seq<LineModel>, CompileState),
            Failure,
        >((condition, tested)));
        append(&mut lines, branch(else_label.clone()));
        self.pop_values(1);
        let then_lines = match self.compile_expression(&expr.then_) {
            Ok(lines) => lines,
            Err(failure) => {
                return Err(failure);
            },
        };
        let ghost first = self.state();
        assert(gen_expression(*model.then_, popped(tested, 1)) == Ok::<
            (Seq<LineModel>, CompileState),
            Failure,
        >((line_models(then_lines@), first)));
        append(&mut lines, then_lines);
        append(&mut lines, middle(else_label, end_label.clone()));
        self.pop_values(1);
        let else_lines = match self.compile_expression(&expr.else_) {
            Ok(lines) => lines,
            Err(failure) => {
                return Err(failure);
            },
        };
        assert(gen_expression(*model.else_, popped(first, 1)) == Ok::<
            (Seq<LineModel>, CompileState),
            Failure,
        >((line_models(else_lines@), self.state())));
        let ghost before_mark = line_models(lines@) + line_models(else_lines@);
        append(&mut lines, else_lines);
        mark(&mut lines, end_label);
        assert(line_models(lines@) =~= before_mark + seq![
            LineModel::Label(local_label((entered.next_label + 1) as u64)),
        ]);
        Ok(lines)
    }

    /// The statements and the outcome are compiled in a scope of their
    /// own; the value of the outcome is the value of the block.
    pub(crate) fn compile_block_expression(&mut self, expr: &BlockExpression) -> (r: Result<
        Vec<Line>,
        Failure,
    >)
        ensures
            agrees(
                gen_block(expr.to_model(), old(self).state()),
                outcome(r),
                old(self).state(),
                final(self).state(),
                8,
            ),
        decreases expr, 1int,
    {
        match self.into_block() {
            Ok(_) => {},
            Err(failure) => {
                return Err(failure);
            },
        }
        let mut lines = match self.compile_statements(&expr.statements, 0) {
            Ok(lines) => lines,
            Err(failure) => {
                return Err(failure);
            },
        };
        let outcome = match self.compile_expression(&expr.outcome) {
            Ok(lines) => lines,
            Err(failure) => {
                return Err(failure);
            },
        };
        append(&mut lines, outcome);
        self.outof_block();
        Ok(lines)
    }

    pub(crate) fn compile_statements(&mut self, statements: &Vec<Statement>, from: usize) -> (r:
        Result<Vec<Line>, Failure>)
        requires
            from <= statements@.len(),
        ensures
            agrees(
                gen_statements(statement_models(statements@), from as int, old(self).state()),
                outcome(r),
                old(self).state(),
                final(self).state(),
                0,
            ),
        decreases statements, statements@.len() - from,
    {
        if from >= statements.len() {
            return Ok(no_lines());
        }
        assert(statement_models(statements@)[from as int] == statements@[from as int].to_model());
        let mut lines = match self.compile_statement(&statements[from]) {
            Ok(lines) => lines,
            Err(failure) => {
                return Err(failure);
            },
        };
        let rest = match self.compile_statements(statements, from + 1) {
            Ok(lines) => lines,
            Err(failure) => {
                return Err(failure);
            },
        };
        append(&mut lines, rest);
        Ok(lines)
    }

    /// The code of a statement leaves the stack as deep as it was.
    pub(crate) fn compile_statement(&mut self, statement: &Statement) -> (r: Result<
        Vec<Line>,
        Failure,
    >)
        ensures
            agrees(
                gen_statement(statement.to_model(), old(self).state()),
                outcome(r),
                old(self).state(),
                final(self).state(),
                0,
            ),
        decreases statement, 4int,
    {
        match statement {
            Statement::Assignment(asn) => {
                let mut lines = match self.compile_expression(asn.content()) {
                    Ok(lines) => lines,
                    Err(failure) => {
                        return Err(failure);
                    },
                };
                let store = match self.declare(&asn.identifier().value) {
                    Ok(lines) => lines,
                    Err(failure) => {
                        return Err(failure);
                    },
                };
                append(&mut lines, store);
                self.pop_values(1);
                Ok(lines)
            },
            Statement::Return(ret) => {
                let mut lines = match self.compile_expression(ret.content()) {
                    Ok(lines) => lines,
                    Err(failure) => {
                        return Err(failure);
                    },
                };
                let leave = self.return_to_caller();
                append(&mut lines, leave);
                self.pop_values(1);
                Ok(lines)
            },
        }
    }
}

} // verus!
