use vstd::prelude::*;
use crate::compile::assembly::{line_models, line_text, Label, Line, LineModel};
use crate::compile::codegen::{
    body_state, func_label, gen_func, gen_parameters, gen_root, labelled, local_label, popped,
    push_register, pushed, return_lines, with_scope, CompileState, Failure,
};
use crate::compile::lines::{append, emit, mark, no_lines, return_to_caller, symbol_of};
use crate::compile::assembly::{argument_registers, Instruction, Readable, Register};
use crate::compile::scope::{load_lines, prologue_lines, store_lines, Scope, ScopeModel};
use crate::general::text::{push_text, push_unsigned};
use crate::parse::func::{name_models, Func};
use crate::parse::root::Root;
use crate::sourcecode::Code;
use crate::sourcecode::Span;

verus! {

impl Failure {
    /// The span of source text that the failure points at.
    pub open spec fn place(self) -> Option<Span> {
        match self {
            Failure::UndefinedSymbol(span) => Some(span),
            Failure::ArgumentError(span) => Some(span),
            Failure::Defect => None,
        }
    }

    /// The message that tells the user what went wrong.
    #[verifier::opaque]
    pub open spec fn text(self) -> Seq<char> {
        match self {
            Failure::UndefinedSymbol(_) => "未定義のシンボルです。"@,
            Failure::ArgumentError(_) => "引数エラー"@,
            Failure::Defect => "内部エラー"@,
        }
    }

    /// The message that tells the user what went wrong.
    pub fn message(&self) -> (r: String)
        ensures
            r@ == self.text(),
    {
        reveal(Failure::text);
        match self {
            Failure::UndefinedSymbol(_) => "未定義のシンボルです。".to_owned(),
            Failure::ArgumentError(_) => "引数エラー".to_owned(),
            Failure::Defect => "内部エラー".to_owned(),
        }
    }

    /// The span and the message of a failure that has a span.
    pub fn explain(&self) -> (r: (Span, String))
        requires
            *self != Failure::Defect,
        ensures
            Some(r.0) == self.place(),
            r.1@ == self.text(),
    {
        match self {
            Failure::UndefinedSymbol(span) => (*span, self.message()),
            Failure::ArgumentError(span) => (*span, self.message()),
            Failure::Defect => (
                Span {
                    start: crate::sourcecode::Position { line: 0, pos: 0 },
                    end: crate::sourcecode::Position { line: 0, pos: 0 },
                },
                self.message(),
            ),
        }
    }
}

/// The text of lines: each line behind a line feed.
pub open spec fn lines_text(lines: Seq<LineModel>) -> Seq<char>
    decreases lines.len(),
{
    if lines.len() == 0 {
        Seq::empty()
    } else {
        lines_text(lines.drop_last()) + seq!['\n'] + line_text(lines.last())
    }
}

/// The text of a function: the declaration of its symbol as global, then
/// its lines.
pub open spec fn function_text(symbol: Seq<char>, lines: Seq<LineModel>) -> Seq<char> {
    "\n.global "@ + symbol + lines_text(lines)
}

/// The compiler of one function: the lines of the function, and what the
/// compiler keeps track of while it makes them.
pub struct FuncCompiler {
    pub lines: Vec<Line>,
    next_label: u64,
    scope: Scope,
    stack_depth: i64,
    symbol_prefix: String,
    symbol: String,
}

impl FuncCompiler {
    /// What the compiler keeps track of.
    pub closed spec fn state(&self) -> CompileState {
        CompileState {
            scope: self.scope@,
            next_label: self.next_label,
            stack_depth: self.stack_depth,
            prefix: self.symbol_prefix@,
        }
    }

    /// The symbol of the function.
    pub closed spec fn symbol(&self) -> Seq<char> {
        self.symbol@
    }

    /// The lines of the function.
    pub closed spec fn output(&self) -> Seq<LineModel> {
        line_models(self.lines@)
    }

    /// The lines of the function.
    pub fn lines(&self) -> (r: &Vec<Line>)
        ensures
            line_models(r@) == self.output(),
    {
        &self.lines
    }

    /// The number of bytes pushed and not popped so far.
    pub(crate) fn depth(&self) -> (r: i64)
        ensures
            r == self.state().stack_depth,
    {
        self.stack_depth
    }

    /// Counts one more value on the stack, if the counter can hold it.
    pub(crate) fn push_value(&mut self) -> (r: Result<(), Failure>)
        ensures
            match r {
                Ok(_) => pushed(old(self).state()) == Some(final(self).state())
                    && final(self).state().stack_depth == old(self).state().stack_depth + 8,
                Err(failure) => failure == Failure::Defect && pushed(old(self).state()) is None,
            },
    {
        if self.stack_depth > i64::MAX - 8 {
            return Err(Failure::Defect);
        }
        self.stack_depth = self.stack_depth + 8;
        Ok(())
    }

    /// Counts `count` values fewer on the stack.
    pub(crate) fn pop_values(&mut self, count: usize)
        requires
            count <= 6,
            old(self).state().stack_depth - 8 * count >= i64::MIN,
        ensures
            final(self).state() == popped(old(self).state(), count as int),
            final(self).state().stack_depth == old(self).state().stack_depth - 8 * count,
    {
        self.stack_depth = self.stack_depth - 8 * (count as i64);
    }

    /// The lines that push the value of the variable that `name` stands for.
    pub(crate) fn lookup(&self, name: &Code<String>) -> (r: Result<Vec<Line>, Span>)
        ensures
            match r {
                Ok(lines) => self.state().scope.lookup(name.value@) matches Some(offset)
                    && line_models(lines@) == load_lines(offset),
                Err(span) => self.state().scope.lookup(name.value@) is None && span == name.span,
            },
    {
        self.scope.lookup(name)
    }

    /// Declares a variable and gives the lines that pop a value into it.
    pub(crate) fn declare(&mut self, name: &String) -> (r: Result<Vec<Line>, Failure>)
        ensures
            match r {
                Ok(lines) => old(self).state().scope.can_grow()
                    && !old(self).state().scope.declares(name@)
                    && final(self).state() == with_scope(
                    old(self).state(),
                    old(self).state().scope.declare(name@),
                ) && line_models(lines@) == store_lines(final(self).state().scope.next),
                Err(failure) => failure == Failure::Defect && (!old(self).state().scope.can_grow()
                    || old(self).state().scope.declares(name@)),
            },
    {
        if self.scope.frame_size() > i64::MAX - 8 {
            return Err(Failure::Defect);
        }
        match self.scope.declare(name) {
            Ok(lines) => Ok(lines),
            Err(_) => Err(Failure::Defect),
        }
    }

    /// Opens a block, if one more block can get a number.
    pub(crate) fn into_block(&mut self) -> (r: Result<(), Failure>)
        ensures
            match r {
                Ok(_) => old(self).state().scope.can_nest() && final(self).state() == with_scope(
                    old(self).state(),
                    old(self).state().scope.into_block(),
                ),
                Err(failure) => failure == Failure::Defect && !old(self).state().scope.can_nest(),
            },
    {
        if self.scope.last_block() == u64::MAX {
            return Err(Failure::Defect);
        }
        self.scope.into_block();
        Ok(())
    }

    /// Closes the innermost block.
    pub(crate) fn outof_block(&mut self)
        ensures
            final(self).state() == with_scope(
                old(self).state(),
                old(self).state().scope.outof_block(),
            ),
    {
        self.scope.outof_block();
    }

    /// The label with the next number.
    fn new_label(&mut self) -> (label: Label)
        requires
            old(self).state().next_label < u64::MAX,
        ensures
            label@ == local_label(old(self).state().next_label),
            final(self).state().next_label == old(self).state().next_label + 1,
            final(self).state().scope == old(self).state().scope,
            final(self).state().stack_depth == old(self).state().stack_depth,
            final(self).state().prefix == old(self).state().prefix,
    {
        let index = self.next_label;
        self.next_label = self.next_label + 1;
        let mut name = String::new();
        name.push('.');
        name.push('L');
        push_unsigned(&mut name, index);
        assert(name@ =~= local_label(index));
        Label { name }
    }

    /// The two labels of a conditional, if the counter can hold them.
    pub(crate) fn new_labels(&mut self) -> (r: Result<(Label, Label), Failure>)
        ensures
            match r {
                Ok(labels) => old(self).state().next_label + 2 <= u64::MAX && labels.0@
                    == local_label(old(self).state().next_label) && labels.1@ == local_label(
                    (old(self).state().next_label + 1) as u64,
                ) && final(self).state() == labelled(old(self).state()),
                Err(failure) => failure == Failure::Defect && old(self).state().next_label + 2
                    > u64::MAX,
            },
    {
        if self.next_label > u64::MAX - 2 {
            return Err(Failure::Defect);
        }
        let else_label = self.new_label();
        let end_label = self.new_label();
        Ok((else_label, end_label))
    }

    /// The symbol of the function with the given name.
    pub(crate) fn call_symbol(&self, name: &String) -> (label: Label)
        ensures
            label@ == func_label(self.state().prefix, name@),
    {
        symbol_of(self.symbol_prefix.as_str(), name.as_str())
    }

    /// The lines that pop the result into the accumulator and return.
    pub(crate) fn return_to_caller(&self) -> (lines: Vec<Line>)
        ensures
            line_models(lines@) == return_lines(),
    {
        return_to_caller(&self.scope)
    }

    /// The lines that move the arguments from their registers into the
    /// slots of the parameters from index `from` on.
    fn compile_parameters(&mut self, names: &Vec<String>, from: usize, span: Span) -> (r: Result<
        Vec<Line>,
        Failure,
    >)
        requires
            from <= names@.len(),
        ensures
            match r {
                Ok(lines) => gen_parameters(
                    name_models(names@),
                    from as int,
                    old(self).state().scope,
                    span,
                ) matches Ok(done) && done.0 == line_models(lines@) && final(self).state()
                    == with_scope(old(self).state(), done.1),
                Err(failure) => gen_parameters(
                    name_models(names@),
                    from as int,
                    old(self).state().scope,
                    span,
                ) == Err::<(Seq<LineModel>, ScopeModel), Failure>(failure),
            },
        decreases names@.len() - from,
    {
        if from >= names.len() || from >= 6 {
            return Ok(no_lines());
        }
        assert(name_models(names@)[from as int] == names@[from as int]@);
        if self.scope.frame_size() > i64::MAX - 8 {
            return Err(Failure::Defect);
        }
        let registers = Register::fn_args();
        let mut lines = no_lines();
        emit(&mut lines, Instruction::Push(Readable::Register(registers[from])));
        match self.scope.declare(&names[from]) {
            Ok(store) => {
                append(&mut lines, store);
            },
            Err(_) => {
                return Err(Failure::ArgumentError(span));
            },
        }
        let rest = match self.compile_parameters(names, from + 1, span) {
            Ok(lines) => lines,
            Err(failure) => {
                return Err(failure);
            },
        };
        let ghost declared = old(self).state().scope.declare(names@[from as int]@);
        assert(line_models(lines@) =~= seq![push_register(argument_registers()[from as int])]
            + store_lines(declared.next));
        append(&mut lines, rest);
        Ok(lines)
    }

    /// Compiles a function to lines of assembly. `symbol_prefix` is put in
    /// front of the name of every function to make its symbol.
    ///
    /// Fails with `UndefinedSymbol` where the body names a variable that is
    /// not in scope, with `ArgumentError` where two parameters have one
    /// name, and with `Defect` on a tree that the parser never gives.
    pub fn generate(func: &Func, symbol_prefix: &str) -> (r: Result<FuncCompiler, Failure>)
        ensures
            match r {
                Ok(compiler) => gen_func(func.to_model(), symbol_prefix@) == Ok::<
                    Seq<LineModel>,
                    Failure,
                >(compiler.output()) && compiler.symbol() == func_label(
                    symbol_prefix@,
                    func.name@,
                ),
                Err(failure) => gen_func(func.to_model(), symbol_prefix@) == Err::<
                    Seq<LineModel>,
                    Failure,
                >(failure),
            },
    {
        let label = symbol_of(symbol_prefix, func.name.as_str());
        let symbol = symbol_of(symbol_prefix, func.name.as_str());
        let mut assembly = FuncCompiler {
            lines: Vec::new(),
            next_label: 0,
            scope: Scope::new(),
            stack_depth: 0,
            symbol_prefix: symbol_prefix.to_owned(),
            symbol: String::new(),
        };
        assert(assembly.state() == body_state(ScopeModel::fresh(), symbol_prefix@));
        let parameters = match assembly.compile_parameters(&func.args, 0, func.span) {
            Ok(lines) => lines,
            Err(failure) => {
                return Err(failure);
            },
        };
        let ghost entered = assembly.state();
        assert(entered == body_state(entered.scope, symbol_prefix@));
        assert(gen_parameters(func.to_model().args, 0, ScopeModel::fresh(), func.to_model().span)
            matches Ok(done) && done.0 == line_models(parameters@) && done.1 == entered.scope);
        let body = match assembly.compile_expression(&func.body) {
            Ok(lines) => lines,
            Err(failure) => {
                return Err(failure);
            },
        };
        let ghost last = assembly.state();
        assert(crate::compile::codegen::gen_expression(func.to_model().body, entered) matches Ok(
            done,
        ) && done.0 == line_models(body@) && done.1 == last);
        let mut lines = no_lines();
        mark(&mut lines, label);
        append(&mut lines, assembly.scope.prologue());
        append(&mut lines, parameters);
        append(&mut lines, body);
        append(&mut lines, return_to_caller(&assembly.scope));
        assert(line_models(lines@) =~= seq![
            LineModel::Label(func_label(symbol_prefix@, func.name@)),
        ] + prologue_lines(assembly.state().scope.next) + line_models(parameters@) + line_models(
            body@,
        ) + return_lines());
        assembly.lines = lines;
        assembly.symbol = symbol.name;
        assert(assembly.output() =~= seq![LineModel::Label(func_label(symbol_prefix@, func.name@))]
            + prologue_lines(last.scope.next) + (line_models(parameters@) + line_models(body@)
            + return_lines()));
        Ok(assembly)
    }

    /// Compiles a function to lines of assembly. `symbol_prefix` is put in
    /// front of the name of every function to make its symbol.
    ///
    /// Fails with the span of an identifier that names no variable in
    /// scope, or with the span of the function where two parameters have
    /// one name.
    pub fn compile(func: &Func, symbol_prefix: &str) -> (r: Result<FuncCompiler, (Span, String)>)
        requires
            gen_func(func.to_model(), symbol_prefix@) != Err::<Seq<LineModel>, Failure>(
                Failure::Defect,
            ),
        ensures
            match r {
                Ok(compiler) => gen_func(func.to_model(), symbol_prefix@) == Ok::<
                    Seq<LineModel>,
                    Failure,
                >(compiler.output()) && compiler.symbol() == func_label(
                    symbol_prefix@,
                    func.name@,
                ),
                Err(error) => gen_func(func.to_model(), symbol_prefix@) matches Err(failure)
                    && failure.place() == Some(error.0) && failure.text() == error.1@,
            },
    {
        match FuncCompiler::generate(func, symbol_prefix) {
            Ok(compiler) => Ok(compiler),
            Err(failure) => Err(failure.explain()),
        }
    }

    /// The text of the function: the declaration of its symbol as global,
    /// then each line behind a line feed.
    pub fn assembly_string(&self) -> (r: String)
        ensures
            r@ == function_text(self.symbol(), self.output()),
    {
        let mut text = String::new();
        push_text(&mut text, "\n.global ");
        push_text(&mut text, self.symbol.as_str());
        let ghost head = text@;
        assert(head =~= "\n.global "@ + self.symbol());
        let mut i: usize = 0;
        assert(line_models(self.lines@).subrange(0, 0) =~= Seq::<LineModel>::empty());
        assert(head + lines_text(Seq::<LineModel>::empty()) =~= head);
        while i < self.lines.len()
            invariant
                i <= self.lines@.len(),
                text@ == head + lines_text(line_models(self.lines@).subrange(0, i as int)),
            decreases self.lines@.len() - i,
        {
            let ghost before = line_models(self.lines@).subrange(0, i as int);
            let ghost current = line_models(self.lines@).subrange(0, i + 1);
            text.push('\n');
            push_text(&mut text, self.lines[i].text().as_str());
            proof {
                assert(current.drop_last() =~= before);
                assert(current.last() == self.lines@[i as int]@);
                assert(head + (lines_text(before) + seq!['\n'] + line_text(current.last()))
                    =~= (head + lines_text(before)).push('\n') + line_text(current.last()));
            }
            i = i + 1;
        }
        assert(line_models(self.lines@).subrange(0, i as int) =~= line_models(self.lines@));
        text
    }
}

/// The lines of each compiled function.
pub open spec fn compiled_lines(compilers: Seq<FuncCompiler>) -> Seq<Seq<LineModel>> {
    Seq::new(compilers.len(), |i: int| compilers[i].output())
}

/// The text of a program: each function behind an empty line.
pub open spec fn program_text(compilers: Seq<FuncCompiler>) -> Seq<char>
    decreases compilers.len(),
{
    if compilers.len() == 0 {
        Seq::empty()
    } else {
        program_text(compilers.drop_last()) + seq!['\n', '\n'] + function_text(
            compilers.last().symbol(),
            compilers.last().output(),
        )
    }
}

/// The compiler of a program: one compiler for each of its functions.
pub struct Compiler {
    pub func_compilers: Vec<FuncCompiler>,
}

impl Compiler {
    /// Compiles each function of a program, in order, and stops at the
    /// first that fails.
    pub fn generate(syntaxtree: &Root, symbol_prefix: &str) -> (r: Result<Compiler, Failure>)
        ensures
            match r {
                Ok(compiler) => gen_root(syntaxtree.to_model(), 0, symbol_prefix@) == Ok::<
                    Seq<Seq<LineModel>>,
                    Failure,
                >(compiled_lines(compiler.func_compilers@)) && compiler.func_compilers@.len()
                    == syntaxtree.funcs@.len() && forall|i: int|
                    0 <= i < syntaxtree.funcs@.len() ==> (
                    #[trigger] compiler.func_compilers@[i]).symbol() == func_label(
                        symbol_prefix@,
                        syntaxtree.funcs@[i].name@,
                    ),
                Err(failure) => gen_root(syntaxtree.to_model(), 0, symbol_prefix@) == Err::<
                    Seq<Seq<LineModel>>,
                    Failure,
                >(failure),
            },
    {
        let mut func_compilers: Vec<FuncCompiler> = Vec::new();
        let ghost model = syntaxtree.to_model();
        let mut i: usize = 0;
        assert(compiled_lines(func_compilers@) =~= Seq::empty());
        while i < syntaxtree.funcs.len()
            invariant
                i <= syntaxtree.funcs@.len(),
                model == syntaxtree.to_model(),
                func_compilers@.len() == i,
                forall|j: int|
                    0 <= j < i ==> (#[trigger] func_compilers@[j]).symbol() == func_label(
                        symbol_prefix@,
                        syntaxtree.funcs@[j].name@,
                    ),
                match gen_root(model, i as int, symbol_prefix@) {
                    Ok(rest) => gen_root(model, 0, symbol_prefix@) == Ok::<
                        Seq<Seq<LineModel>>,
                        Failure,
                    >(compiled_lines(func_compilers@) + rest),
                    Err(failure) => gen_root(model, 0, symbol_prefix@) == Err::<
                        Seq<Seq<LineModel>>,
                        Failure,
                    >(failure),
                },
            decreases syntaxtree.funcs@.len() - i,
        {
            let ghost before = func_compilers@;
            assert(model.funcs[i as int] == syntaxtree.funcs@[i as int].to_model());
            match FuncCompiler::generate(&syntaxtree.funcs[i], symbol_prefix) {
                Ok(compiler) => {
                    proof {
                        let first = compiler.output();
                        assert(compiled_lines(before.push(compiler)) =~= compiled_lines(
                            before,
                        ).push(first));
                        match gen_root(model, i + 1, symbol_prefix@) {
                            Ok(rest) => {
                                assert(compiled_lines(before) + (seq![first] + rest)
                                    =~= compiled_lines(before).push(first) + rest);
                            },
                            Err(_) => {},
                        }
                    }
                    func_compilers.push(compiler);
                },
                Err(failure) => {
                    return Err(failure);
                },
            }
            i = i + 1;
        }
        assert(compiled_lines(func_compilers@) + Seq::<Seq<LineModel>>::empty() =~= compiled_lines(
            func_compilers@,
        ));
        Ok(Compiler { func_compilers })
    }

    /// Compiles each function of a program, in order, and stops at the
    /// first that fails.
    pub fn compile(syntaxtree: &Root, symbol_prefix: &str) -> (r: Result<Compiler, (Span, String)>)
        requires
            gen_root(syntaxtree.to_model(), 0, symbol_prefix@) != Err::<
                Seq<Seq<LineModel>>,
                Failure,
            >(Failure::Defect),
        ensures
            match r {
                Ok(compiler) => gen_root(syntaxtree.to_model(), 0, symbol_prefix@) == Ok::<
                    Seq<Seq<LineModel>>,
                    Failure,
                >(compiled_lines(compiler.func_compilers@)),
                Err(error) => gen_root(syntaxtree.to_model(), 0, symbol_prefix@) matches Err(
                    failure,
                ) && failure.place() == Some(error.0) && failure.text() == error.1@,
            },
    {
        match Compiler::generate(syntaxtree, symbol_prefix) {
            Ok(compiler) => Ok(compiler),
            Err(failure) => Err(failure.explain()),
        }
    }

    /// The text of the program: each function behind an empty line.
    pub fn assembly_string(&self) -> (r: String)
        ensures
            r@ == program_text(self.func_compilers@),
    {
        let mut text = String::new();
        let mut i: usize = 0;
        assert(self.func_compilers@.subrange(0, 0) =~= Seq::<FuncCompiler>::empty());
        while i < self.func_compilers.len()
            invariant
                i <= self.func_compilers@.len(),
                text@ == program_text(self.func_compilers@.subrange(0, i as int)),
            decreases self.func_compilers@.len() - i,
        {
            let ghost before = self.func_compilers@.subrange(0, i as int);
            let ghost current = self.func_compilers@.subrange(0, i + 1);
            text.push('\n');
            text.push('\n');
            push_text(&mut text, self.func_compilers[i].assembly_string().as_str());
            proof {
                assert(current.drop_last() =~= before);
                assert(current.last() == self.func_compilers@[i as int]);
                assert(program_text(before).push('\n').push('\n') =~= program_text(before) + seq![
                    '\n',
                    '\n',
                ]);
            }
            i = i + 1;
        }
        assert(self.func_compilers@.subrange(0, i as int) =~= self.func_compilers@);
        text
    }
}

} // verus!
