use vstd::prelude::*;
use crate::compile::assembly::{line_models, Line, LineModel};
use crate::compile::codegen::{gen_root, Failure};
use crate::compile::compiler::Compiler;
use crate::compile::lines::{append, no_lines};
use crate::parse::root::Root;
use crate::sourcecode::Span;

verus! {

/// The lines of the functions, one function after another.
pub open spec fn all_lines(functions: Seq<Seq<LineModel>>) -> Seq<LineModel>
    decreases functions.len(),
{
    if functions.len() == 0 {
        Seq::empty()
    } else {
        all_lines(functions.drop_last()) + functions.last()
    }
}

/// Compiles a program to the lines of its functions, one function after
/// another. `symbol_prefix` is put in front of the name of every function
/// to make its symbol.
pub fn compile(syntaxtree: &Root, symbol_prefix: &str) -> (r: Result<Vec<Line>, (Span, String)>)
    requires
        gen_root(syntaxtree.to_model(), 0, symbol_prefix@) != Err::<Seq<Seq<LineModel>>, Failure>(
            Failure::Defect,
        ),
    ensures
        match r {
            Ok(lines) => gen_root(syntaxtree.to_model(), 0, symbol_prefix@) matches Ok(functions)
                && line_models(lines@) == all_lines(functions),
            Err(error) => gen_root(syntaxtree.to_model(), 0, symbol_prefix@) matches Err(failure)
                && failure.place() == Some(error.0) && failure.text() == error.1@,
        },
{
    let compiler = match Compiler::compile(syntaxtree, symbol_prefix) {
        Ok(compiler) => compiler,
        Err(error) => {
            return Err(error);
        },
    };
    let ghost functions = gen_root(syntaxtree.to_model(), 0, symbol_prefix@).unwrap();
    let mut lines = no_lines();
    let mut i: usize = 0;
    assert(functions.subrange(0, 0) =~= Seq::<Seq<LineModel>>::empty());
    while i < compiler.func_compilers.len()
        invariant
            i <= compiler.func_compilers@.len(),
            functions == crate::compile::compiler::compiled_lines(compiler.func_compilers@),
            line_models(lines@) == all_lines(functions.subrange(0, i as int)),
        decreases compiler.func_compilers@.len() - i,
    {
        let ghost before = functions.subrange(0, i as int);
        let ghost current = functions.subrange(0, i + 1);
        let function = compiler.func_compilers[i].lines();
        let mut copy = no_lines();
        let mut j: usize = 0;
        assert(line_models(function@).subrange(0, 0) =~= Seq::<LineModel>::empty());
        while j < function.len()
            invariant
                j <= function@.len(),
                line_models(copy@) == line_models(function@).subrange(0, j as int),
            decreases function@.len() - j,
        {
            let ghost copied = line_models(copy@);
            let line = function[j].duplicate();
            proof {
                crate::compile::assembly::lemma_line_models_push(copy@, line);
                assert(line_models(function@).subrange(0, j + 1) =~= copied.push(line@));
            }
            copy.push(line);
            j = j + 1;
        }
        assert(line_models(function@).subrange(0, j as int) =~= line_models(function@));
        proof {
            assert(current.drop_last() =~= before);
            assert(current.last() == functions[i as int]);
        }
        append(&mut lines, copy);
        i = i + 1;
    }
    assert(functions.subrange(0, i as int) =~= functions);
    Ok(lines)
}

} // verus!
