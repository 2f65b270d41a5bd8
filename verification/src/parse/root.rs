use vstd::prelude::*;
use crate::general::SemiGroup;
use crate::general::TryReader;
use crate::parse::func::Func;
use crate::parse::grammar;
use crate::parse::grammar::{root_span, Expectation, FuncModel, Parsed, RootModel};
use crate::parse::syntaxtree::{skip_line_breaks, SyntaxTree};
use crate::sourcecode::Code;
use crate::sourcecode::Span;
use crate::token::token::token_models;
use crate::token::Token;
use crate::token::TokenModel;

verus! {

/// A program: its functions in the order written.
pub struct Root {
    pub funcs: Vec<Func>,
}

/// The models of a sequence of functions.
pub open spec fn func_models(funcs: Seq<Func>) -> Seq<FuncModel> {
    Seq::new(funcs.len(), |i: int| funcs[i].to_model())
}

impl Root {
    /// The mathematical model of the node.
    pub open spec fn to_model(&self) -> RootModel {
        RootModel { funcs: func_models(self.funcs@) }
    }
}

impl SyntaxTree for Root {
    type Model = RootModel;

    open spec fn model(&self) -> RootModel {
        self.to_model()
    }

    open spec fn grammar(tokens: Seq<Code<TokenModel>>, pos: int) -> Parsed<RootModel> {
        grammar::root(tokens, pos)
    }

    open spec fn span_of(model: RootModel) -> Span {
        root_span(model)
    }

    open spec fn spanned(model: RootModel) -> bool {
        model.funcs.len() > 0
    }

    fn parse(token_reader: &mut TryReader<Code<Token>>) -> (r: Result<
        Root,
        (Option<Span>, String),
    >) {
        let ghost tokens = token_models(token_reader.items());
        let start = token_reader.offset();
        let mut funcs: Vec<Func> = Vec::new();
        assert(func_models(funcs@) =~= Seq::empty());
        assert(grammar::root(tokens, start as int) matches Ok(rest) ==> func_models(funcs@)
            + rest.0.funcs =~= rest.0.funcs);
        while token_reader.has_next()
            invariant
                token_reader.items() == old(token_reader).items(),
                tokens == token_models(token_reader.items()),
                start == old(token_reader).position(),
                start <= token_reader.position() <= token_reader.items().len(),
                match grammar::root(tokens, token_reader.position()) {
                    Ok(rest) => grammar::root(tokens, start as int) matches Ok(all)
                        && all.0.funcs == func_models(funcs@) + rest.0.funcs && start + all.1
                        == token_reader.position() + rest.1,
                    Err(failure) => grammar::root(tokens, start as int) == Err::<
                        (RootModel, nat),
                        (Option<Span>, Expectation),
                    >(failure),
                },
            decreases token_reader.items().len() - token_reader.position(),
        {
            let ghost before = funcs@;
            let ghost at = token_reader.position();
            match Func::parse(token_reader) {
                Ok(func) => {
                    skip_line_breaks(token_reader);
                    proof {
                        let next = token_reader.position();
                        assert(func_models(before.push(func)) =~= func_models(before).push(
                            func.to_model(),
                        ));
                        match grammar::root(tokens, next) {
                            Ok(rest) => {
                                assert(func_models(before) + (seq![func.to_model()]
                                    + rest.0.funcs) =~= func_models(before).push(func.to_model())
                                    + rest.0.funcs);
                            },
                            Err(_) => {},
                        }
                    }
                    funcs.push(func);
                },
                Err(error) => {
                    token_reader.rewind(start);
                    return Err(error);
                },
            }
        }
        proof {
            assert(func_models(funcs@) + Seq::<FuncModel>::empty() =~= func_models(funcs@));
        }
        Ok(Root { funcs })
    }

    fn span(&self) -> (s: Span) {
        let first = self.funcs[0].span();
        let last = self.funcs[self.funcs.len() - 1].span();
        first.plus(&last)
    }
}

} // verus!
