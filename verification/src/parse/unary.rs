use vstd::prelude::*;
use crate::general::SemiGroup;
use crate::general::TryReader;
use crate::parse::add::Add;
use crate::parse::grammar;
use crate::parse::grammar::{unary_span, Parsed, UnaryModel};
use crate::parse::primary::Primary;
use crate::parse::syntaxtree::{take_operator, SyntaxTree};
use crate::sourcecode::Code;
use crate::sourcecode::Span;
use crate::token::Operator;
use crate::token::Token;
use crate::token::TokenModel;

verus! {

/// A primary term with an optional sign. The span covers the sign, where
/// there is one, and the term.
pub enum Unary {
    Positive(Primary, Span),
    Negative(Primary, Span),
}

impl Unary {
    /// The mathematical model of the node.
    pub open spec fn to_model(&self) -> UnaryModel
        decreases self,
    {
        match self {
            Unary::Positive(primary, span) => UnaryModel::Positive(primary.to_model(), *span),
            Unary::Negative(primary, span) => UnaryModel::Negative(primary.to_model(), *span),
        }
    }
}

impl SyntaxTree for Unary {
    type Model = UnaryModel;

    open spec fn model(&self) -> UnaryModel {
        self.to_model()
    }

    open spec fn grammar(tokens: Seq<Code<TokenModel>>, pos: int) -> Parsed<UnaryModel> {
        grammar::unary(tokens, pos)
    }

    open spec fn span_of(model: UnaryModel) -> Span {
        unary_span(model)
    }

    open spec fn spanned(model: UnaryModel) -> bool {
        true
    }

    fn parse(token_reader: &mut TryReader<Code<Token>>) -> (r: Result<
        Unary,
        (Option<Span>, String),
    >)
        ensures
            r is Ok ==> final(token_reader).position() > old(token_reader).position(),
        decreases old(token_reader).items().len() - old(token_reader).position(), 3int,
    {
        let start = token_reader.offset();
        let signs = Add::operators();
        match take_operator(token_reader, &signs) {
            Some(sign) => {
                match Primary::parse(token_reader) {
                    Ok(primary) => {
                        let span = sign.span.plus(&primary.span());
                        if sign.value == Operator::Add {
                            Ok(Unary::Positive(primary, span))
                        } else {
                            Ok(Unary::Negative(primary, span))
                        }
                    },
                    Err(error) => {
                        token_reader.rewind(start);
                        Err(error)
                    },
                }
            },
            None => {
                match Primary::parse(token_reader) {
                    Ok(primary) => {
                        let span = primary.span();
                        Ok(Unary::Positive(primary, span))
                    },
                    Err(error) => Err(error),
                }
            },
        }
    }

    fn span(&self) -> (s: Span) {
        match self {
            Unary::Positive(_, span) => *span,
            Unary::Negative(_, span) => *span,
        }
    }
}

} // verus!
