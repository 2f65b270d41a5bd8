use vstd::prelude::*;
use crate::general::SemiGroup;
use crate::general::TryReader;
use crate::parse::grammar::{operator_at, remaining, Parsed};
use crate::parse::syntaxtree::{take_operator, SyntaxTree};
use crate::sourcecode::Code;
use crate::sourcecode::Span;
use crate::token::token::token_models;
use crate::token::Operator;
use crate::token::Token;
use crate::token::TokenModel;

verus! {

/// A chain of elements joined by binary operators, nested to the right: the
/// first element, then the operator and the chain that follows it.
pub enum BinaryOperation<Element> {
    Single(Element),
    Binary { operator: Code<Operator>, left: Element, right: Box<BinaryOperation<Element>> },
}

impl<Element> BinaryOperation<Element> {
    /// The first element of the chain.
    pub open spec fn first(self) -> Element {
        match self {
            BinaryOperation::Single(element) => element,
            BinaryOperation::Binary { operator, left, right } => left,
        }
    }

    /// The operators of the chain in order, each with the element that
    /// follows it.
    pub open spec fn rest(self) -> Seq<(Code<Operator>, Element)>
        decreases self,
    {
        match self {
            BinaryOperation::Single(element) => Seq::empty(),
            BinaryOperation::Binary { operator, left, right } => seq![(operator, (*right).first())]
                + (*right).rest(),
        }
    }

    /// The first element of the chain.
    pub fn head(&self) -> (r: &Element)
        ensures
            *r == self.first(),
    {
        match self {
            BinaryOperation::Single(element) => element,
            BinaryOperation::Binary { operator, left, right } => left,
        }
    }

    /// The operators of the chain in order, each with the element that
    /// follows it.
    pub fn tail(&self) -> (r: Vec<(&Code<Operator>, &Element)>)
        ensures
            r@.len() == self.rest().len(),
            forall|i: int|
                0 <= i < r@.len() ==> *(#[trigger] r@[i]).0 == self.rest()[i].0 && *r@[i].1
                    == self.rest()[i].1,
    {
        let mut tail: Vec<(&Code<Operator>, &Element)> = Vec::new();
        let mut node = self;
        let mut open = true;
        let ghost mut done: Seq<(Code<Operator>, Element)> = Seq::empty();
        assert(done + node.rest() =~= self.rest());
        while open
            invariant
                tail@.len() == done.len(),
                forall|i: int|
                    0 <= i < tail@.len() ==> *(#[trigger] tail@[i]).0 == done[i].0 && *tail@[i].1
                        == done[i].1,
                open ==> self.rest() == done + node.rest(),
                !open ==> self.rest() == done,
            decreases node.rest().len() + (if open { 1int } else { 0int }),
        {
            match node {
                BinaryOperation::Binary { operator, left, right } => {
                    let element = right.head();
                    tail.push((operator, element));
                    proof {
                        let pair = (*operator, *element);
                        assert(done + node.rest() =~= done.push(pair) + (**right).rest());
                        done = done.push(pair);
                    }
                    node = &**right;
                },
                BinaryOperation::Single(_) => {
                    open = false;
                    assert(done + node.rest() =~= done);
                },
            }
        }
        tail
    }
}

impl<Element: SyntaxTree> BinaryOperation<Element> {
    /// The chain of the models of the elements.
    pub open spec fn model(self) -> BinaryOperation<Element::Model>
        decreases self,
    {
        match self {
            BinaryOperation::Single(element) => BinaryOperation::Single(element.model()),
            BinaryOperation::Binary { operator, left, right } => BinaryOperation::Binary {
                operator,
                left: left.model(),
                right: Box::new((*right).model()),
            },
        }
    }

    /// chain := element ( operator element )*  for the operators of
    /// `operators`
    pub open spec fn grammar(tokens: Seq<Code<TokenModel>>, pos: int, operators: Seq<Operator>)
        -> Parsed<BinaryOperation<Element::Model>>
        decreases remaining(tokens, pos),
    {
        match Element::grammar(tokens, pos) {
            Err(error) => Err(error),
            Ok((left, used)) => match operator_at(tokens, pos + used, operators) {
                None => Ok((BinaryOperation::Single(left), used)),
                Some(operator) => match Self::grammar(tokens, pos + used + 1, operators) {
                    Err(error) => Err(error),
                    Ok((right, more)) => Ok(
                        (
                            BinaryOperation::Binary { operator, left, right: Box::new(right) },
                            used + 1 + more,
                        ),
                    ),
                },
            },
        }
    }

    /// The span of a chain: from its first element to its last.
    pub open spec fn span_of(model: BinaryOperation<Element::Model>) -> Span
        decreases model,
    {
        match model {
            BinaryOperation::Single(element) => Element::span_of(element),
            BinaryOperation::Binary { operator, left, right } => Element::span_of(left).merge(
                Self::span_of(*right),
            ),
        }
    }

    /// Tells whether every element of the chain has a span.
    pub open spec fn spanned(model: BinaryOperation<Element::Model>) -> bool
        decreases model,
    {
        match model {
            BinaryOperation::Single(element) => Element::spanned(element),
            BinaryOperation::Binary { operator, left, right } => Element::spanned(left)
                && Self::spanned(*right),
        }
    }

    /// Reads a chain: one element, and then, as long as an operator of
    /// `operators` follows, the operator and another element. On failure
    /// the cursor stands where it stood before.
    pub fn parse(token_reader: &mut TryReader<Code<Token>>, operators: &Vec<Operator>) -> (r:
        Result<Self, (Option<Span>, String)>)
        ensures
            final(token_reader).items() == old(token_reader).items(),
            0 <= old(token_reader).position() <= final(token_reader).position(),
            final(token_reader).position() <= old(token_reader).items().len(),
            r is Err ==> final(token_reader).position() == old(token_reader).position(),
            match r {
                Ok(tree) => Self::grammar(
                    token_models(old(token_reader).items()),
                    old(token_reader).position(),
                    operators@,
                ) matches Ok(done) && done.0 == tree.model() && old(token_reader).position()
                    + done.1 == final(token_reader).position(),
                Err(error) => Self::grammar(
                    token_models(old(token_reader).items()),
                    old(token_reader).position(),
                    operators@,
                ) matches Err(failure) && failure.0 == error.0 && failure.1.text() == error.1@,
            },
        decreases old(token_reader).items().len() - old(token_reader).position(),
    {
        let start = token_reader.offset();
        let left = match Element::parse(token_reader) {
            Ok(element) => element,
            Err(error) => {
                return Err(error);
            },
        };
        match take_operator(token_reader, operators) {
            None => Ok(BinaryOperation::Single(left)),
            Some(operator) => {
                match Self::parse(token_reader, operators) {
                    Ok(right) => Ok(
                        BinaryOperation::Binary { operator, left, right: Box::new(right) },
                    ),
                    Err(error) => {
                        token_reader.rewind(start);
                        Err(error)
                    },
                }
            },
        }
    }

    /// The span of source text that the chain covers.
    pub fn span(&self) -> (s: Span)
        requires
            Self::spanned(self.model()),
        ensures
            s == Self::span_of(self.model()),
        decreases self,
    {
        match self {
            BinaryOperation::Single(element) => element.span(),
            BinaryOperation::Binary { operator, left, right } => left.span().plus(&right.span()),
        }
    }
}

} // verus!
