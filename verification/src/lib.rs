//! A compiler for a minimal expression-and-function language that emits
//! Intel-syntax x86-64 assembly.
//!
//! The pipeline is `token::tokenize` (source text to spanned tokens),
//! `parse::Root::parse` (tokens to a span-annotated syntax tree) and
//! `compile::Compiler::compile` (syntax tree to assembly lines). Every stage
//! is a pure function whose result is stated by a specification function over
//! mathematical models of its input: `token::tokenize::tokens_of` for the
//! lexer, the rules of `parse::grammar` for the parser, and the functions of
//! `compile::codegen` for the code generator.
//!
//! Beside the contracts of the functions, the library proves what holds of
//! every program:
//! - merging spans is idempotent, commutative and associative
//!   (`sourcecode::span`);
//! - the tokens of a text are in order, and the span of an identifier covers
//!   just its name (`token::order`);
//! - in the tree read from a text, a parent's span contains every child's
//!   (`parse::nesting`);
//! - a block shadows the names of the blocks around it, and only while it is
//!   open (`compile::scope`);
//! - the compiler's count of the bytes pushed follows the lines it emits,
//!   and every call is made with a multiple of 16 bytes pushed
//!   (`compile::call_alignment`).
pub mod sourcecode;
pub mod general;
pub mod token;
pub mod parse;
pub mod compile;
