//! The code generator: assembly lines, the frame of a function and the
//! compiler from the syntax tree to lines.
pub mod add;
pub mod alignment;
pub mod assembly;
pub mod call_alignment;
pub mod codegen;
pub mod compile;
pub mod compiler;
pub mod equality;
pub mod expressions;
pub mod lines;
pub mod multiply;
pub mod relational;
pub mod scope;
pub mod terms;

pub use self::assembly::Address;
pub use self::assembly::Instruction;
pub use self::assembly::Label;
pub use self::assembly::Line;
pub use self::assembly::Readable;
pub use self::assembly::Register;
pub use self::assembly::Writable;
pub use self::codegen::Failure;
pub use self::compile::compile;
pub use self::compiler::Compiler;
pub use self::compiler::FuncCompiler;
pub use self::scope::Scope;
