//! The parser: the syntax tree, the grammar it is read by, and one `parse`
//! for each kind of node.
pub mod add;
pub mod binary_operation;
pub mod equality;
pub mod expression;
pub mod func;
pub mod grammar;
pub mod multiply;
pub mod nesting;
pub mod parser;
pub mod primary;
pub mod relational;
pub mod root;
pub mod statement;
pub mod syntaxtree;
pub mod unary;

pub use self::add::Add;
pub use self::binary_operation::BinaryOperation;
pub use self::equality::Equality;
pub use self::expression::BlockExpression;
pub use self::expression::Expression;
pub use self::expression::IfExpression;
pub use self::expression::PureExpression;
pub use self::func::Func;
pub use self::multiply::Multiply;
pub use self::primary::FnCall;
pub use self::primary::Primary;
pub use self::relational::Relational;
pub use self::root::Root;
pub use self::statement::Assignment;
pub use self::statement::Return;
pub use self::statement::Statement;
pub use self::syntaxtree::SyntaxTree;
pub use self::unary::Unary;
