//! The lexer: tokens, the dictionary of symbols and `tokenize`.
pub mod order;
pub mod token;
pub mod tokenize;

pub use self::token::Bracket;
pub use self::token::BracketSide;
pub use self::token::Dictionary;
pub use self::token::Operator;
pub use self::token::ReservedWord;
pub use self::token::Token;
pub use self::token::TokenModel;
pub use self::tokenize::tokenize;
