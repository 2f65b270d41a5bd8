//! Source locations: positions, spans and values tagged with a span.
pub mod position;
pub mod span;

pub use self::position::Position;
pub use self::span::Code;
pub use self::span::Span;
