//! Building blocks shared by the stages: a cursor with rollback and the
//! algebra used to merge spans.
pub mod monoid;
pub mod text;
pub mod tryreader;

pub use self::monoid::FreeMonoid;
pub use self::monoid::Monoid;
pub use self::monoid::SemiGroup;
pub use self::tryreader::TryReader;
