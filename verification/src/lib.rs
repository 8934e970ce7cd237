//! Generation of short sign-off messages from a corpus of templates:
//! corpus loading with a fallback, language-indexed random selection,
//! template-variable substitution with sanitization and a fixed
//! substitution order, and emoji detection and stripping.

pub mod corpus;
pub mod datetime;
pub mod emoji;
pub mod error;
pub mod generate;
pub mod options;
pub mod template;
pub mod text;

pub use error::GoodbyeError;
pub use generate::generate_goodbye;
pub use options::CoreGoodbyeOptions;
