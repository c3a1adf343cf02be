//! Compiler-style diagnostics for end users: a severity, a title, a message, a help
//! hint, and blocks of source context with aligned line numbers and underlined spans.
//! Diagnostics can be gathered into a collection that ends its report with a count
//! of errors, warnings and informational messages.
pub mod colour;
pub mod context;
pub mod error;
pub mod errors;
pub mod text;

pub use context::{Context, ContextView, Highlight, HighlightView};
pub use error::{CustomError, CustomErrorFnUnwrap, CustomErrorUnwrap, ErrorLevel, ErrorView};
pub use errors::CustomErrors;
