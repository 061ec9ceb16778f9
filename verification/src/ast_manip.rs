//! Helpers for working with syntax.
pub mod ast_equiv;
pub mod get_span;
pub mod util;
