//! Reconstruction of source-level type expressions and paths from the
//! resolved semantic representation of a program.
//!
//! - [`semantic`]: semantic types and the identifiers of definitions.
//! - [`model`]: the semantic model, which holds what is known of each
//!   definition.
//! - [`ast`], [`items`], [`span`]: the syntax that is produced and worked on.
//! - [`reflect`]: from a semantic type or a definition to the type
//!   expression or path that denotes it, and from the body of an anonymous
//!   constant to an expression.
//! - [`nodes`]: syntax nodes by identifier, and whether a node denotes
//!   something that has a path.
//! - [`resolve`], [`subst`], [`laws`]: what is proved of reflection.
//! - [`ast_manip`]: helpers for working with syntax.
pub mod ast;
pub mod ast_manip;
pub mod items;
pub mod laws;
pub mod model;
pub mod nodes;
pub mod reflect;
pub mod resolve;
pub mod semantic;
pub mod span;
pub mod subst;
