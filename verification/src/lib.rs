//! Equivalence of schema representations.
//!
//! Two schema fragments can differ as data and still describe the same
//! authorization schema: an empty namespace may be written or left out, an
//! action that applies to nothing may or may not carry an apply spec, a
//! built-in type may be spelled bare or as a reference into `__cedar`, and an
//! annotation without a value means the same as one with an empty value.
//! This crate decides that coarser relation. Every rule has a mathematical
//! statement over the views of the schema types, and each executable check
//! is proved to decide exactly that statement and to give exactly the
//! diagnostic that is stated for it.
//!
//! - [`model`] holds the views and the statements of the rules;
//! - [`schema`] and [`names`] hold the schema types, [`assoc`] the map they
//!   are built on, [`atom`] the values that are compared by strict equality;
//! - [`equiv`] holds the [`equiv::Equiv`] capability and the checks of maps,
//!   sets and annotations, [`type_checks`], [`decl_checks`] and
//!   [`fragment_checks`] those of types, declarations and fragments, and
//!   [`validator`] those of schemas as the validator holds them;
//! - [`laws`] proves what holds of the rules in general: every fragment is
//!   equivalent to itself, equivalence does not depend on the side, an empty
//!   root namespace counts as none, and more;
//! - [`text`] builds diagnostics, and [`hints`] sizes drawn inputs.
pub mod assoc;
pub mod atom;
pub mod decl_checks;
pub mod equiv;
pub mod fragment_checks;
pub mod hints;
pub mod laws;
pub mod model;
pub mod names;
pub mod schema;
pub mod text;
pub mod type_checks;
pub mod validator;
