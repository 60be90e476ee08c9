//! Inline SurrealQL: rebuilds query text from lexical tokens, captures bound
//! variables, checks the text with the SurrealQL parser and binds values.

pub mod token;
pub mod reconstruct;
pub mod capture;
pub mod pass;
pub mod registry;
pub mod query;
pub mod vars;

pub use query::{Diagnostic, Expansion, expand, sql};
pub use vars::Vars;
