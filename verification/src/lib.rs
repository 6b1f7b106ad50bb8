//! A DNS master-file (zone file) engine: tokenizer, record parser,
//! validator and serializer, together with the command-line argument
//! schema of the surrounding tool.
//!
//! The pipeline works on raw bytes: `parse` turns zone-file text into a
//! [`model::Zone`], `validate` reports diagnostics over the record set,
//! and `serialize` renders a zone back into canonical text.

pub mod args;
pub mod ascii;
pub mod diag;
pub mod laws;
pub mod lex;
pub mod model;
pub mod num;
pub mod parse;
pub mod serialize;
pub mod validate;

pub use model::Zone;
pub use parse::parse;
pub use serialize::serialize;
pub use validate::validate;
