//! Compiles a small SQL `SELECT` dialect, checked against a table schema, into a typed record
//! and a query function that maps result rows into it by position.
//!
//! Everything is a pure function of in-memory text: [`token`] splits source text into tokens,
//! [`schema`] and [`sql`] parse them with the building blocks of [`parse`], [`display`] prints a
//! query back as SQL, [`resolve`] expands `SELECT *` against the schema, and [`generate`] emits
//! the record and its query function. Failures are values of [`error`]. [`laws`] states what
//! holds of the parts together; [`roundtrip`] holds the proof that a printed query reads back
//! as itself.

pub mod display;
pub mod error;
pub mod generate;
pub mod laws;
pub mod parse;
pub mod resolve;
pub mod roundtrip;
pub mod schema;
pub mod sql;
pub mod text;
pub mod token;
