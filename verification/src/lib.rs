//! Mines the documentation and the ordinary comments of function definitions.
//!
//! Given the text of a source file, its syntax tree and a line number, the library
//! finds the function-like construct that contains the line ([`locator`]), reads the
//! documentation attached to it ([`docs`]), and scans the text for the ordinary
//! comments above it and inside it ([`lexer`]). [`record`] puts the three together;
//! [`intake`] reads what an input record asks for, and [`batch`] holds the results of
//! one package until they are written out. What the scan and the search guarantee
//! beyond their contracts is proved in [`scan_proofs`] and [`locate_proofs`].

pub mod batch;
pub mod docs;
pub mod intake;
pub mod lexer;
pub mod locate_proofs;
pub mod locator;
pub mod record;
pub mod scan_proofs;
pub mod syntax;
pub mod text;
