//! The front end of an assembler: the parser of macro definitions, and the
//! directive pass that finds a unit's base address, lays the unit out, binds
//! its labels to addresses and strips them from the token stream.

pub mod diag;
pub mod directive_proc;
pub mod labels;
pub mod layout_lemmas;
pub mod lexer;
pub mod macro_lemmas;
pub mod parser;
pub mod text;
pub mod token;
