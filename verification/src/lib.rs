//! A reader of C++ headers: it takes the text of a header and gives its
//! structure, the types, functions, variables, classes and namespaces that
//! the header declares, without a preprocessor and without a compiler.
//!
//! Every rule of the grammar is stated twice. A specification function says
//! what stands at a position of a text and where it ends, as a mathematical
//! value; an executable function reads it, and is proved to read what the
//! specification function says. `text` holds the texts, the positions and
//! the outcomes of rules, `parser::cpp` the plain dialect with its types,
//! `parser::generic` the rules that all dialects share, and `parser::ue` the
//! dialect of the reflection macros.
//!
//! A text that is not met by the rules gives a failure, never a panic: the
//! failure tells where the rule gave up, what it wanted there, and in which
//! classes and namespaces that place lies. What stands in another thing of
//! its kind is read `text::NESTING` deep and no deeper.

pub mod parser;
pub mod text;
pub mod types;
