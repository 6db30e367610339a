//! A single-pass compiler for PL/0' and the stack machine that runs its output.
//!
//! PL/0' is PL/0 with functions that take value parameters and return a
//! result.  The source text is read once; code for the virtual machine is
//! emitted while the text is recognised, and forward jumps are patched when
//! their target is known.
//!
//! The parts of the crate:
//!
//! - [`table`]: the name table, with the level and the offset of every name;
//! - [`codegen`]: the code buffer and the primitives that append to it;
//! - [`get_source`]: the tokenizer, the record of diagnostics and the checked
//!   step over a token;
//! - [`compile`]: the productions of the grammar, which emit the code;
//! - [`machine`]: the virtual machine;
//! - [`syntax`]: the model of the productions;
//! - [`progress`]: what every production keeps to;
//! - [`fault`]: the conditions that end compilation.
//!
//! Every type with a state has a model, its view, and every operation is
//! specified as a function on the model.  Nothing is printed and nothing is
//! read from a file here: the compiler takes the text and hands back the code
//! and the diagnostics, the machine collects what the program writes.

pub mod fault;
pub mod table;
pub mod codegen;
pub mod get_source;
pub mod machine;
pub mod syntax;
pub mod progress;
pub mod compile;
