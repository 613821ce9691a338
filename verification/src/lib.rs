//! A small interactive command interpreter: a line tokenizer that honours
//! quoting and escaping, an executable resolver that scans an ordered search
//! path, a registry of builtin commands, and the decision logic of the
//! read-eval-print loop.  Everything here is pure: reading input, listing
//! directories and launching processes happen outside the library, which is
//! handed their results as plain values.

pub mod builtins;
pub mod repl;
pub mod resolve;
pub mod text;
pub mod tokenize;
