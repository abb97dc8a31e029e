//! The procedural macros of a macro workshop, as verified functions on a
//! model of token trees: `seq!` repeats a body over a range of counter values,
//! `#[derive(Builder)]` plans a builder for a struct and
//! `#[derive(CustomDebug)]` plans a `Debug` impl.
pub mod tokens;
pub mod decimal;
pub mod syn_calls;
pub mod source_text;
pub mod lexing;
pub mod expand;
pub mod seq_macro;
pub mod seq_laws;
pub mod derive_input;
pub mod builder;
pub mod debug;
pub mod procs;
