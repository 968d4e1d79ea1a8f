//! An interpreter for the eight-symbol tape language: a tokenizer that turns
//! source text into instructions, a loop-boundary resolver that pairs the loop
//! delimiters once before a run, and a machine that executes the instructions
//! one step at a time on a fixed-size byte tape.
pub mod instruction;
pub mod jumps;
pub mod machine;
pub mod run;
pub mod tokenizer;
