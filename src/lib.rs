use vstd::prelude::*;

pub mod ast;
pub mod operator;
pub mod operator_parsers;
pub mod statement;
pub mod statement_parsers;
pub mod term;
pub mod term_parsers;

verus! {

/// The machine's memory: 256 byte cells, each addressed by a byte.
pub type Mem = [u8; 256];

} // verus!
