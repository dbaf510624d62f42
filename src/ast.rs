use vstd::prelude::*;

use crate::term::Terminal;

verus! {

/// A generic syntax tree: a leaf operand, or a named node with children.
pub enum AstNode {
    Terminal(Terminal),
    NonTerminal(String, Vec<AstNode>),
}

} // verus!
