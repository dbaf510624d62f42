use vstd::prelude::*;

use crate::operator::{op_step, EvalError, Operator};
use crate::Mem;

verus! {

broadcast use {
    vstd::std_specs::vec::axiom_vec_index_decreases,
    vstd::std_specs::vec::axiom_vec_decreases_to_view,
};

/// A single instruction, or an ordered block of statements.
#[derive(Debug, PartialEq, Eq)]
pub enum Statement {
    Line(Operator),
    Block(Vec<Statement>),
}

/// Runs `st` on memory `m`: the memory afterwards, and whether every
/// instruction ran. On a division by zero the run stops there, keeping what
/// the instructions before it did.
pub open spec fn run_statement(st: Statement, m: Seq<u8>) -> (Seq<u8>, bool)
    decreases st, 0nat,
{
    match st {
        Statement::Line(op) => match op_step(op, m) {
            Some(m2) => (m2, true),
            None => (m, false),
        },
        Statement::Block(v) => run_block_from(v@, 0, m),
    }
}

/// Runs the statements of `v` from index `i` on, in order, on memory `m`.
pub open spec fn run_block_from(v: Seq<Statement>, i: nat, m: Seq<u8>) -> (Seq<u8>, bool)
    decreases v, v.len() - i,
{
    if i >= v.len() {
        (m, true)
    } else {
        let (m2, ok) = run_statement(v[i as int], m);
        if ok {
            run_block_from(v, i + 1, m2)
        } else {
            (m2, false)
        }
    }
}

impl Statement {
    /// Runs the statement: a line runs its instruction, a block runs its
    /// statements left to right, each seeing what the earlier ones wrote.
    pub fn eval(&self, mem: &mut Mem) -> (r: Result<(), EvalError>)
        ensures
            final(mem)@ == run_statement(*self, old(mem)@).0,
            r is Ok == run_statement(*self, old(mem)@).1,
            r is Err ==> r == Err::<(), EvalError>(EvalError::DivisionByZero),
        decreases self,
    {
        match self {
            Statement::Line(op) => op.eval(mem),
            Statement::Block(statements) => {
                let ghost m0 = mem@;
                let mut i: usize = 0;
                while i < statements.len()
                    invariant
                        0 <= i <= statements.len(),
                        run_block_from(statements@, 0, m0) == run_block_from(statements@, i as nat, mem@),
                        *self == Statement::Block(*statements),
                        decreases_to!(*self => *statements),
                        m0 == old(mem)@,
                    decreases statements.len() - i,
                {
                    let ghost before = mem@;
                    proof {
                        assert(decreases_to!(*statements => statements[i as int]));
                    }
                    let res = statements[i].eval(mem);
                    assert(run_block_from(statements@, i as nat, before) == if res is Ok {
                        run_block_from(statements@, (i + 1) as nat, mem@)
                    } else {
                        (mem@, false)
                    });
                    if res.is_err() {
                        return res;
                    }
                    i = i + 1;
                }
                Ok(())
            },
        }
    }
}

} // verus!
