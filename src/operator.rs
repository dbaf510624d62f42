use vstd::prelude::*;

use crate::term::{ref_addr, ref_value, term_value, Ref, Terminal};
use crate::Mem;

verus! {

/// One instruction: a destination reference and a source operand.
#[derive(Debug, PartialEq, Eq, Structural, Clone, Copy)]
pub enum Operator {
    Add(Ref, Terminal),
    Sub(Ref, Terminal),
    Mul(Ref, Terminal),
    Div(Ref, Terminal),
    Mov(Ref, Terminal),
}

/// Why an instruction could not be carried out.
#[derive(Debug, PartialEq, Eq, Structural, Clone, Copy)]
pub enum EvalError {
    /// A `Div` whose source read 0; memory is left as it was before it.
    DivisionByZero,
}

/// The destination of an instruction.
pub open spec fn op_dest(op: Operator) -> Ref {
    match op {
        Operator::Add(r, _) => r,
        Operator::Sub(r, _) => r,
        Operator::Mul(r, _) => r,
        Operator::Div(r, _) => r,
        Operator::Mov(r, _) => r,
    }
}

/// The source operand of an instruction.
pub open spec fn op_source(op: Operator) -> Terminal {
    match op {
        Operator::Add(_, t) => t,
        Operator::Sub(_, t) => t,
        Operator::Mul(_, t) => t,
        Operator::Div(_, t) => t,
        Operator::Mov(_, t) => t,
    }
}

/// The byte an instruction stores, given the destination's value `d` and the
/// source's value `s`; `None` for a division by zero.
pub open spec fn op_result(op: Operator, d: u8, s: u8) -> Option<u8> {
    match op {
        Operator::Add(_, _) => Some(((d + s) % 256) as u8),
        Operator::Sub(_, _) => Some(((d - s + 256) % 256) as u8),
        Operator::Mul(_, _) => Some(((d * s) % 256) as u8),
        Operator::Div(_, _) => if s == 0 { None } else { Some((d / s) as u8) },
        Operator::Mov(_, _) => Some(s),
    }
}

/// Memory after running `op` on `m`; `None` for a division by zero.
pub open spec fn op_step(op: Operator, m: Seq<u8>) -> Option<Seq<u8>> {
    match op_result(op, ref_value(op_dest(op), m), term_value(op_source(op), m)) {
        Some(v) => Some(m.update(ref_addr(op_dest(op), m), v)),
        None => None,
    }
}

impl Operator {
    /// Reads the destination, then the source, computes, and writes the
    /// result back through the destination.
    pub fn eval(&self, mem: &mut Mem) -> (r: Result<(), EvalError>)
        ensures
            match op_step(*self, old(mem)@) {
                Some(m) => r is Ok && final(mem)@ == m,
                None => r == Err::<(), EvalError>(EvalError::DivisionByZero) && final(mem)@ == old(mem)@,
            },
    {
        match self {
            Operator::Add(dst, src) => {
                let result = dst.eval(mem).wrapping_add(src.eval(mem));
                dst.write(mem, result);
            },
            Operator::Sub(dst, src) => {
                let result = dst.eval(mem).wrapping_sub(src.eval(mem));
                dst.write(mem, result);
            },
            Operator::Mul(dst, src) => {
                let result = dst.eval(mem).wrapping_mul(src.eval(mem));
                dst.write(mem, result);
            },
            Operator::Div(dst, src) => {
                let dividend = dst.eval(mem);
                let divisor = src.eval(mem);
                if divisor == 0 {
                    return Err(EvalError::DivisionByZero);
                }
                dst.write(mem, dividend / divisor);
            },
            Operator::Mov(dst, src) => {
                let result = src.eval(mem);
                dst.write(mem, result);
            },
        }
        Ok(())
    }
}

/// Add, Sub and Mul store the destination's value combined with the source's
/// value modulo 256, and change no other cell.
pub proof fn lemma_wraparound(op: Operator, m: Seq<u8>)
    requires
        m.len() == 256,
        !(op is Div) && !(op is Mov),
    ensures
        ({
            let d = ref_value(op_dest(op), m) as int;
            let s = term_value(op_source(op), m) as int;
            let v = match op {
                Operator::Add(_, _) => (d + s) % 256,
                Operator::Sub(_, _) => (d - s) % 256,
                _ => (d * s) % 256,
            };
            &&& op_step(op, m) is Some
            &&& op_step(op, m)->0[ref_addr(op_dest(op), m)] == v
            &&& forall|i: int| 0 <= i < 256 && i != ref_addr(op_dest(op), m)
                ==> op_step(op, m)->0[i] == m[i]
        }),
{
    let d = ref_value(op_dest(op), m) as int;
    let s = term_value(op_source(op), m) as int;
    assert((d - s + 256) % 256 == (d - s) % 256) by (nonlinear_arith);
}

} // verus!
