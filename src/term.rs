use vstd::prelude::*;

use crate::Mem;

verus! {

/// An operand that yields a byte: a literal value, or a memory reference.
#[derive(Debug, PartialEq, Eq, Structural, Clone, Copy)]
pub enum Terminal {
    Ref(Ref),
    Immediate(u8),
}

/// A memory reference: `DirectRef(a)` names cell `a`, `IndirectRef(a)` names
/// the cell whose address is stored in cell `a`.
#[derive(Debug, PartialEq, Eq, Structural, Clone, Copy)]
pub enum Ref {
    DirectRef(u8),
    IndirectRef(u8),
}

/// The address of the cell that `r` names in memory `m`.
pub open spec fn ref_addr(r: Ref, m: Seq<u8>) -> int {
    match r {
        Ref::DirectRef(a) => a as int,
        Ref::IndirectRef(a) => m[a as int] as int,
    }
}

/// The byte that `r` reads in memory `m`.
pub open spec fn ref_value(r: Ref, m: Seq<u8>) -> u8 {
    m[ref_addr(r, m)]
}

/// The byte that `t` reads in memory `m`.
pub open spec fn term_value(t: Terminal, m: Seq<u8>) -> u8 {
    match t {
        Terminal::Ref(r) => ref_value(r, m),
        Terminal::Immediate(v) => v,
    }
}

impl Ref {
    /// Stores `val` in the cell this reference names; no other cell changes.
    pub fn write(&self, mem: &mut Mem, val: u8)
        ensures
            final(mem)@ == old(mem)@.update(ref_addr(*self, old(mem)@), val),
    {
        match self {
            Ref::DirectRef(adr) => {
                mem[*adr as usize] = val;
            },
            Ref::IndirectRef(adr) => {
                let target = mem[*adr as usize];
                mem[target as usize] = val;
            },
        }
    }

    /// Reads the cell this reference names.
    pub fn eval(&self, mem: &Mem) -> (r: u8)
        ensures
            r == ref_value(*self, mem@),
    {
        match self {
            Ref::DirectRef(adr) => mem[*adr as usize],
            Ref::IndirectRef(adr) => mem[mem[*adr as usize] as usize],
        }
    }
}

impl Terminal {
    /// A direct reference to cell `adr`, as an operand.
    pub fn new_d_ref(adr: u8) -> (r: Self)
        ensures
            r == Terminal::Ref(Ref::DirectRef(adr)),
    {
        Terminal::Ref(Ref::DirectRef(adr))
    }

    /// An indirect reference through cell `adr`, as an operand.
    pub fn new_id_ref(adr: u8) -> (r: Self)
        ensures
            r == Terminal::Ref(Ref::IndirectRef(adr)),
    {
        Terminal::Ref(Ref::IndirectRef(adr))
    }

    /// The literal `val`, as an operand.
    pub fn new_immediate(val: u8) -> (r: Self)
        ensures
            r == Terminal::Immediate(val),
    {
        Terminal::Immediate(val)
    }

    /// The operand's value: the literal itself, or the referenced cell.
    pub fn eval(&self, mem: &Mem) -> (r: u8)
        ensures
            r == term_value(*self, mem@),
    {
        match self {
            Terminal::Ref(r) => r.eval(mem),
            Terminal::Immediate(val) => *val,
        }
    }
}

} // verus!
