use vstd::prelude::*;

use crate::operator::{EvalError, Operator};
use crate::operator_parsers::{
    all_space, fold_case, is_space, lemma_operator_append, operator, operators, parse_block,
    parse_operator, parse_operator_map, skip_space, starts_with_no_case, tag_of, OperatorEnum,
};
use crate::statement::{run_block_from, Statement};
use crate::term_parsers::{agrees, ParseError};
use crate::Mem;

verus! {

/// One instruction, as a line.
pub open spec fn parse_statement(s: Seq<char>) -> Result<(Seq<char>, Statement), Seq<char>> {
    match parse_operator(s) {
        Ok((rest, op)) => Ok((rest, Statement::Line(op))),
        Err(e) => Err(e),
    }
}

/// The statements of a block made of the instructions `ops`.
pub open spec fn lines_of(ops: Seq<Operator>) -> Seq<Statement> {
    Seq::new(ops.len(), |i: int| Statement::Line(ops[i]))
}

/// Why a program did not run to its end.
#[derive(Debug, PartialEq, Eq, Structural, Clone, Copy)]
pub enum ProgramError {
    /// The text is not a block of instructions followed by nothing else.
    Parse(ParseError),
    /// An instruction failed; the ones before it have run.
    Eval(EvalError),
}

/// Reads one instruction, as a `Statement::Line`.
pub fn statement(input: &str) -> (r: Result<(&str, Statement), ParseError>)
    ensures
        agrees(r, parse_statement(input@)),
{
    match operator(input) {
        Ok((out, op)) => Ok((out, Statement::Line(op))),
        Err(e) => Err(e),
    }
}

/// Reads one or more instructions into a `Statement::Block`, keeping their
/// order, and stops before the first text that is not an instruction.
pub fn block(input: &str) -> (r: Result<(&str, Statement), ParseError>)
    ensures
        match parse_block(input@) {
            Ok((rest, ops)) => r is Ok && r->Ok_0.0@ == rest && r->Ok_0.1 is Block
                && r->Ok_0.1->Block_0@ == lines_of(ops),
            Err(e) => r is Err && r->Err_0.remaining == e.len(),
        },
{
    let (rest, ops) = match operators(input) {
        Ok(x) => x,
        Err(e) => {
            return Err(e);
        },
    };
    let mut lines: Vec<Statement> = Vec::new();
    let mut i: usize = 0;
    while i < ops.len()
        invariant
            i <= ops.len(),
            lines@ == lines_of(ops@.take(i as int)),
        decreases ops.len() - i,
    {
        lines.push(Statement::Line(ops[i]));
        assert(lines@ =~= lines_of(ops@.take(i + 1)));
        i = i + 1;
    }
    assert(ops@.take(ops.len() as int) =~= ops@);
    Ok((rest, Statement::Block(lines)))
}

/// Parses `input` as a block of instructions with nothing after it, and only
/// then runs it on `mem`. Text that does not parse leaves `mem` untouched.
pub fn run_program(input: &str, mem: &mut Mem) -> (r: Result<(), ProgramError>)
    ensures
        match parse_block(input@) {
            Ok((rest, ops)) => if rest.len() == 0 {
                &&& final(mem)@ == run_block_from(lines_of(ops), 0, old(mem)@).0
                &&& r is Ok == run_block_from(lines_of(ops), 0, old(mem)@).1
                &&& r is Err ==> r == Err::<(), ProgramError>(ProgramError::Eval(EvalError::DivisionByZero))
            } else {
                &&& r == Err::<(), ProgramError>(ProgramError::Parse(ParseError { remaining: rest.len() as usize }))
                &&& final(mem)@ == old(mem)@
            },
            Err(e) => {
                &&& r == Err::<(), ProgramError>(ProgramError::Parse(ParseError { remaining: e.len() as usize }))
                &&& final(mem)@ == old(mem)@
            },
        },
{
    let (rest, program) = match block(input) {
        Ok(x) => x,
        Err(e) => {
            return Err(ProgramError::Parse(e));
        },
    };
    let left = rest.unicode_len();
    if left != 0 {
        return Err(ProgramError::Parse(ParseError { remaining: left }));
    }
    match program.eval(mem) {
        Ok(()) => Ok(()),
        Err(e) => Err(ProgramError::Eval(e)),
    }
}

pub open spec fn is_ascii_letter(c: char) -> bool {
    ('a' <= c && c <= 'z') || ('A' <= c && c <= 'Z')
}

/// White space in front of `x` is skipped with the rest.
proof fn lemma_skip_space_prefix(w: Seq<char>, x: Seq<char>)
    requires
        forall|k: int| 0 <= k < w.len() ==> is_space(#[trigger] w[k]),
    ensures
        skip_space(w + x) == skip_space(x),
    decreases w.len(),
{
    if w.len() > 0 {
        assert((w + x).drop_first() =~= w.drop_first() + x);
        lemma_skip_space_prefix(w.drop_first(), x);
    } else {
        assert(w + x =~= x);
    }
}

/// Each mnemonic's parser treats `w + m + r` as it treats `m2 + r`.
proof fn lemma_operator_map_case(op: OperatorEnum, w: Seq<char>, m: Seq<char>, m2: Seq<char>, r: Seq<char>)
    requires
        forall|k: int| 0 <= k < w.len() ==> is_space(#[trigger] w[k]),
        m.len() == 3,
        m2.len() == 3,
        forall|k: int| 0 <= k < 3 ==> is_ascii_letter(#[trigger] m[k]) && fold_case(m[k]) == fold_case(m2[k]),
    ensures
        ({
            let a = parse_operator_map(op, w + m + r);
            let b = parse_operator_map(op, m2 + r);
            &&& a is Ok == b is Ok
            &&& a is Ok ==> a == b
            &&& a is Err ==> a->Err_0.len() == b->Err_0.len()
        }),
{
    let t1 = m + r;
    let t2 = m2 + r;
    assert(w + m + r =~= w + t1);
    lemma_skip_space_prefix(w, t1);
    assert(is_ascii_letter(m[0]));
    assert(!is_space(t1[0]));
    assert(!is_space(t2[0]));
    assert(skip_space(t1) == t1);
    assert(skip_space(t2) == t2);
    assert(forall|k: int| 0 <= k < 3 ==> fold_case(#[trigger] t1[k]) == fold_case(t2[k]));
    assert(tag_of(op).len() == 3);
    assert(starts_with_no_case(t1, tag_of(op)) == starts_with_no_case(t2, tag_of(op)));
    assert(t1.skip(3) =~= r);
    assert(t2.skip(3) =~= r);
}

/// Mnemonics are read without regard to case, and white space in front of
/// an instruction changes nothing: with `w` white space and `m`, `m2` the same
/// three letters in any mix of case, `w + m + r` parses as an instruction
/// exactly when `m2 + r` does, to the same statement and the same rest.
pub proof fn lemma_case_and_leading_space(w: Seq<char>, m: Seq<char>, m2: Seq<char>, r: Seq<char>)
    requires
        forall|k: int| 0 <= k < w.len() ==> is_space(#[trigger] w[k]),
        m.len() == 3,
        m2.len() == 3,
        forall|k: int| 0 <= k < 3 ==> is_ascii_letter(#[trigger] m[k]) && fold_case(m[k]) == fold_case(m2[k]),
    ensures
        parse_statement(w + m + r) is Ok == parse_statement(m2 + r) is Ok,
        parse_statement(w + m + r) is Ok ==> parse_statement(w + m + r) == parse_statement(m2 + r),
{
    lemma_operator_map_case(OperatorEnum::Add, w, m, m2, r);
    lemma_operator_map_case(OperatorEnum::Sub, w, m, m2, r);
    lemma_operator_map_case(OperatorEnum::Mul, w, m, m2, r);
    lemma_operator_map_case(OperatorEnum::Div, w, m, m2, r);
    lemma_operator_map_case(OperatorEnum::Mov, w, m, m2, r);
}

/// White space after an instruction leaves the statement as it is: if `s`
/// reads as a statement, so does `s + w` with `w` all white space, to the
/// same statement, and only what is left gains `w` (nothing stays nothing).
/// If `s` does not read as a statement, neither does `s + w`.
pub proof fn lemma_trailing_space(s: Seq<char>, w: Seq<char>)
    requires
        all_space(w),
    ensures
        match parse_statement(s) {
            Ok((rest, st)) => parse_statement(s + w) == Ok::<(Seq<char>, Statement), Seq<char>>(
                (if rest.len() > 0 { rest + w } else { rest }, st),
            ),
            Err(_) => parse_statement(s + w) is Err,
        },
{
    lemma_operator_append(s, w);
}

} // verus!
