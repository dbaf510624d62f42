use vstd::prelude::*;

use crate::operator::Operator;
use crate::term::{Ref, Terminal};
use crate::term_parsers::{
    agrees, lemma_terminal_append, parse_reference, parse_terminal, reference, rest_from,
    terminal, ParseError,
};

verus! {

/// The five mnemonics, in the order in which the operator parser tries them.
#[derive(Debug, PartialEq, Eq, Structural, Clone, Copy)]
pub enum OperatorEnum {
    Add,
    Sub,
    Mul,
    Div,
    Mov,
}

/// The mnemonic of `op`, in upper case.
pub open spec fn tag_of(op: OperatorEnum) -> Seq<char> {
    match op {
        OperatorEnum::Add => seq!['A', 'D', 'D'],
        OperatorEnum::Sub => seq!['S', 'U', 'B'],
        OperatorEnum::Mul => seq!['M', 'U', 'L'],
        OperatorEnum::Div => seq!['D', 'I', 'V'],
        OperatorEnum::Mov => seq!['M', 'O', 'V'],
    }
}

/// The instruction of kind `op` with destination `r` and source `t`.
pub open spec fn build_of(op: OperatorEnum, r: Ref, t: Terminal) -> Operator {
    match op {
        OperatorEnum::Add => Operator::Add(r, t),
        OperatorEnum::Sub => Operator::Sub(r, t),
        OperatorEnum::Mul => Operator::Mul(r, t),
        OperatorEnum::Div => Operator::Div(r, t),
        OperatorEnum::Mov => Operator::Mov(r, t),
    }
}

/// Blank, tab, carriage return and line feed.
pub open spec fn is_space(c: char) -> bool {
    c == ' ' || c == '\t' || c == '\r' || c == '\n'
}

/// `s` without the white space it starts with.
pub open spec fn skip_space(s: Seq<char>) -> Seq<char>
    decreases s.len(),
{
    if s.len() > 0 && is_space(s[0]) {
        skip_space(s.drop_first())
    } else {
        s
    }
}

/// A character's code with ASCII capitals taken to small letters.
pub open spec fn fold_case(c: char) -> int {
    if 'A' <= c && c <= 'Z' {
        c as int + 32
    } else {
        c as int
    }
}

/// `s` starts with `t`, ASCII letters compared without regard to case.
pub open spec fn starts_with_no_case(s: Seq<char>, t: Seq<char>) -> bool {
    s.len() >= t.len() && forall|k: int| 0 <= k < t.len() ==> fold_case(s[k]) == fold_case(#[trigger] t[k])
}

/// What follows a destination: white space, a terminal, and optional white
/// space.
pub open spec fn parse_source(op: OperatorEnum, r: Ref, u2: Seq<char>) -> Result<(Seq<char>, Operator), Seq<char>> {
    let u3 = skip_space(u2);
    if u3.len() == u2.len() {
        Err(u2)
    } else {
        match parse_terminal(u3) {
            Err(e) => Err(e),
            Ok((u4, x)) => Ok((skip_space(u4), build_of(op, r, x))),
        }
    }
}

/// What follows a mnemonic: white space, a reference, and the source.
pub open spec fn parse_operands(op: OperatorEnum, u: Seq<char>) -> Result<(Seq<char>, Operator), Seq<char>> {
    let u1 = skip_space(u);
    if u1.len() == u.len() {
        Err(u)
    } else {
        match parse_reference(u1) {
            Err(e) => Err(e),
            Ok((u2, r)) => parse_source(op, r, u2),
        }
    }
}

/// One instruction of kind `op`: optional white space, the mnemonic in any
/// case, white space, a reference, white space, a terminal, and optional
/// white space.
pub open spec fn parse_operator_map(op: OperatorEnum, s: Seq<char>) -> Result<(Seq<char>, Operator), Seq<char>> {
    let t = skip_space(s);
    if !starts_with_no_case(t, tag_of(op)) {
        Err(t)
    } else {
        parse_operands(op, t.skip(tag_of(op).len() as int))
    }
}

/// One instruction: the first of Add, Sub, Mul, Div and Mov that matches;
/// when none does, the failure of the last.
pub open spec fn parse_operator(s: Seq<char>) -> Result<(Seq<char>, Operator), Seq<char>> {
    match parse_operator_map(OperatorEnum::Add, s) {
        Ok(x) => Ok(x),
        Err(_) => match parse_operator_map(OperatorEnum::Sub, s) {
            Ok(x) => Ok(x),
            Err(_) => match parse_operator_map(OperatorEnum::Mul, s) {
                Ok(x) => Ok(x),
                Err(_) => match parse_operator_map(OperatorEnum::Div, s) {
                    Ok(x) => Ok(x),
                    Err(_) => parse_operator_map(OperatorEnum::Mov, s),
                },
            },
        },
    }
}

/// As many instructions as follow one another at the start of `s`, and what
/// is left after them.
pub open spec fn parse_lines(s: Seq<char>) -> (Seq<Operator>, Seq<char>)
    decreases s.len(),
{
    match parse_operator(s) {
        Ok((rest, op)) => if rest.len() < s.len() {
            let (ops, tail) = parse_lines(rest);
            (seq![op] + ops, tail)
        } else {
            (seq![], s)
        },
        Err(_) => (seq![], s),
    }
}

/// One or more instructions, in order; fails as the first one fails.
pub open spec fn parse_block(s: Seq<char>) -> Result<(Seq<char>, Seq<Operator>), Seq<char>> {
    match parse_operator(s) {
        Err(e) => Err(e),
        Ok(_) => Ok((parse_lines(s).1, parse_lines(s).0)),
    }
}

impl OperatorEnum {
    /// The mnemonic, in upper case.
    pub fn tag(&self) -> (r: &'static str)
        ensures
            r@ == tag_of(*self),
    {
        match self {
            OperatorEnum::Add => {
                proof {
                    reveal_strlit("ADD");
                }
                assert("ADD"@ =~= tag_of(*self));
                "ADD"
            },
            OperatorEnum::Sub => {
                proof {
                    reveal_strlit("SUB");
                }
                assert("SUB"@ =~= tag_of(*self));
                "SUB"
            },
            OperatorEnum::Mul => {
                proof {
                    reveal_strlit("MUL");
                }
                assert("MUL"@ =~= tag_of(*self));
                "MUL"
            },
            OperatorEnum::Div => {
                proof {
                    reveal_strlit("DIV");
                }
                assert("DIV"@ =~= tag_of(*self));
                "DIV"
            },
            OperatorEnum::Mov => {
                proof {
                    reveal_strlit("MOV");
                }
                assert("MOV"@ =~= tag_of(*self));
                "MOV"
            },
        }
    }

    /// The instruction of this kind with destination `dst` and source `src`.
    pub fn build(&self, dst: Ref, src: Terminal) -> (r: Operator)
        ensures
            r == build_of(*self, dst, src),
    {
        match self {
            OperatorEnum::Add => Operator::Add(dst, src),
            OperatorEnum::Sub => Operator::Sub(dst, src),
            OperatorEnum::Mul => Operator::Mul(dst, src),
            OperatorEnum::Div => Operator::Div(dst, src),
            OperatorEnum::Mov => Operator::Mov(dst, src),
        }
    }
}

fn is_space_char(c: char) -> (r: bool)
    ensures
        r == is_space(c),
{
    c == ' ' || c == '\t' || c == '\r' || c == '\n'
}

fn fold_case_char(c: char) -> (r: u32)
    ensures
        r as int == fold_case(c),
{
    if 'A' <= c && c <= 'Z' {
        c as u32 + 32
    } else {
        c as u32
    }
}

/// The input without the white space it starts with.
pub(crate) fn space0(input: &str) -> (r: &str)
    ensures
        r@ == skip_space(input@),
{
    let n = input.unicode_len();
    let mut i: usize = 0;
    assert(input@.skip(0) =~= input@);
    while i < n && is_space_char(input.get_char(i))
        invariant
            n == input@.len(),
            i <= n,
            skip_space(input@) == skip_space(input@.skip(i as int)),
        decreases n - i,
    {
        assert(input@.skip(i as int).drop_first() =~= input@.skip(i + 1));
        i = i + 1;
    }
    rest_from(input, i)
}

/// Whether `input` starts with `tag`, ASCII letters compared without regard
/// to case.
fn starts_with_tag(input: &str, tag: &str) -> (r: bool)
    ensures
        r == starts_with_no_case(input@, tag@),
{
    let n = input.unicode_len();
    let tn = tag.unicode_len();
    if n < tn {
        return false;
    }
    let mut k: usize = 0;
    while k < tn
        invariant
            n == input@.len(),
            tn == tag@.len(),
            tn <= n,
            k <= tn,
            forall|j: int| 0 <= j < k ==> fold_case(input@[j]) == fold_case(#[trigger] tag@[j]),
        decreases tn - k,
    {
        if fold_case_char(input.get_char(k)) != fold_case_char(tag.get_char(k)) {
            return false;
        }
        k = k + 1;
    }
    true
}

/// Reads one instruction of kind `op`: optional white space, the mnemonic in
/// any case, white space, a reference, white space, a terminal, and optional
/// white space.
pub fn operator_map<'a>(op: &OperatorEnum, input: &'a str) -> (r: Result<(&'a str, Operator), ParseError>)
    ensures
        agrees(r, parse_operator_map(*op, input@)),
{
    let t = space0(input);
    let tag = op.tag();
    if !starts_with_tag(t, tag) {
        return Err(ParseError { remaining: t.unicode_len() });
    }
    let u = rest_from(t, tag.unicode_len());
    let u1 = space0(u);
    if u1.unicode_len() == u.unicode_len() {
        return Err(ParseError { remaining: u.unicode_len() });
    }
    let (u2, dst) = match reference(u1) {
        Ok(x) => x,
        Err(e) => {
            return Err(e);
        },
    };
    let u3 = space0(u2);
    if u3.unicode_len() == u2.unicode_len() {
        return Err(ParseError { remaining: u2.unicode_len() });
    }
    let (u4, src) = match terminal(u3) {
        Ok(x) => x,
        Err(e) => {
            return Err(e);
        },
    };
    Ok((space0(u4), op.build(dst, src)))
}

/// Reads one instruction: the first of Add, Sub, Mul, Div and Mov that
/// matches.
pub fn operator(input: &str) -> (r: Result<(&str, Operator), ParseError>)
    ensures
        agrees(r, parse_operator(input@)),
{
    if let Ok(x) = operator_map(&OperatorEnum::Add, input) {
        return Ok(x);
    }
    if let Ok(x) = operator_map(&OperatorEnum::Sub, input) {
        return Ok(x);
    }
    if let Ok(x) = operator_map(&OperatorEnum::Mul, input) {
        return Ok(x);
    }
    if let Ok(x) = operator_map(&OperatorEnum::Div, input) {
        return Ok(x);
    }
    operator_map(&OperatorEnum::Mov, input)
}

/// Reads one or more instructions, in order, and stops before the first
/// text that is not an instruction.
pub fn operators(input: &str) -> (r: Result<(&str, Vec<Operator>), ParseError>)
    ensures
        match parse_block(input@) {
            Ok((rest, ops)) => r is Ok && r->Ok_0.0@ == rest && r->Ok_0.1@ == ops,
            Err(e) => r is Err && r->Err_0.remaining == e.len(),
        },
{
    if let Err(e) = operator(input) {
        return Err(e);
    }
    let mut v: Vec<Operator> = Vec::new();
    let mut cur = input;
    loop
        invariant
            parse_lines(input@).0 == v@ + parse_lines(cur@).0,
            parse_lines(input@).1 == parse_lines(cur@).1,
        ensures
            parse_lines(input@).0 == v@,
            parse_lines(input@).1 == cur@,
        decreases cur@.len(),
    {
        match operator(cur) {
            Ok((rest, op)) => {
                if rest.unicode_len() < cur.unicode_len() {
                    assert(v@ + parse_lines(cur@).0 =~= v@.push(op) + parse_lines(rest@).0);
                    v.push(op);
                    cur = rest;
                } else {
                    assert(v@ + parse_lines(cur@).0 =~= v@);
                    break;
                }
            },
            Err(_) => {
                assert(v@ + parse_lines(cur@).0 =~= v@);
                break;
            },
        }
    }
    Ok((cur, v))
}

/// Every character of `w` is white space.
pub open spec fn all_space(w: Seq<char>) -> bool {
    forall|k: int| 0 <= k < w.len() ==> is_space(#[trigger] w[k])
}

/// Skipping white space in `s + w`, with `w` all white space, leaves what
/// it leaves of `s` followed by `w`, or nothing when nothing is left of `s`.
proof fn lemma_skip_space_append(s: Seq<char>, w: Seq<char>)
    requires
        all_space(w),
    ensures
        skip_space(s + w) == if skip_space(s).len() > 0 {
            skip_space(s) + w
        } else {
            seq![]
        },
    decreases s.len() + w.len(),
{
    if s.len() == 0 {
        assert(s + w =~= w);
        if w.len() > 0 {
            assert(w.drop_first() =~= seq![] + w.drop_first());
            lemma_skip_space_append(seq![], w.drop_first());
        }
    } else {
        assert((s + w).drop_first() =~= s.drop_first() + w);
        if is_space(s[0]) {
            lemma_skip_space_append(s.drop_first(), w);
        }
    }
}

/// The outcome on `s + w`, `w` all white space, given the outcome `a` on
/// `s`: the same instruction, with `w` after what was left unless nothing
/// was; a failure stays a failure.
pub open spec fn appends_spaced(a: Result<(Seq<char>, Operator), Seq<char>>, b: Result<(Seq<char>, Operator), Seq<char>>, w: Seq<char>) -> bool {
    match a {
        Ok((rest, op)) => b == Ok::<(Seq<char>, Operator), Seq<char>>(
            (if rest.len() > 0 { rest + w } else { rest }, op),
        ),
        Err(_) => b is Err,
    }
}

proof fn lemma_source_append(op: OperatorEnum, r: Ref, u2: Seq<char>, w: Seq<char>)
    requires
        all_space(w),
    ensures
        appends_spaced(parse_source(op, r, u2), parse_source(op, r, u2 + w), w),
{
    let u3 = skip_space(u2);
    lemma_skip_space_append(u2, w);
    if u3.len() == 0 || u3.len() == u2.len() {
        return;
    }
    if w.len() > 0 {
        assert(is_space(w[0]));
    }
    lemma_terminal_append(u3, w);
    if let Ok((u4, x)) = parse_terminal(u3) {
        lemma_skip_space_append(u4, w);
        if skip_space(u4).len() == 0 {
            assert(skip_space(u4) =~= seq![]);
        }
    }
}

proof fn lemma_operands_append(op: OperatorEnum, u: Seq<char>, w: Seq<char>)
    requires
        all_space(w),
    ensures
        appends_spaced(parse_operands(op, u), parse_operands(op, u + w), w),
{
    let u1 = skip_space(u);
    lemma_skip_space_append(u, w);
    if u1.len() == 0 || u1.len() == u.len() {
        return;
    }
    if w.len() > 0 {
        assert(is_space(w[0]));
    }
    lemma_terminal_append(u1, w);
    if let Ok((u2, r)) = parse_reference(u1) {
        lemma_source_append(op, r, u2, w);
    }
}

proof fn lemma_operator_map_append(op: OperatorEnum, s: Seq<char>, w: Seq<char>)
    requires
        all_space(w),
    ensures
        appends_spaced(parse_operator_map(op, s), parse_operator_map(op, s + w), w),
{
    let tag = tag_of(op);
    let t = skip_space(s);
    lemma_skip_space_append(s, w);
    if t.len() == 0 {
        return;
    }
    let t2 = t + w;
    if t.len() < 3 && t2.len() >= 3 {
        let k = t.len() as int;
        assert(t2[k] == w[0]);
        assert(is_space(w[0]));
        assert(fold_case(t2[k]) != fold_case(tag[k]));
    }
    if t.len() >= 3 {
        assert(forall|k: int| 0 <= k < 3 ==> t2[k] == t[k]);
    }
    if !starts_with_no_case(t, tag) {
        return;
    }
    assert(t2.skip(3) =~= t.skip(3) + w);
    lemma_operands_append(op, t.skip(3), w);
}

/// White space after an instruction changes nothing but what is left:
/// `s + w`, with `w` all white space, reads the instruction read from `s`.
pub proof fn lemma_operator_append(s: Seq<char>, w: Seq<char>)
    requires
        all_space(w),
    ensures
        appends_spaced(parse_operator(s), parse_operator(s + w), w),
{
    lemma_operator_map_append(OperatorEnum::Add, s, w);
    lemma_operator_map_append(OperatorEnum::Sub, s, w);
    lemma_operator_map_append(OperatorEnum::Mul, s, w);
    lemma_operator_map_append(OperatorEnum::Div, s, w);
    lemma_operator_map_append(OperatorEnum::Mov, s, w);
}

} // verus!
