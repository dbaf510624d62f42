use vstd::prelude::*;

use crate::operator_parsers::is_space;
use crate::term::{Ref, Terminal};

verus! {

/// Why a parse failed.
#[derive(Debug, PartialEq, Eq, Structural, Clone, Copy)]
pub struct ParseError {
    /// How many characters of the input were left where matching failed;
    /// the failure lies at the input's length minus this count.
    pub remaining: usize,
}

/// `r`, a parser's executable result, is the outcome `o` of the grammar:
/// the same remaining input and value, or a failure with as many characters
/// left.
pub open spec fn agrees<T>(r: Result<(&str, T), ParseError>, o: Result<(Seq<char>, T), Seq<char>>) -> bool {
    match o {
        Ok((rest, v)) => r is Ok && r->Ok_0.0@ == rest && r->Ok_0.1 == v,
        Err(rest) => r is Err && r->Err_0.remaining == rest.len(),
    }
}

pub open spec fn is_hex_digit(c: char) -> bool {
    ('0' <= c && c <= '9') || ('a' <= c && c <= 'f') || ('A' <= c && c <= 'F')
}

pub open spec fn is_dec_digit(c: char) -> bool {
    '0' <= c && c <= '9'
}

pub open spec fn is_digit(c: char, hex: bool) -> bool {
    if hex {
        is_hex_digit(c)
    } else {
        is_dec_digit(c)
    }
}

/// The value of a decimal or hexadecimal digit, in either case.
pub open spec fn digit_value(c: char) -> int {
    if '0' <= c && c <= '9' {
        c as int - '0' as int
    } else if 'a' <= c && c <= 'f' {
        c as int - 'a' as int + 10
    } else {
        c as int - 'A' as int + 10
    }
}

pub open spec fn radix(hex: bool) -> int {
    if hex {
        16
    } else {
        10
    }
}

/// How many digits `s` starts with.
pub open spec fn digit_run(s: Seq<char>, hex: bool) -> nat
    decreases s.len(),
{
    if s.len() > 0 && is_digit(s[0], hex) {
        1 + digit_run(s.drop_first(), hex)
    } else {
        0
    }
}

/// The number that the digits `d` write, most significant first.
pub open spec fn digits_value(d: Seq<char>, hex: bool) -> int
    decreases d.len(),
{
    if d.len() == 0 {
        0
    } else {
        digits_value(d.drop_last(), hex) * radix(hex) + digit_value(d.last())
    }
}

/// A numeral: the longest run of digits, at least one, whose value fits in
/// a byte; a longer value is a failure, not a shorter match.
pub open spec fn parse_number(s: Seq<char>, hex: bool) -> Result<(Seq<char>, u8), Seq<char>> {
    let n = digit_run(s, hex) as int;
    let v = digits_value(s.take(n), hex);
    if n == 0 || v > 255 {
        Err(s)
    } else {
        Ok((s.skip(n), v as u8))
    }
}

/// An immediate: `0x` and a hexadecimal numeral, or a decimal numeral.
/// Input that starts with `0x` must go on with a hexadecimal numeral that
/// fits in a byte; it is never read as the decimal `0`.
pub open spec fn parse_immediate(s: Seq<char>) -> Result<(Seq<char>, Terminal), Seq<char>> {
    if s.len() >= 2 && s[0] == '0' && s[1] == 'x' {
        match parse_number(s.skip(2), true) {
            Ok((rest, v)) => Ok((rest, Terminal::Immediate(v))),
            Err(e) => Err(e),
        }
    } else {
        match parse_number(s, false) {
            Ok((rest, v)) => Ok((rest, Terminal::Immediate(v))),
            Err(e) => Err(e),
        }
    }
}

/// The character `c` followed by a hexadecimal numeral.
pub open spec fn parse_marked(s: Seq<char>, c: char) -> Result<(Seq<char>, u8), Seq<char>> {
    if s.len() > 0 && s[0] == c {
        parse_number(s.drop_first(), true)
    } else {
        Err(s)
    }
}

pub open spec fn parse_direct(s: Seq<char>) -> Result<(Seq<char>, Ref), Seq<char>> {
    match parse_marked(s, '#') {
        Ok((rest, a)) => Ok((rest, Ref::DirectRef(a))),
        Err(e) => Err(e),
    }
}

pub open spec fn parse_indirect(s: Seq<char>) -> Result<(Seq<char>, Ref), Seq<char>> {
    match parse_marked(s, '@') {
        Ok((rest, a)) => Ok((rest, Ref::IndirectRef(a))),
        Err(e) => Err(e),
    }
}

/// A direct reference, else an indirect one.
pub open spec fn parse_reference(s: Seq<char>) -> Result<(Seq<char>, Ref), Seq<char>> {
    match parse_direct(s) {
        Ok(x) => Ok(x),
        Err(_) => parse_indirect(s),
    }
}

/// An immediate, else a reference.
pub open spec fn parse_terminal(s: Seq<char>) -> Result<(Seq<char>, Terminal), Seq<char>> {
    match parse_immediate(s) {
        Ok(x) => Ok(x),
        Err(_) => match parse_reference(s) {
            Ok((rest, r)) => Ok((rest, Terminal::Ref(r))),
            Err(e) => Err(e),
        },
    }
}

/// The value of `c` if it is a digit of the given radix.
fn digit_of(c: char, hex: bool) -> (r: Option<u32>)
    ensures
        r is Some == is_digit(c, hex),
        r is Some ==> r->0 as int == digit_value(c) && r->0 < radix(hex),
{
    if '0' <= c && c <= '9' {
        Some(c as u32 - '0' as u32)
    } else if hex && 'a' <= c && c <= 'f' {
        Some(c as u32 - 'a' as u32 + 10)
    } else if hex && 'A' <= c && c <= 'F' {
        Some(c as u32 - 'A' as u32 + 10)
    } else {
        None
    }
}

/// The input from character `from` on.
pub(crate) fn rest_from<'a>(input: &'a str, from: usize) -> (r: &'a str)
    requires
        from <= input@.len(),
    ensures
        r@ == input@.skip(from as int),
{
    let n = input.unicode_len();
    let r = input.substring_char(from, n);
    assert(r@ =~= input@.skip(from as int));
    r
}

fn number<'a>(input: &'a str, hex: bool) -> (r: Result<(&'a str, u8), ParseError>)
    ensures
        agrees(r, parse_number(input@, hex)),
{
    let n = input.unicode_len();
    let mut i: usize = 0;
    let mut acc: u32 = 0;
    let mut too_big = false;
    assert(input@.skip(0) =~= input@);
    assert(input@.take(0) =~= Seq::<char>::empty());
    loop
        invariant
            n == input@.len(),
            i <= n,
            digit_run(input@, hex) == i + digit_run(input@.skip(i as int), hex),
            !too_big ==> acc as int == digits_value(input@.take(i as int), hex) && acc <= 255,
            too_big ==> digits_value(input@.take(i as int), hex) > 255,
        ensures
            i <= n,
            digit_run(input@, hex) == i,
            !too_big ==> acc as int == digits_value(input@.take(i as int), hex) && acc <= 255,
            too_big ==> digits_value(input@.take(i as int), hex) > 255,
        decreases n - i,
    {
        if i >= n {
            break;
        }
        let c = input.get_char(i);
        let d = match digit_of(c, hex) {
            Some(d) => d,
            None => {
                break;
            },
        };
        proof {
            assert(input@.skip(i as int).drop_first() =~= input@.skip(i + 1));
            assert(input@.take(i + 1).drop_last() =~= input@.take(i as int));
            let v = digits_value(input@.take(i as int), hex);
            if too_big {
                assert(v * radix(hex) >= v) by (nonlinear_arith)
                    requires
                        v > 255,
                        radix(hex) >= 10,
                ;
            }
        }
        if !too_big {
            acc = acc * (if hex { 16 } else { 10 }) + d;
            if acc > 255 {
                too_big = true;
            }
        }
        i = i + 1;
    }
    if i == 0 || too_big {
        Err(ParseError { remaining: n })
    } else {
        Ok((rest_from(input, i), acc as u8))
    }
}

/// Reads a hexadecimal numeral: all the hexadecimal digits at the start of
/// the input, at least one, with a value of at most 255.
pub fn hexadecimal_2(input: &str) -> (r: Result<(&str, u8), ParseError>)
    ensures
        agrees(r, parse_number(input@, true)),
{
    number(input, true)
}

/// Reads a decimal numeral: all the decimal digits at the start of the
/// input, at least one, with a value of at most 255.
pub fn decimal(input: &str) -> (r: Result<(&str, u8), ParseError>)
    ensures
        agrees(r, parse_number(input@, false)),
{
    number(input, false)
}

/// Reads an immediate operand: `0x` and a hexadecimal numeral, or a decimal
/// numeral.
pub fn immediate(input: &str) -> (r: Result<(&str, Terminal), ParseError>)
    ensures
        agrees(r, parse_immediate(input@)),
{
    let n = input.unicode_len();
    if n >= 2 && input.get_char(0) == '0' && input.get_char(1) == 'x' {
        match hexadecimal_2(rest_from(input, 2)) {
            Ok((rest, v)) => Ok((rest, Terminal::Immediate(v))),
            Err(e) => Err(e),
        }
    } else {
        match decimal(input) {
            Ok((rest, v)) => Ok((rest, Terminal::Immediate(v))),
            Err(e) => Err(e),
        }
    }
}

fn marked<'a>(input: &'a str, mark: char) -> (r: Result<(&'a str, u8), ParseError>)
    ensures
        agrees(r, parse_marked(input@, mark)),
{
    let n = input.unicode_len();
    if n > 0 && input.get_char(0) == mark {
        let rest = rest_from(input, 1);
        assert(rest@ =~= input@.drop_first());
        hexadecimal_2(rest)
    } else {
        Err(ParseError { remaining: n })
    }
}

/// Reads `#` and a hexadecimal address.
pub fn direct_reference(input: &str) -> (r: Result<(&str, Ref), ParseError>)
    ensures
        agrees(r, parse_direct(input@)),
{
    match marked(input, '#') {
        Ok((rest, a)) => Ok((rest, Ref::DirectRef(a))),
        Err(e) => Err(e),
    }
}

/// Reads `@` and a hexadecimal address.
pub fn indirect_reference(input: &str) -> (r: Result<(&str, Ref), ParseError>)
    ensures
        agrees(r, parse_indirect(input@)),
{
    match marked(input, '@') {
        Ok((rest, a)) => Ok((rest, Ref::IndirectRef(a))),
        Err(e) => Err(e),
    }
}

/// Reads a direct reference, else an indirect one.
pub fn reference(input: &str) -> (r: Result<(&str, Ref), ParseError>)
    ensures
        agrees(r, parse_reference(input@)),
{
    match direct_reference(input) {
        Ok(x) => Ok(x),
        Err(_) => indirect_reference(input),
    }
}

/// Reads an immediate, else a reference.
pub fn terminal(input: &str) -> (r: Result<(&str, Terminal), ParseError>)
    ensures
        agrees(r, parse_terminal(input@)),
{
    match immediate(input) {
        Ok(x) => Ok(x),
        Err(_) => match reference(input) {
            Ok((rest, a)) => Ok((rest, Terminal::Ref(a))),
            Err(e) => Err(e),
        },
    }
}

/// `b`, the outcome on the input with `w` appended, is outcome `a` with `w`
/// appended to what is left; a failure stays a failure.
pub open spec fn appends<T>(a: Result<(Seq<char>, T), Seq<char>>, b: Result<(Seq<char>, T), Seq<char>>, w: Seq<char>) -> bool {
    match a {
        Ok((rest, v)) => b == Ok::<(Seq<char>, T), Seq<char>>((rest + w, v)),
        Err(_) => b is Err,
    }
}

proof fn lemma_digit_run_append(s: Seq<char>, w: Seq<char>, hex: bool)
    requires
        w.len() > 0 ==> is_space(w[0]),
    ensures
        digit_run(s + w, hex) == digit_run(s, hex),
        digit_run(s, hex) <= s.len(),
    decreases s.len(),
{
    if s.len() == 0 {
        assert(s + w =~= w);
    } else {
        assert((s + w).drop_first() =~= s.drop_first() + w);
        lemma_digit_run_append(s.drop_first(), w, hex);
    }
}

proof fn lemma_number_append(s: Seq<char>, w: Seq<char>, hex: bool)
    requires
        w.len() > 0 ==> is_space(w[0]),
    ensures
        appends(parse_number(s, hex), parse_number(s + w, hex), w),
{
    lemma_digit_run_append(s, w, hex);
    let n = digit_run(s, hex) as int;
    assert((s + w).take(n) =~= s.take(n));
    assert((s + w).skip(n) =~= s.skip(n) + w);
}

proof fn lemma_marked_append(s: Seq<char>, w: Seq<char>, c: char)
    requires
        w.len() > 0 ==> is_space(w[0]),
        !is_space(c),
    ensures
        appends(parse_marked(s, c), parse_marked(s + w, c), w),
{
    if s.len() > 0 && s[0] == c {
        assert((s + w).drop_first() =~= s.drop_first() + w);
        lemma_number_append(s.drop_first(), w, true);
    } else if s.len() == 0 {
        assert(s + w =~= w);
    }
}

proof fn lemma_immediate_append(s: Seq<char>, w: Seq<char>)
    requires
        w.len() > 0 ==> is_space(w[0]),
    ensures
        appends(parse_immediate(s), parse_immediate(s + w), w),
{
    if s.len() >= 2 && s[0] == '0' && s[1] == 'x' {
        assert((s + w).skip(2) =~= s.skip(2) + w);
        lemma_number_append(s.skip(2), w, true);
    } else {
        lemma_number_append(s, w, false);
        if s.len() == 0 {
            assert(s + w =~= w);
        }
    }
}

proof fn lemma_reference_append(s: Seq<char>, w: Seq<char>)
    requires
        w.len() > 0 ==> is_space(w[0]),
    ensures
        appends(parse_reference(s), parse_reference(s + w), w),
{
    lemma_marked_append(s, w, '#');
    lemma_marked_append(s, w, '@');
}

/// Operands read from `s + w`, with `w` starting with white space, are
/// those read from `s`, with `w` left over as well.
pub proof fn lemma_terminal_append(s: Seq<char>, w: Seq<char>)
    requires
        w.len() > 0 ==> is_space(w[0]),
    ensures
        appends(parse_reference(s), parse_reference(s + w), w),
        appends(parse_terminal(s), parse_terminal(s + w), w),
{
    lemma_immediate_append(s, w);
    lemma_reference_append(s, w);
}

} // verus!
