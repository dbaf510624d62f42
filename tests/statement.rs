use tiny_asm::operator::{EvalError, Operator};
use tiny_asm::statement::Statement;
use tiny_asm::statement_parsers::{block, run_program, statement, ProgramError};
use tiny_asm::term::{Ref, Terminal};
use tiny_asm::term_parsers::ParseError;
use tiny_asm::Mem;

#[test]
fn statement_eval_test() {
    let mut mem: Mem = [0; 256];
    let (_, s) = statement("Add #00 0xFF").unwrap();
    let block_input = "
        Mov #01 #00
        DIV #01 10
        ADD @01 1
        MUL @01 45
        ";
    let (_, b) = block(block_input).unwrap();
    s.eval(&mut mem).unwrap();
    b.eval(&mut mem).unwrap();
    assert_eq!(mem[0], 255);
    assert_eq!(mem[1], 25);
    assert_eq!(mem[25], 45);
    for i in 0..255 {
        if i > 1 && i != 25 {
            assert_eq!(mem[i], 0);
        }
    }
}

#[test]
fn block_test() {
    let input = "
        ADD #00 1
        SUB #01 3
        MUL #00 5
        Div #01 5
        MOV @00 #00
        ";
    let (rest, result) = block(input).unwrap();
    if let Statement::Block(result_vec) = result {
        assert_eq!(result_vec[0], Statement::Line(Operator::Add(Ref::DirectRef(0), Terminal::Immediate(1))));
        assert_eq!(result_vec[1], Statement::Line(Operator::Sub(Ref::DirectRef(1), Terminal::Immediate(3))));
        assert_eq!(result_vec[2], Statement::Line(Operator::Mul(Ref::DirectRef(0), Terminal::Immediate(5))));
        assert_eq!(result_vec[3], Statement::Line(Operator::Div(Ref::DirectRef(1), Terminal::Immediate(5))));
        assert_eq!(result_vec[4], Statement::Line(Operator::Mov(Ref::IndirectRef(0), Terminal::Ref(Ref::DirectRef(0)))));
    } else {
        panic!("block parser returned ({}, {:?}) instead of block", rest, result);
    }
}

#[test]
fn block_keeps_order_and_stops_at_garbage() {
    let (rest, result) = block("MOV #00 1 ADD #00 2 junk").unwrap();
    assert_eq!(rest, "junk");
    assert_eq!(
        result,
        Statement::Block(vec![
            Statement::Line(Operator::Mov(Ref::DirectRef(0), Terminal::Immediate(1))),
            Statement::Line(Operator::Add(Ref::DirectRef(0), Terminal::Immediate(2))),
        ])
    );
}

#[test]
fn block_needs_one_instruction() {
    assert_eq!(block("junk"), Err(ParseError { remaining: 4 }));
    assert_eq!(block("   "), Err(ParseError { remaining: 0 }));
}

#[test]
fn statement_is_a_line() {
    assert_eq!(
        statement(" mov @0a 0x10\n"),
        Ok(("", Statement::Line(Operator::Mov(Ref::IndirectRef(10), Terminal::Immediate(16)))))
    );
    assert_eq!(statement("ADD #00"), Err(ParseError { remaining: 7 }));
}

#[test]
fn case_and_white_space_give_the_same_tree() {
    let a = block("add #00 1\nsub #01 2").unwrap();
    let b = block("  ADD #00 1   \n\n  Sub #01 2 \n").unwrap();
    assert_eq!(a, b);
}

#[test]
fn nested_blocks_run_in_order() {
    let mut mem: Mem = [0; 256];
    let inner = Statement::Block(vec![
        Statement::Line(Operator::Add(Ref::DirectRef(1), Terminal::Immediate(3))),
        Statement::Line(Operator::Mul(Ref::DirectRef(1), Terminal::Immediate(2))),
    ]);
    let outer = Statement::Block(vec![
        Statement::Line(Operator::Mov(Ref::DirectRef(1), Terminal::Immediate(1))),
        inner,
        Statement::Line(Operator::Sub(Ref::DirectRef(1), Terminal::Immediate(1))),
    ]);
    outer.eval(&mut mem).unwrap();
    assert_eq!(mem[1], 7);
}

#[test]
fn block_stops_at_division_by_zero() {
    let mut mem: Mem = [0; 256];
    let program = Statement::Block(vec![
        Statement::Line(Operator::Mov(Ref::DirectRef(1), Terminal::Immediate(9))),
        Statement::Line(Operator::Div(Ref::DirectRef(1), Terminal::Immediate(0))),
        Statement::Line(Operator::Mov(Ref::DirectRef(2), Terminal::Immediate(9))),
    ]);
    assert_eq!(program.eval(&mut mem), Err(EvalError::DivisionByZero));
    assert_eq!(mem[1], 9);
    assert_eq!(mem[2], 0);
}

#[test]
fn program_block_ordering() {
    let mut mem: Mem = [0; 256];
    mem[0] = 255;
    let r = run_program("MOV #01 #00\nDIV #01 10\nADD @01 1\nMUL @01 45\n", &mut mem);
    assert_eq!(r, Ok(()));
    let mut expected: Mem = [0; 256];
    expected[0] = 255;
    expected[1] = 25;
    expected[25] = 45;
    assert_eq!(mem, expected);
}

#[test]
fn rejected_program_leaves_memory_alone() {
    let mut mem: Mem = [7; 256];
    let before = mem;
    assert_eq!(
        run_program("ADD #00 1 SUB #00 zz", &mut mem),
        Err(ProgramError::Parse(ParseError { remaining: 10 }))
    );
    assert_eq!(mem, before);
    assert_eq!(
        run_program("FOO #00 1", &mut mem),
        Err(ProgramError::Parse(ParseError { remaining: 9 }))
    );
    assert_eq!(mem, before);
    assert_eq!(
        run_program("ADD #00 0x", &mut mem),
        Err(ProgramError::Parse(ParseError { remaining: 10 }))
    );
    assert_eq!(mem, before);
}

#[test]
fn program_division_by_zero() {
    let mut mem: Mem = [0; 256];
    assert_eq!(
        run_program("MOV #05 4 DIV #05 #06 MOV #07 1", &mut mem),
        Err(ProgramError::Eval(EvalError::DivisionByZero))
    );
    assert_eq!(mem[5], 4);
    assert_eq!(mem[7], 0);
}
