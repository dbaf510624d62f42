use tiny_asm::operator::Operator;
use tiny_asm::operator_parsers::OperatorEnum::{Add, Div, Mov, Mul, Sub};
use tiny_asm::operator_parsers::{operator, operator_map, operators, OperatorEnum};
use tiny_asm::term::{Ref, Terminal};
use tiny_asm::term_parsers::ParseError;

fn generic_operator_template(op: OperatorEnum) {
    let expected = op.build(Ref::DirectRef(50), Terminal::Immediate(255));
    let input = format!(" {} #32 0xFF \n", op.tag().to_uppercase());
    let (_, result) = operator_map(&op, input.as_str()).unwrap();
    assert_eq!(
        expected,
        result,
        "\nfailed to parse '{} #32 0xFF'\n",
        op.tag().to_uppercase()
    );

    let expected = op.build(Ref::IndirectRef(50), Terminal::Immediate(255));
    let input = format!(" {} @32 0xFF \n", op.tag().to_lowercase());
    let (_, result) = operator_map(&op, input.as_str()).unwrap();
    assert_eq!(
        expected,
        result,
        "\nfailed to parse '{} @32 0xFF'\n",
        op.tag().to_lowercase()
    );
}

#[test]
fn operator_test() {
    assert!(!operator("ADD #FF 69").is_err());
    assert!(!operator("SUB #FF 69").is_err());
    assert!(!operator("MUL #FF 69").is_err());
    assert!(!operator("DIV #FF 69").is_err());
    assert!(!operator("MOV #FF 69").is_err());
}

#[test]
fn operator_map_test() {
    let (_, result) = operator_map(&Add, "ADD #FF 69").unwrap();
    let expected = Operator::Add(Ref::DirectRef(255), Terminal::Immediate(69));
    assert_eq!(result, expected);

    let (_, result) = operator_map(&Sub, "Sub @0F #00").unwrap();
    let expected = Operator::Sub(Ref::IndirectRef(15), Terminal::Ref(Ref::DirectRef(0)));
    assert_eq!(result, expected);

    let (_, result) = operator_map(&Mul, "  Mul  #FF 69  \n   ").unwrap();
    let expected = Operator::Mul(Ref::DirectRef(255), Terminal::Immediate(69));
    assert_eq!(result, expected);

    let (_, result) = operator_map(&Div, "diV #FF 69").unwrap();
    let expected = Operator::Div(Ref::DirectRef(255), Terminal::Immediate(69));
    assert_eq!(result, expected);

    let (_, result) = operator_map(&Mov, "Mov #FF @FF").unwrap();
    let expected = Operator::Mov(Ref::DirectRef(255), Terminal::Ref(Ref::IndirectRef(255)));
    assert_eq!(result, expected);
}

#[test]
fn automatic_operator_map() {
    generic_operator_template(Add);
    generic_operator_template(Sub);
    generic_operator_template(Mul);
    generic_operator_template(Div);
    generic_operator_template(Mov);
}

#[test]
fn tags_are_upper_case_mnemonics() {
    assert_eq!(OperatorEnum::Add.tag(), "ADD");
    assert_eq!(OperatorEnum::Sub.tag(), "SUB");
    assert_eq!(OperatorEnum::Mul.tag(), "MUL");
    assert_eq!(OperatorEnum::Div.tag(), "DIV");
    assert_eq!(OperatorEnum::Mov.tag(), "MOV");
}

#[test]
fn mnemonic_case_does_not_matter() {
    let expected = Operator::Add(Ref::DirectRef(0), Terminal::Immediate(1));
    assert_eq!(operator("add #00 1"), Ok(("", expected)));
    assert_eq!(operator("Add #00 1"), Ok(("", expected)));
    assert_eq!(operator("ADD #00 1"), Ok(("", expected)));
    assert_eq!(operator("aDd #00 1"), Ok(("", expected)));
}

#[test]
fn surrounding_white_space_is_dropped() {
    let expected = Operator::Sub(Ref::IndirectRef(16), Terminal::Immediate(3));
    assert_eq!(operator("\n\t  SUB\t@10\n3 \r\n  "), Ok(("", expected)));
    assert_eq!(operator("SUB @10 3 ADD"), Ok(("ADD", expected)));
}

#[test]
fn operator_failures() {
    // missing source operand: the last alternative fails at the mnemonic
    assert_eq!(operator("ADD #00"), Err(ParseError { remaining: 7 }));
    // unknown mnemonic
    assert_eq!(operator("  XOR #00 1"), Err(ParseError { remaining: 9 }));
    // operands must be separated by white space
    assert_eq!(operator_map(&OperatorEnum::Add, "ADD#00 1"), Err(ParseError { remaining: 5 }));
    assert_eq!(operator_map(&OperatorEnum::Add, "ADD #001"), Err(ParseError { remaining: 0 }));
    // the destination must be a reference
    assert_eq!(operator_map(&OperatorEnum::Mov, "MOV 5 #00"), Err(ParseError { remaining: 5 }));
    assert!(operator("").is_err());
}

#[test]
fn operators_reads_a_run_of_instructions() {
    assert_eq!(
        operators("ADD #00 1\nmov @01 #02 x"),
        Ok((
            "x",
            vec![
                Operator::Add(Ref::DirectRef(0), Terminal::Immediate(1)),
                Operator::Mov(Ref::IndirectRef(1), Terminal::Ref(Ref::DirectRef(2))),
            ]
        ))
    );
    assert_eq!(operators("x"), Err(ParseError { remaining: 1 }));
}
