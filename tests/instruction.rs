use commit_leaf::instruction::{
    BinaryOperation, Halt, Instruction, Operand, ParseError, PedComm1024, Register,
};
use commit_leaf::literal::Literal;
use commit_leaf::mode::Mode;

#[test]
fn test_parse() {
    let (_, instruction) = Instruction::parse("commit.ped1024 r0 r1 into r2;").unwrap();
    assert!(matches!(instruction, Instruction::PedComm1024(_)));
}

#[test]
fn parse_reads_registers_and_length() {
    let (n, instruction) = Instruction::parse("commit.ped1024 r12 r3 into r456; rest").unwrap();
    assert_eq!(n, 32);
    let expected = BinaryOperation {
        first: Register { index: 12 },
        second: Register { index: 3 },
        destination: Register { index: 456 },
    };
    assert_eq!(instruction, Instruction::PedComm1024(PedComm1024 { operation: expected }));
}

#[test]
fn parse_rejects_unknown_mnemonic() {
    assert_eq!(Instruction::parse("commit.ped512 r0 r1 into r2;"), Err(ParseError::UnknownMnemonic));
    assert_eq!(Instruction::parse(""), Err(ParseError::UnknownMnemonic));
}

#[test]
fn parse_rejects_malformed_operands() {
    assert_eq!(Instruction::parse("commit.ped1024 r0 r1 into r2"), Err(ParseError::MalformedOperands));
    assert_eq!(Instruction::parse("commit.ped1024 r0 x1 into r2;"), Err(ParseError::MalformedOperands));
    assert_eq!(Instruction::parse("commit.ped1024 r0 r1 onto r2;"), Err(ParseError::MalformedOperands));
    assert_eq!(Instruction::parse("commit.ped1024 r r1 into r2;"), Err(ParseError::MalformedOperands));
    assert_eq!(
        Instruction::parse("commit.ped1024 r18446744073709551616 r1 into r2;"),
        Err(ParseError::MalformedOperands)
    );
}

#[test]
fn parse_takes_largest_register() {
    let (_, instruction) = Instruction::parse("commit.ped1024 r18446744073709551615 r1 into r2;").unwrap();
    let Instruction::PedComm1024(c) = instruction;
    assert_eq!(c.operation.first.index, u64::MAX);
}

fn commit_instruction() -> PedComm1024 {
    PedComm1024 {
        operation: BinaryOperation {
            first: Register { index: 0 },
            second: Register { index: 1 },
            destination: Register { index: 2 },
        },
    }
}

fn registers(message: Literal, message_mode: Mode, blinding_mode: Mode) -> Vec<Option<Operand>> {
    vec![
        Some(Operand { literal: message, mode: message_mode }),
        Some(Operand { literal: Literal::Scalar(vec![true]), mode: blinding_mode }),
        None,
    ]
}

fn committed_bits(regs: &[Option<Operand>]) -> (Vec<bool>, Mode) {
    match &regs[2] {
        Some(Operand { literal: Literal::Group(bits), mode }) => (bits.clone(), *mode),
        _ => panic!("no commitment was written"),
    }
}

#[test]
fn string_of_1024_bits_commits() {
    let s = "a".repeat(128);
    let mut regs = registers(Literal::String(s), Mode::Constant, Mode::Constant);
    assert_eq!(commit_instruction().execute(&mut regs), Ok(()));
    let (bits, mode) = committed_bits(&regs);
    assert_eq!(bits.len(), 253);
    assert_eq!(mode, Mode::Constant);
}

#[test]
fn string_halts() {
    let s = "a".repeat(129);
    let mut regs = registers(Literal::String(s), Mode::Constant, Mode::Constant);
    let result = commit_instruction().execute(&mut regs);
    assert_eq!(result, Err(Halt::CapacityExceeded));
    assert_eq!(result.unwrap_err().message(), "The Pedersen hash input cannot exceed 1024 bits.");
    assert!(regs[2].is_none());
}

#[test]
fn string_of_130_characters_halts() {
    let s = "a".repeat(130);
    let mut regs = registers(Literal::String(s), Mode::Private, Mode::Public);
    assert_eq!(Instruction::PedComm1024(commit_instruction()).execute(&mut regs), Err(Halt::CapacityExceeded));
}

#[test]
fn malformed_operands_halt() {
    let mut regs = registers(Literal::Boolean(true), Mode::Constant, Mode::Constant);
    regs[0] = None;
    assert_eq!(commit_instruction().execute(&mut regs), Err(Halt::MalformedOperand));

    let mut regs = registers(Literal::Boolean(true), Mode::Constant, Mode::Constant);
    regs[1] = Some(Operand { literal: Literal::U8(1), mode: Mode::Constant });
    assert_eq!(commit_instruction().execute(&mut regs), Err(Halt::MalformedOperand));

    let mut regs = registers(Literal::Boolean(true), Mode::Constant, Mode::Constant);
    regs[1] = Some(Operand { literal: Literal::Scalar(vec![true; 251]), mode: Mode::Constant });
    assert_eq!(commit_instruction().execute(&mut regs), Err(Halt::MalformedOperand));

    let mut regs = registers(Literal::Boolean(true), Mode::Constant, Mode::Constant);
    regs[1] = Some(Operand { literal: Literal::Scalar(commit_leaf::field::scalar_modulus_bits()), mode: Mode::Constant });
    assert_eq!(commit_instruction().execute(&mut regs), Err(Halt::MalformedOperand));

    let mut regs = registers(Literal::Boolean(true), Mode::Constant, Mode::Constant);
    regs.truncate(2);
    let result = commit_instruction().execute(&mut regs);
    assert_eq!(result, Err(Halt::MalformedOperand));
    assert_eq!(result.unwrap_err().message(), "The operands of the commitment are malformed.");
}

#[test]
fn commitment_is_deterministic_and_mode_independent() {
    let mut first = registers(Literal::Scalar(vec![true]), Mode::Constant, Mode::Constant);
    let mut second = registers(Literal::Scalar(vec![true]), Mode::Private, Mode::Public);
    let mut third = registers(Literal::Scalar(vec![true]), Mode::Constant, Mode::Constant);
    assert_eq!(commit_instruction().execute(&mut first), Ok(()));
    assert_eq!(commit_instruction().execute(&mut second), Ok(()));
    assert_eq!(commit_instruction().execute(&mut third), Ok(()));
    let (a, ma) = committed_bits(&first);
    let (b, mb) = committed_bits(&second);
    let (c, _) = committed_bits(&third);
    assert_eq!(a, b);
    assert_eq!(a, c);
    assert_eq!(ma, Mode::Constant);
    assert_eq!(mb, Mode::Private);
}

#[test]
fn commitment_depends_on_message_and_blinding() {
    let mut one = registers(Literal::U8(1), Mode::Constant, Mode::Constant);
    let mut two = registers(Literal::U8(2), Mode::Constant, Mode::Constant);
    let mut blinded = registers(Literal::U8(1), Mode::Constant, Mode::Constant);
    blinded[1] = Some(Operand { literal: Literal::Scalar(vec![false, true]), mode: Mode::Constant });
    assert_eq!(commit_instruction().execute(&mut one), Ok(()));
    assert_eq!(commit_instruction().execute(&mut two), Ok(()));
    assert_eq!(commit_instruction().execute(&mut blinded), Ok(()));
    let (a, _) = committed_bits(&one);
    let (b, _) = committed_bits(&two);
    let (c, _) = committed_bits(&blinded);
    assert_ne!(a, b);
    assert_ne!(a, c);
    assert!(regs_untouched(&one));
}

fn regs_untouched(regs: &[Option<Operand>]) -> bool {
    matches!(&regs[0], Some(Operand { literal: Literal::U8(1), mode: Mode::Constant }))
        && matches!(&regs[1], Some(Operand { literal: Literal::Scalar(_), mode: Mode::Constant }))
}

#[test]
fn blinding_in_full_width_commits() {
    let mut short = registers(Literal::U8(1), Mode::Constant, Mode::Constant);
    let mut full = registers(Literal::U8(1), Mode::Constant, Mode::Constant);
    let mut wide = vec![true];
    wide.resize(300, false);
    full[1] = Some(Operand { literal: Literal::Scalar(wide), mode: Mode::Constant });
    assert_eq!(commit_instruction().execute(&mut short), Ok(()));
    assert_eq!(commit_instruction().execute(&mut full), Ok(()));
    assert_eq!(committed_bits(&short).0, committed_bits(&full).0);
    // The largest scalar: the modulus minus one, whose lowest limb is odd.
    let mut largest = commit_leaf::field::scalar_modulus_bits();
    largest[0] = false;
    let mut regs = registers(Literal::U8(1), Mode::Constant, Mode::Constant);
    regs[1] = Some(Operand { literal: Literal::Scalar(largest), mode: Mode::Constant });
    assert_eq!(commit_instruction().execute(&mut regs), Ok(()));
}

#[test]
fn output_mode_is_constant_or_private() {
    let mut regs = registers(Literal::Boolean(true), Mode::Public, Mode::Constant);
    assert_eq!(commit_instruction().execute(&mut regs), Ok(()));
    assert_eq!(committed_bits(&regs).1, Mode::Private);
    let mut regs = registers(Literal::Boolean(true), Mode::Public, Mode::Private);
    assert_eq!(commit_instruction().execute(&mut regs), Ok(()));
    assert_eq!(committed_bits(&regs).1, Mode::Private);
}
