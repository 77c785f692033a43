use crate::circuit::{bhp1024_commit_of, bit_values, commit_bhp1024};
use crate::field::{is_scalar, scalar_ok};
use crate::literal::{copy_bits, lemma_bytes_bits_len, literal_bits, Literal};
use crate::mode::{combined, lemma_combine_monotone, Mode};
use vstd::prelude::*;
use vstd::string::StringSliceAdditionalSpecFns;
use vstd::utf8::encode_utf8;

verus! {

/// The largest number of message bits that the 1024-bit commitment takes.
pub const COMMIT_CAPACITY: usize = 1024;

/// An addressable slot of the register file, written `r<index>`.
#[derive(Clone, Copy, Debug, PartialEq, Eq, Structural)]
pub struct Register {
    pub index: u64,
}

/// Two source registers and a destination register.
#[derive(Clone, Copy, Debug, PartialEq, Eq, Structural)]
pub struct BinaryOperation {
    pub first: Register,
    pub second: Register,
    pub destination: Register,
}

/// Performs a commitment to a message of up to 1024 bits: `commit.ped1024 a b into d;`
/// commits to the bits of the value in `a`, blinded by the scalar in `b`, into `d`.
#[derive(Clone, Copy, Debug, PartialEq, Eq, Structural)]
pub struct PedComm1024 {
    pub operation: BinaryOperation,
}

/// An instruction of the machine.
#[derive(Clone, Copy, Debug, PartialEq, Eq, Structural)]
pub enum Instruction {
    PedComm1024(PedComm1024),
}

/// Why a text is not an instruction.
#[derive(Clone, Copy, Debug, PartialEq, Eq, Structural)]
pub enum ParseError {
    /// The text does not start with a known mnemonic.
    UnknownMnemonic,
    /// The operands are not `r<a> r<b> into r<d>;`.
    MalformedOperands,
}

/// Whether `c` is an ASCII decimal digit.
pub open spec fn is_digit(c: u8) -> bool {
    48 <= c <= 57
}

/// The end of the run of decimal digits that starts at `i`.
pub open spec fn digits_end(s: Seq<u8>, i: int) -> int
    decreases s.len() - i,
{
    if 0 <= i < s.len() && is_digit(s[i]) {
        digits_end(s, i + 1)
    } else {
        i
    }
}

/// The number written by the digits `s[i..j]`.
pub open spec fn decimal(s: Seq<u8>, i: int, j: int) -> int
    decreases j - i,
{
    if j <= i {
        0
    } else {
        decimal(s, i, j - 1) * 10 + (s[j - 1] - 48)
    }
}

/// The register written at `i` (`r` and one or more digits), with the position after it.
pub open spec fn register_at(s: Seq<u8>, i: int) -> Option<(Register, int)> {
    let j = digits_end(s, i + 1);
    if 0 <= i < s.len() && s[i] == 114 && j > i + 1 && decimal(s, i + 1, j) <= u64::MAX {
        Some((Register { index: decimal(s, i + 1, j) as u64 }, j))
    } else {
        None
    }
}

proof fn lemma_digits_end(s: Seq<u8>, i: int)
    requires
        0 <= i,
    ensures
        i <= digits_end(s, i),
        digits_end(s, i) <= if i <= s.len() { s.len() as int } else { i },
        forall|k: int| i <= k < digits_end(s, i) ==> is_digit(#[trigger] s[k]),
        digits_end(s, i) < s.len() ==> !is_digit(s[digits_end(s, i)]),
    decreases s.len() - i,
{
    if 0 <= i < s.len() && is_digit(s[i]) {
        lemma_digits_end(s, i + 1);
    }
}

proof fn lemma_decimal_grows(s: Seq<u8>, i: int, k: int, j: int)
    requires
        i <= k <= j,
        forall|m: int| i <= m < j ==> is_digit(#[trigger] s[m]),
    ensures
        decimal(s, i, k) <= decimal(s, i, j),
        0 <= decimal(s, i, k),
    decreases j - k,
{
    if k < j {
        lemma_decimal_grows(s, i, k, j - 1);
        lemma_decimal_nonneg(s, i, j - 1);
    } else {
        lemma_decimal_nonneg(s, i, k);
    }
}

proof fn lemma_decimal_nonneg(s: Seq<u8>, i: int, j: int)
    requires
        forall|m: int| i <= m < j ==> is_digit(#[trigger] s[m]),
    ensures
        0 <= decimal(s, i, j),
    decreases j - i,
{
    if j > i {
        lemma_decimal_nonneg(s, i, j - 1);
    }
}

/// Reads the register written at `i`.
fn parse_register(s: &[u8], i: usize) -> (r: Option<(Register, usize)>)
    ensures
        match register_at(s@, i as int) {
            Some((reg, j)) => j <= s@.len() && r == Some((reg, j as usize)),
            None => r is None,
        },
{
    proof {
        lemma_digits_end(s@, i + 1);
    }
    if i >= s.len() || s[i] != 114 {
        return None;
    }
    let mut j: usize = i + 1;
    let mut v: u64 = 0;
    while j < s.len() && 48 <= s[j] && s[j] <= 57
        invariant
            i + 1 <= j <= digits_end(s@, i + 1),
            digits_end(s@, i + 1) <= s@.len(),
            forall|k: int| i + 1 <= k < digits_end(s@, i + 1) ==> is_digit(#[trigger] s@[k]),
            digits_end(s@, i + 1) < s@.len() ==> !is_digit(s@[digits_end(s@, i + 1)]),
            v == decimal(s@, i + 1, j as int),
        decreases s@.len() - j,
    {
        let d: u64 = (s[j] - 48) as u64;
        if v > (u64::MAX - d) / 10 {
            proof {
                lemma_decimal_grows(s@, i + 1, j + 1, digits_end(s@, i + 1));
            }
            return None;
        }
        v = v * 10 + d;
        j = j + 1;
    }
    if j == i + 1 {
        return None;
    }
    Some((Register { index: v }, j))
}

/// The mnemonic of the commitment instruction with the space after it: `commit.ped1024 `.
pub open spec fn mnemonic() -> Seq<u8> {
    seq![99u8, 111, 109, 109, 105, 116, 46, 112, 101, 100, 49, 48, 50, 52, 32]
}

/// The keyword before the destination, with its spaces: ` into `.
pub open spec fn into_keyword() -> Seq<u8> {
    seq![32u8, 105, 110, 116, 111, 32]
}

/// Whether `w` is written in `s` at `i`.
pub open spec fn has_at(s: Seq<u8>, i: int, w: Seq<u8>) -> bool {
    0 <= i && i + w.len() <= s.len() && s.subrange(i, i + w.len()) == w
}

/// The instruction written at the start of `s`, with the number of bytes it takes:
/// `commit.ped1024 r<a> r<b> into r<d>;`.
pub open spec fn instruction_at(s: Seq<u8>) -> Option<(Instruction, int)> {
    if !has_at(s, 0, mnemonic()) {
        None
    } else {
        match register_at(s, mnemonic().len() as int) {
            None => None,
            Some((a, i1)) => if !(i1 < s.len() && s[i1] == 32) {
                None
            } else {
                match register_at(s, i1 + 1) {
                    None => None,
                    Some((b, i2)) => if !has_at(s, i2, into_keyword()) {
                        None
                    } else {
                        match register_at(s, i2 + into_keyword().len()) {
                            None => None,
                            Some((d, i3)) => if !(i3 < s.len() && s[i3] == 59) {
                                None
                            } else {
                                Some(
                                    (
                                        Instruction::PedComm1024(
                                            PedComm1024 {
                                                operation: BinaryOperation {
                                                    first: a,
                                                    second: b,
                                                    destination: d,
                                                },
                                            },
                                        ),
                                        i3 + 1,
                                    ),
                                )
                            },
                        }
                    },
                }
            },
        }
    }
}

fn mnemonic_bytes() -> (r: Vec<u8>)
    ensures
        r@ == mnemonic(),
{
    let r = vec![99u8, 111, 109, 109, 105, 116, 46, 112, 101, 100, 49, 48, 50, 52, 32];
    assert(r@ =~= mnemonic());
    r
}

fn into_keyword_bytes() -> (r: Vec<u8>)
    ensures
        r@ == into_keyword(),
{
    let r = vec![32u8, 105, 110, 116, 111, 32];
    assert(r@ =~= into_keyword());
    r
}

/// Whether `w` is written in `s` at `i`.
fn written_at(s: &[u8], i: usize, w: &Vec<u8>) -> (r: bool)
    ensures
        r == has_at(s@, i as int, w@),
{
    if i > s.len() || w.len() > s.len() - i {
        return false;
    }
    let mut k: usize = 0;
    while k < w.len()
        invariant
            k <= w@.len(),
            i + w@.len() <= s@.len(),
            s@.len() <= usize::MAX,
            forall|m: int| 0 <= m < k ==> s@[i + m] == w@[m],
        decreases w@.len() - k,
    {
        if s[i + k] != w[k] {
            assert(s@.subrange(i as int, i + w@.len())[k as int] != w@[k as int]);
            return false;
        }
        k = k + 1;
    }
    assert(s@.subrange(i as int, i + w@.len()) =~= w@);
    true
}

/// Reads the instruction written at the start of `s`.
fn parse_bytes(s: &[u8]) -> (r: Result<(usize, Instruction), ParseError>)
    ensures
        match instruction_at(s@) {
            Some((instr, n)) => r == Ok::<(usize, Instruction), ParseError>((n as usize, instr)),
            None => r == Err::<(usize, Instruction), ParseError>(
                if has_at(s@, 0, mnemonic()) {
                    ParseError::MalformedOperands
                } else {
                    ParseError::UnknownMnemonic
                },
            ),
        },
{
    let m = mnemonic_bytes();
    if !written_at(s, 0, &m) {
        return Err(ParseError::UnknownMnemonic);
    }
    let (a, i1) = match parse_register(s, m.len()) {
        Some(p) => p,
        None => return Err(ParseError::MalformedOperands),
    };
    if !(i1 < s.len() && s[i1] == 32) {
        return Err(ParseError::MalformedOperands);
    }
    let (b, i2) = match parse_register(s, i1 + 1) {
        Some(p) => p,
        None => return Err(ParseError::MalformedOperands),
    };
    let into = into_keyword_bytes();
    if !written_at(s, i2, &into) {
        return Err(ParseError::MalformedOperands);
    }
    let (d, i3) = match parse_register(s, i2 + into.len()) {
        Some(p) => p,
        None => return Err(ParseError::MalformedOperands),
    };
    if !(i3 < s.len() && s[i3] == 59) {
        return Err(ParseError::MalformedOperands);
    }
    let operation = BinaryOperation { first: a, second: b, destination: d };
    Ok((i3 + 1, Instruction::PedComm1024(PedComm1024 { operation })))
}

impl Instruction {
    /// Parses an instruction from the start of `s`; returns the number of bytes that it
    /// takes, and the instruction.
    pub fn parse(s: &str) -> (r: Result<(usize, Instruction), ParseError>)
        ensures
            match instruction_at(s.spec_bytes()) {
                Some((instr, n)) => r == Ok::<(usize, Instruction), ParseError>((n as usize, instr)),
                None => r == Err::<(usize, Instruction), ParseError>(
                    if has_at(s.spec_bytes(), 0, mnemonic()) {
                        ParseError::MalformedOperands
                    } else {
                        ParseError::UnknownMnemonic
                    },
                ),
            },
    {
        parse_bytes(s.as_bytes())
    }
}

/// A value held in a register, with the mode under which it entered the circuit.
pub struct Operand {
    pub literal: Literal,
    pub mode: Mode,
}

/// Why an instruction halts the execution.
#[derive(Clone, Copy, Debug, PartialEq, Eq, Structural)]
pub enum Halt {
    /// The message has more bits than the commitment takes.
    CapacityExceeded,
    /// A register is out of range or unassigned, or the blinding is not a scalar.
    MalformedOperand,
}

impl Halt {
    /// The message that the halt is reported with.
    pub fn message(&self) -> (r: String)
        ensures
            *self == Halt::CapacityExceeded ==> r@ == "The Pedersen hash input cannot exceed 1024 bits."@,
            *self == Halt::MalformedOperand ==> r@ == "The operands of the commitment are malformed."@,
    {
        match self {
            Halt::CapacityExceeded => String::from_str("The Pedersen hash input cannot exceed 1024 bits."),
            Halt::MalformedOperand => String::from_str("The operands of the commitment are malformed."),
        }
    }
}

/// Whether a literal can blind a commitment: a scalar whose bits denote a value below the
/// scalar modulus.
pub open spec fn blinding_ok(l: Literal) -> bool {
    &&& l is Scalar
    &&& scalar_ok(l->Scalar_0@)
}

/// Whether the registers of `op` are in range, its sources assigned, and its second
/// source a blinding scalar.
pub open spec fn operands_ok(regs: Seq<Option<Operand>>, op: BinaryOperation) -> bool {
    &&& op.first.index < regs.len()
    &&& op.second.index < regs.len()
    &&& op.destination.index < regs.len()
    &&& regs[op.first.index as int] is Some
    &&& regs[op.second.index as int] is Some
    &&& blinding_ok(regs[op.second.index as int]->Some_0.literal)
}

/// The message operand of `op`.
pub open spec fn message_of(regs: Seq<Option<Operand>>, op: BinaryOperation) -> Operand {
    regs[op.first.index as int]->Some_0
}

/// The blinding operand of `op`.
pub open spec fn blinding_of(regs: Seq<Option<Operand>>, op: BinaryOperation) -> Operand {
    regs[op.second.index as int]->Some_0
}

/// `new` is `old` with the commitment of `op` written to its destination: the
/// x-coordinate of the commitment, constant when both operands are, else private.
pub open spec fn committed(
    old: Seq<Option<Operand>>,
    new: Seq<Option<Operand>>,
    op: BinaryOperation,
) -> bool {
    let d = op.destination.index as int;
    let m = message_of(old, op);
    let b = blinding_of(old, op);
    &&& new.len() == old.len()
    &&& forall|k: int| 0 <= k < old.len() && k != d ==> new[k] == old[k]
    &&& new[d] is Some
    &&& new[d]->Some_0.mode == combined(m.mode, b.mode)
    &&& new[d]->Some_0.literal is Group
    &&& new[d]->Some_0.literal->Group_0@ == bhp1024_commit_of(
        literal_bits(m.literal),
        b.literal->Scalar_0@,
    )
}

/// What executing the commitment `op` on the registers `old` gives: a malformed operand
/// halts with `MalformedOperand`, else a message of more than `COMMIT_CAPACITY` bits halts
/// with `CapacityExceeded`; a halt writes nothing, and otherwise the commitment is written.
pub open spec fn commit_outcome(
    old: Seq<Option<Operand>>,
    new: Seq<Option<Operand>>,
    op: BinaryOperation,
    r: Result<(), Halt>,
) -> bool {
    &&& (r == Err::<(), Halt>(Halt::MalformedOperand)) == !operands_ok(old, op)
    &&& (r == Err::<(), Halt>(Halt::CapacityExceeded)) == (operands_ok(old, op) && literal_bits(
        message_of(old, op).literal,
    ).len() > COMMIT_CAPACITY)
    &&& r is Err ==> new == old
    &&& r is Ok ==> committed(old, new, op)
}

/// The mode of a commitment: constant when both operands are constant, and private when
/// either is public or private.
pub proof fn lemma_commit_mode(old: Seq<Option<Operand>>, new: Seq<Option<Operand>>, op: BinaryOperation)
    requires
        committed(old, new, op),
    ensures
        ({
            let m = message_of(old, op).mode;
            let b = blinding_of(old, op).mode;
            let out = new[op.destination.index as int]->Some_0.mode;
            &&& (m == Mode::Constant && b == Mode::Constant) ==> out == Mode::Constant
            &&& (m == Mode::Private || b == Mode::Private) ==> out == Mode::Private
            &&& (m == Mode::Public || b == Mode::Public) ==> out == Mode::Private
        }),
{
    lemma_combine_monotone(message_of(old, op).mode, blinding_of(old, op).mode);
}

/// A string message exceeds the capacity exactly when its UTF-8 encoding has more than
/// 128 bytes: 128 bytes fill the 1024 bits, and one more byte is refused.
pub proof fn lemma_string_capacity(s: String)
    ensures
        (literal_bits(Literal::String(s)).len() > COMMIT_CAPACITY) == (encode_utf8(s@).len()
            > 128),
        literal_bits(Literal::String(s)).len() == 8 * encode_utf8(s@).len(),
{
    lemma_bytes_bits_len(encode_utf8(s@));
}

/// Committing is deterministic, whatever the modes: two executions whose messages
/// serialize to the same bits and whose blindings are given by the same bits write the
/// same commitment.
pub proof fn lemma_commit_deterministic(
    old1: Seq<Option<Operand>>,
    new1: Seq<Option<Operand>>,
    op1: BinaryOperation,
    old2: Seq<Option<Operand>>,
    new2: Seq<Option<Operand>>,
    op2: BinaryOperation,
)
    requires
        committed(old1, new1, op1),
        committed(old2, new2, op2),
        literal_bits(message_of(old1, op1).literal) == literal_bits(message_of(old2, op2).literal),
        blinding_of(old1, op1).literal->Scalar_0@ == blinding_of(old2, op2).literal->Scalar_0@,
    ensures
        new1[op1.destination.index as int]->Some_0.literal->Group_0@
            == new2[op2.destination.index as int]->Some_0.literal->Group_0@,
{
}

/// Pairs each bit with `mode`.
fn moded_bits(bits: &Vec<bool>, mode: Mode) -> (r: Vec<(bool, Mode)>)
    ensures
        bit_values(r@) == bits@,
        r@.len() == bits@.len(),
        forall|k: int| 0 <= k < r@.len() ==> (#[trigger] r@[k]).1 == mode,
{
    let mut r: Vec<(bool, Mode)> = Vec::new();
    let mut i: usize = 0;
    while i < bits.len()
        invariant
            i <= bits@.len(),
            r@.len() == i,
            forall|k: int| 0 <= k < i ==> (#[trigger] r@[k]) == (bits@[k], mode),
        decreases bits@.len() - i,
    {
        r.push((bits[i], mode));
        i = i + 1;
    }
    assert(bit_values(r@) =~= bits@);
    r
}

impl PedComm1024 {
    /// Commits to the value in the first register, blinded by the scalar in the second,
    /// and writes the commitment to the destination register. Halts, with nothing
    /// written, when an operand is malformed or the message has more than
    /// `COMMIT_CAPACITY` bits.
    pub fn execute(&self, registers: &mut Vec<Option<Operand>>) -> (r: Result<(), Halt>)
        ensures
            commit_outcome(old(registers)@, final(registers)@, self.operation, r),
    {
        let op = self.operation;
        let n = registers.len();
        if op.first.index >= n as u64 || op.second.index >= n as u64 || op.destination.index
            >= n as u64 {
            return Err(Halt::MalformedOperand);
        }
        let a = op.first.index as usize;
        let b = op.second.index as usize;
        let d = op.destination.index as usize;
        let (message, message_mode) = match &registers[a] {
            Some(operand) => (operand.literal.to_bits_le(), operand.mode),
            None => return Err(Halt::MalformedOperand),
        };
        let (blinding, blinding_mode) = match &registers[b] {
            Some(Operand { literal: Literal::Scalar(bits), mode }) => {
                if !is_scalar(bits) {
                    return Err(Halt::MalformedOperand);
                }
                let mut copy: Vec<bool> = Vec::new();
                copy_bits(&mut copy, bits);
                (copy, *mode)
            },
            _ => return Err(Halt::MalformedOperand),
        };
        if message.len() > COMMIT_CAPACITY {
            return Err(Halt::CapacityExceeded);
        }
        let input = moded_bits(&message, message_mode);
        let x = commit_bhp1024(&input, &blinding, blinding_mode);
        let mode = message_mode.combine(blinding_mode);
        registers.set(d, Some(Operand { literal: Literal::Group(x), mode }));
        Ok(())
    }
}

impl Instruction {
    /// Executes the instruction on the register file.
    pub fn execute(&self, registers: &mut Vec<Option<Operand>>) -> (r: Result<(), Halt>)
        ensures
            match *self {
                Instruction::PedComm1024(c) => commit_outcome(
                    old(registers)@,
                    final(registers)@,
                    c.operation,
                    r,
                ),
            },
    {
        match self {
            Instruction::PedComm1024(c) => c.execute(registers),
        }
    }
}

} // verus!
