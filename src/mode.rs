use vstd::prelude::*;

verus! {

/// The visibility of an operand inside a circuit.
#[derive(Clone, Copy, Debug, PartialEq, Eq, Structural)]
pub enum Mode {
    Constant,
    Public,
    Private,
}

/// How private a mode is: `Constant < Public < Private`.
pub open spec fn privacy(m: Mode) -> int {
    match m {
        Mode::Constant => 0,
        Mode::Public => 1,
        Mode::Private => 2,
    }
}

/// The mode of a value that the circuit computes from operands of modes `a` and `b`:
/// constant when both are constant, else a private witness.
pub open spec fn combined(a: Mode, b: Mode) -> Mode {
    if a == Mode::Constant && b == Mode::Constant {
        Mode::Constant
    } else {
        Mode::Private
    }
}

/// The mode of a value that the circuit computes from operands of modes `ms`: constant
/// when every one is constant, else a private witness.
pub open spec fn witness_mode(ms: Seq<Mode>) -> Mode {
    if forall|i: int| 0 <= i < ms.len() ==> ms[i] == Mode::Constant {
        Mode::Constant
    } else {
        Mode::Private
    }
}

impl Mode {
    /// The mode of a value that the circuit computes from operands of modes `self` and
    /// `other`.
    pub fn combine(self, other: Mode) -> (r: Mode)
        ensures
            r == combined(self, other),
    {
        match (self, other) {
            (Mode::Constant, Mode::Constant) => Mode::Constant,
            _ => Mode::Private,
        }
    }

    pub fn is_constant(self) -> (r: bool)
        ensures
            r == (self == Mode::Constant),
    {
        matches!(self, Mode::Constant)
    }
}

/// Two constant operands give a constant result; any other operand, public or private,
/// gives a private result, which is never less private than either operand.
pub proof fn lemma_combine_monotone(a: Mode, b: Mode)
    ensures
        (a == Mode::Constant && b == Mode::Constant) ==> combined(a, b) == Mode::Constant,
        (a == Mode::Private || b == Mode::Private) ==> combined(a, b) == Mode::Private,
        (a != Mode::Constant || b != Mode::Constant) ==> combined(a, b) == Mode::Private,
        privacy(combined(a, b)) >= privacy(a),
        privacy(combined(a, b)) >= privacy(b),
        combined(a, b) == combined(b, a),
        combined(a, b) == witness_mode(seq![a, b]),
{
    if !(a == Mode::Constant && b == Mode::Constant) {
        assert(!(seq![a, b][0] == Mode::Constant && seq![a, b][1] == Mode::Constant));
    }
}

/// A constant operand in front does not change the mode of a computed value.
pub proof fn lemma_witness_mode_constant_prefix(ms: Seq<Mode>)
    ensures
        witness_mode(seq![Mode::Constant] + ms) == witness_mode(ms),
{
    let p = seq![Mode::Constant] + ms;
    if forall|i: int| 0 <= i < ms.len() ==> ms[i] == Mode::Constant {
        assert forall|i: int| 0 <= i < p.len() implies p[i] == Mode::Constant by {
            if i > 0 {
                assert(p[i] == ms[i - 1]);
            }
        }
    } else {
        let i = choose|i: int| 0 <= i < ms.len() && ms[i] != Mode::Constant;
        assert(p[i + 1] == ms[i]);
    }
}

/// A computed value is constant when every operand is constant, private when one is
/// private, and never constant when one is public.
pub proof fn lemma_witness_mode(ms: Seq<Mode>, i: int)
    requires
        0 <= i < ms.len(),
    ensures
        ms[i] == Mode::Private ==> witness_mode(ms) == Mode::Private,
        ms[i] == Mode::Public ==> witness_mode(ms) == Mode::Private,
        witness_mode(ms) == Mode::Constant ==> ms[i] == Mode::Constant,
        privacy(witness_mode(ms)) >= privacy(ms[i]),
{
}

} // verus!
