use vstd::prelude::*;

verus! {

/// A ternary value: -1, 0, or +1.
#[derive(Debug, Clone, Copy, PartialEq, Eq, Hash, Structural)]
pub enum Ternary {
    Neg,
    Zero,
    Pos,
}

/// The value that `v` decodes to, if it is one of -1, 0 and +1.
pub open spec fn decode(v: int) -> Option<Ternary> {
    if v == -1 {
        Some(Ternary::Neg)
    } else if v == 0 {
        Some(Ternary::Zero)
    } else if v == 1 {
        Some(Ternary::Pos)
    } else {
        None
    }
}

impl Ternary {
    /// The integer that the value stands for.
    pub open spec fn value(self) -> int {
        match self {
            Ternary::Neg => -1,
            Ternary::Zero => 0,
            Ternary::Pos => 1,
        }
    }

    /// The position of the value in the order -1, 0, +1.
    pub open spec fn slot(self) -> int {
        self.value() + 1
    }

    pub fn to_i8(self) -> (r: i8)
        ensures
            r == self.value(),
    {
        match self {
            Ternary::Neg => -1,
            Ternary::Zero => 0,
            Ternary::Pos => 1,
        }
    }

    pub fn from_i8(v: i8) -> (r: Option<Ternary>)
        ensures
            r == decode(v as int),
    {
        match v {
            -1 => Some(Ternary::Neg),
            0 => Some(Ternary::Zero),
            1 => Some(Ternary::Pos),
            _ => None,
        }
    }

    pub fn values() -> (r: [Ternary; 3])
        ensures
            r@ == all_values(),
    {
        [Ternary::Neg, Ternary::Zero, Ternary::Pos]
    }

    /// The position of the value in the order -1, 0, +1, as an index.
    pub fn index(self) -> (r: usize)
        ensures
            r == self.slot(),
    {
        match self {
            Ternary::Neg => 0,
            Ternary::Zero => 1,
            Ternary::Pos => 2,
        }
    }
}

/// The three values in ascending order.
pub open spec fn all_values() -> Seq<Ternary> {
    seq![Ternary::Neg, Ternary::Zero, Ternary::Pos]
}

/// Decoding the integer of a value gives the value back: `from_i8` undoes `to_i8`.
pub proof fn lemma_decode_value(t: Ternary)
    ensures
        decode(t.value()) == Some(t),
{
}

/// An integer decodes exactly when it is -1, 0 or +1, and then to the value
/// that stands for it: `to_i8` undoes `from_i8` wherever `from_i8` succeeds.
pub proof fn lemma_value_decode(v: int)
    ensures
        decode(v) is Some <==> -1 <= v <= 1,
        decode(v) matches Some(t) ==> t.value() == v,
{
}

/// -1 stands for the negative value, 0 for zero, +1 for the positive one.
pub proof fn lemma_value_sign(t: Ternary)
    ensures
        t.value() < 0 <==> t == Ternary::Neg,
        t.value() == 0 <==> t == Ternary::Zero,
        t.value() > 0 <==> t == Ternary::Pos,
        -1 <= t.value() <= 1,
{
}

/// Two values with the same integer are the same value.
pub proof fn lemma_value_injective(a: Ternary, b: Ternary)
    ensures
        a.value() == b.value() <==> a == b,
{
}

/// The list of all values holds every value exactly once, at its slot, in
/// ascending order of the integers they stand for.
pub proof fn lemma_all_values(t: Ternary)
    ensures
        all_values().len() == 3,
        0 <= t.slot() < 3,
        all_values()[t.slot()] == t,
        forall|i: int| 0 <= i < 3 ==> (all_values()[i] == t <==> i == t.slot()),
        forall|i: int, j: int| 0 <= i < j < 3 ==> all_values()[i].value() < all_values()[j].value(),
{
}

} // verus!
