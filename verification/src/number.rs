use vstd::prelude::*;

verus! {

/// A number as the scripting runtime has it: a double-precision value,
/// carried by its IEEE-754 bit pattern.
///
/// The library stores and hands on numbers but never does arithmetic on
/// them, so the pattern is all it needs. Two numbers are equal here when
/// their patterns are.
#[derive(Clone, Copy, Debug, PartialEq, Eq, Structural)]
pub struct Number {
    pub bits: u64,
}

impl Number {
    /// The number with the given pattern.
    pub fn from_bits(bits: u64) -> (r: Self)
        ensures
            r.bits == bits,
    {
        Number { bits }
    }

    /// The pattern of the number.
    pub fn to_bits(self) -> (r: u64)
        ensures
            r == self.bits,
    {
        self.bits
    }

    /// Zero, with the positive sign: all bits clear.
    pub fn zero() -> (r: Self)
        ensures
            r.bits == 0,
    {
        Number { bits: 0 }
    }
}

} // verus!
