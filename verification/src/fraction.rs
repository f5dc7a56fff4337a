//! Doubles that are kept as their bits.
use vstd::prelude::*;

verus! {

/// A double, kept as its bits.
#[derive(Clone, Copy)]
pub struct Fraction {
    pub bits: u64,
}

/// The bits of a double without the one for its sign.
pub open spec fn magnitude(bits: u64) -> u64 {
    bits % 0x8000000000000000
}

/// Two doubles are equal as numbers: they have the same bits, or both are zero, whatever
/// their signs. What is not a number, with a magnitude above that of infinity, equals nothing.
pub open spec fn same_number(a: u64, b: u64) -> bool {
    &&& magnitude(a) <= 0x7ff0000000000000
    &&& magnitude(b) <= 0x7ff0000000000000
    &&& a == b || (magnitude(a) == 0 && magnitude(b) == 0)
}

impl PartialEq for Fraction {
    fn eq(&self, other: &Self) -> (r: bool) {
        let a: u64 = self.bits % 0x8000000000000000;
        let b: u64 = other.bits % 0x8000000000000000;
        a <= 0x7ff0000000000000 && b <= 0x7ff0000000000000 && (self.bits == other.bits || (a == 0
            && b == 0))
    }
}

impl vstd::std_specs::cmp::PartialEqSpecImpl for Fraction {
    open spec fn obeys_eq_spec() -> bool {
        true
    }

    open spec fn eq_spec(&self, other: &Self) -> bool {
        same_number(self.bits, other.bits)
    }
}

} // verus!
