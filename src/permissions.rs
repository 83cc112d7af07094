use vstd::prelude::*;

verus! {

/// Bit set of platform permissions.
#[derive(Clone, Copy, Debug, PartialEq, Eq, Structural)]
pub struct Permissions {
    pub bits: u64,
}

/// `a` holds every bit of `b`.
pub open spec fn bits_superset(a: u64, b: u64) -> bool {
    a & b == b
}

/// `a` is a subset of `b` that differs from `b`.
pub open spec fn bits_strict_subset(a: u64, b: u64) -> bool {
    a & b == a && a != b
}

impl Permissions {
    /// The empty set.
    pub fn empty() -> (r: Permissions)
        ensures
            r.bits == 0,
    {
        Permissions { bits: 0 }
    }

    /// Whether every bit of `other` is also set in `self`.
    pub fn contains(&self, other: Permissions) -> (r: bool)
        ensures
            r == bits_superset(self.bits, other.bits),
    {
        self.bits & other.bits == other.bits
    }

    /// The bits of `other` that `self` lacks.
    pub fn missing(&self, other: Permissions) -> (r: Permissions)
        ensures
            r.bits == other.bits & !self.bits,
    {
        Permissions { bits: other.bits & !self.bits }
    }
}

/// A strict subset of a requirement never satisfies it.
pub proof fn lemma_strict_subset_not_superset(a: u64, b: u64)
    requires
        bits_strict_subset(a, b),
    ensures
        !bits_superset(a, b),
{
    assert(a & b == a && a != b ==> a & b != b) by (bit_vector);
}

} // verus!
