//! Fixed-size bit-vector sets.
//!
//! Annotation sets (part-of-speech, dialect, field, misc markers) and the
//! form/flag sets of a conjugation key are duplicate-free sets over small
//! enumerations. They are backed by one 128-bit word, indexed by the
//! enumeration's stable index, with O(1) membership, insertion and union.

use vstd::prelude::*;

verus! {

/// A set of small indices, one bit per member.
#[derive(Clone, Copy, Debug, PartialEq, Eq, Structural)]
pub struct Bits {
    pub bits: u128,
}

impl Bits {
    /// Membership of index `i`.
    pub open spec fn has(self, i: int) -> bool {
        0 <= i < 128 && (self.bits >> (i as u128)) & 1 == 1
    }

    /// The set with no members.
    pub fn empty() -> (r: Bits)
        ensures
            r.bits == 0,
            forall|j: int| !r.has(j),
    {
        let r = Bits { bits: 0 };
        proof {
            assert forall|j: int| !r.has(j) by {
                if 0 <= j < 128 {
                    let jj = j as u128;
                    assert((0u128 >> jj) & 1 == 0) by (bit_vector);
                }
            }
        }
        r
    }

    /// This set with index `i` added.
    pub fn with(self, i: u8) -> (r: Bits)
        requires
            i < 128,
        ensures
            r.has(i as int),
            forall|j: int| j != i ==> r.has(j) == self.has(j),
    {
        let b = self.bits;
        let r = Bits { bits: b | (1u128 << (i as u128)) };
        proof {
            let ii = i as u128;
            assert(((b | (1u128 << ii)) >> ii) & 1 == 1) by (bit_vector)
                requires ii < 128;
            assert forall|j: int| j != i implies r.has(j) == self.has(j) by {
                if 0 <= j < 128 {
                    let jj = j as u128;
                    assert(((b | (1u128 << ii)) >> jj) & 1 == (b >> jj) & 1) by (bit_vector)
                        requires ii < 128, jj < 128, ii != jj;
                }
            }
        }
        r
    }

    /// Membership test.
    pub fn contains(&self, i: u8) -> (r: bool)
        requires
            i < 128,
        ensures
            r == self.has(i as int),
    {
        (self.bits >> (i as u128)) & 1 == 1
    }

    /// True when the set has no members.
    pub fn is_empty(&self) -> (r: bool)
        ensures
            r == (self.bits == 0),
            r ==> forall|j: int| !self.has(j),
    {
        let b = self.bits;
        proof {
            if b == 0 {
                assert forall|j: int| !self.has(j) by {
                    if 0 <= j < 128 {
                        let jj = j as u128;
                        assert((b >> jj) & 1 == 0) by (bit_vector)
                            requires b == 0;
                    }
                }
            }
        }
        b == 0
    }

    /// The union of the two sets.
    pub fn union(self, other: Bits) -> (r: Bits)
        ensures
            forall|j: int| r.has(j) == (self.has(j) || other.has(j)),
    {
        let a = self.bits;
        let b = other.bits;
        let r = Bits { bits: a | b };
        proof {
            assert forall|j: int| r.has(j) == (self.has(j) || other.has(j)) by {
                if 0 <= j < 128 {
                    let jj = j as u128;
                    assert((((a | b) >> jj) & 1 == 1) == ((a >> jj) & 1 == 1 || (b >> jj) & 1
                        == 1)) by (bit_vector);
                }
            }
        }
        r
    }
}

} // verus!
