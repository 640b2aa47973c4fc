//! Which optional parts a block came with.
use vstd::prelude::*;

verus! {

/// A set of small numbers.
#[derive(Clone, Copy, Debug, PartialEq, Eq, Structural)]
pub struct DataMask {
    bits: u64,
}

impl DataMask {
    /// Whether `bit` is in the set.
    pub closed spec fn has(self, bit: u32) -> bool {
        (self.bits >> bit) & 1 == 1
    }

    /// Puts `bit` in the set.
    pub fn set(&mut self, bit: u32)
        requires
            bit < 64,
        ensures
            forall|b: u32| b < 64 ==> #[trigger] final(self).has(b) == (b == bit || old(self).has(b)),
    {
        let before: u64 = self.bits;
        self.bits = before | (1u64 << bit);
        assert forall|b: u32| b < 64 implies #[trigger] self.has(b) == (b == bit || old(self).has(b)) by {
            assert((((before | (1u64 << bit)) >> b) & 1 == 1) == (b == bit || ((before >> b) & 1 == 1)))
                by (bit_vector)
                requires
                    b < 64,
                    bit < 64,
            ;
        }
    }

    /// Whether `bit` is in the set.
    pub fn get(&self, bit: u32) -> (b: bool)
        requires
            bit < 64,
        ensures
            b == self.has(bit),
    {
        (self.bits >> bit) & 1 == 1
    }
}

impl Default for DataMask {
    fn default() -> (mask: Self)
        ensures
            forall|b: u32| b < 64 ==> !(#[trigger] mask.has(b)),
    {
        assert forall|b: u32| b < 64 implies !(#[trigger] (DataMask { bits: 0 }).has(b)) by {
            assert((0u64 >> b) & 1 != 1) by (bit_vector)
                requires
                    b < 64,
            ;
        }
        DataMask { bits: 0 }
    }
}

} // verus!
