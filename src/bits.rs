use vstd::prelude::*;

verus! {

/// A value read as a set of bit positions.
pub trait BitSet: Sized {
    /// Number of bit positions.
    spec fn width() -> u32;

    /// Whether position `index` is in the set.
    spec fn bit(&self, index: u32) -> bool;

    fn clear(&mut self, index: usize)
        requires
            index < Self::width(),
        ensures
            forall|i: u32| #![auto] i < Self::width() ==> final(self).bit(i) == (i != index && old(self).bit(i)),
    ;

    fn is_set(&self, index: usize) -> (b: bool)
        requires
            index < Self::width(),
        ensures
            b == self.bit(index as u32),
    ;

    fn set(&mut self, index: usize)
        requires
            index < Self::width(),
        ensures
            forall|i: u32| #![auto] i < Self::width() ==> final(self).bit(i) == (i == index || old(self).bit(i)),
    ;

    /// Flips position `index`, leaving every other position as it was.
    fn toggle(&mut self, index: usize)
        requires
            index < Self::width(),
        ensures
            forall|i: u32| #![auto] i < Self::width() ==> final(self).bit(i) == if i == index {
                !old(self).bit(i)
            } else {
                old(self).bit(i)
            },
    {
        if self.is_set(index) {
            self.clear(index);
        } else {
            self.set(index);
        }
    }
}

impl BitSet for u32 {
    open spec fn width() -> u32 {
        32
    }

    open spec fn bit(&self, index: u32) -> bool {
        (*self >> index) & 1u32 == 1u32
    }

    fn clear(&mut self, index: usize) {
        let ghost x = *self;
        let k = index as u32;
        let mask = !(1u32 << k);
        *self = *self & mask;
        assert forall|i: u32| i < 32 implies #[trigger] self.bit(i) == (i != k && x.bit(i)) by {
            let y = *self;
            assert(((y >> i) & 1u32 == 1u32) == (i != k && (x >> i) & 1u32 == 1u32)) by (bit_vector)
                requires
                    k < 32,
                    i < 32,
                    y == x & mask,
                    mask == !(1u32 << k),
            ;
        }
    }

    fn is_set(&self, index: usize) -> (b: bool) {
        (*self >> index as u32) & 1u32 == 1u32
    }

    fn set(&mut self, index: usize) {
        let ghost x = *self;
        let k = index as u32;
        *self = *self | (1u32 << k);
        assert forall|i: u32| i < 32 implies #[trigger] self.bit(i) == (i == k || x.bit(i)) by {
            let y = *self;
            assert(((y >> i) & 1u32 == 1u32) == (i == k || (x >> i) & 1u32 == 1u32)) by (bit_vector)
                requires
                    k < 32,
                    i < 32,
                    y == x | (1u32 << k),
            ;
        }
    }

    fn toggle(&mut self, index: usize) {
        let ghost x = *self;
        let k = index as u32;
        *self ^= 1u32 << k;
        assert(forall|i: u32| #![auto] i < 32 ==> (((x ^ (1u32 << k)) >> i) & 1u32 == 1u32) == if i == k {
            !((x >> i) & 1u32 == 1u32)
        } else {
            (x >> i) & 1u32 == 1u32
        }) by (bit_vector)
            requires
                k < 32,
        ;
    }
}

impl BitSet for i32 {
    open spec fn width() -> u32 {
        32
    }

    open spec fn bit(&self, index: u32) -> bool {
        (*self >> index) & 1i32 == 1i32
    }

    fn clear(&mut self, index: usize) {
        let ghost x = *self;
        let k = index as u32;
        let mask = !(1i32 << k);
        *self = *self & mask;
        assert forall|i: u32| i < 32 implies #[trigger] self.bit(i) == (i != k && x.bit(i)) by {
            let y = *self;
            assert(((y >> i) & 1i32 == 1i32) == (i != k && (x >> i) & 1i32 == 1i32)) by (bit_vector)
                requires
                    k < 32,
                    i < 32,
                    y == x & mask,
                    mask == !(1i32 << k),
            ;
        }
    }

    fn is_set(&self, index: usize) -> (b: bool) {
        (*self >> index as u32) & 1i32 == 1i32
    }

    fn set(&mut self, index: usize) {
        let ghost x = *self;
        let k = index as u32;
        *self = *self | (1i32 << k);
        assert forall|i: u32| i < 32 implies #[trigger] self.bit(i) == (i == k || x.bit(i)) by {
            let y = *self;
            assert(((y >> i) & 1i32 == 1i32) == (i == k || (x >> i) & 1i32 == 1i32)) by (bit_vector)
                requires
                    k < 32,
                    i < 32,
                    y == x | (1i32 << k),
            ;
        }
    }

    fn toggle(&mut self, index: usize) {
        let ghost x = *self;
        let k = index as u32;
        *self = *self ^ (1i32 << k);
        assert forall|i: u32| i < 32 implies #[trigger] self.bit(i) == if i == k {
            !x.bit(i)
        } else {
            x.bit(i)
        } by {
            let y = *self;
            assert(((y >> i) & 1i32 == 1i32) == if i == k {
                !((x >> i) & 1i32 == 1i32)
            } else {
                (x >> i) & 1i32 == 1i32
            }) by (bit_vector)
                requires
                    k < 32,
                    i < 32,
                    y == x ^ (1i32 << k),
            ;
        }
    }
}

/// A 64-bit word used as a bit set; it flips a bit through the trait's own
/// `toggle`.
pub struct MType {
    pub v: u64,
}

impl BitSet for MType {
    open spec fn width() -> u32 {
        64
    }

    open spec fn bit(&self, index: u32) -> bool {
        (self.v >> index) & 1u64 == 1u64
    }

    fn clear(&mut self, index: usize) {
        let ghost x = self.v;
        let k = index as u64;
        let mask = !(1u64 << k);
        self.v = self.v & mask;
        assert forall|i: u32| i < 64 implies #[trigger] self.bit(i) == (i != k && (x >> i) & 1u64 == 1u64) by {
            let y = self.v;
            let j = i as u64;
            assert(((y >> j) & 1u64 == 1u64) == (j != k && (x >> j) & 1u64 == 1u64)) by (bit_vector)
                requires
                    k < 64,
                    y == x & mask,
                    mask == !(1u64 << k),
            ;
        }
    }

    fn is_set(&self, index: usize) -> (b: bool) {
        (self.v >> index as u64) & 1u64 == 1u64
    }

    fn set(&mut self, index: usize) {
        let ghost x = self.v;
        let k = index as u64;
        self.v = self.v | (1u64 << k);
        assert forall|i: u32| i < 64 implies #[trigger] self.bit(i) == (i == k || (x >> i) & 1u64 == 1u64) by {
            let y = self.v;
            let j = i as u64;
            assert(((y >> j) & 1u64 == 1u64) == (j == k || (x >> j) & 1u64 == 1u64)) by (bit_vector)
                requires
                    k < 64,
                    y == x | (1u64 << k),
            ;
        }
    }
}

} // verus!
