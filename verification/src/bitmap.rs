//! The set of keys that are currently held down.

use vstd::prelude::*;

verus! {

/// Whether bit `i` of `word` is set. Only `i < 128` is meaningful.
pub open spec fn bit_is_set(word: u128, i: u8) -> bool {
    word & (1u128 << i) != 0
}

/// A set of key codes, one bit for each code from 0 to 255.
///
/// The second word holds the codes 0 to 127, the first the codes 128 to 255.
pub struct Bitmap(u128, u128);

impl View for Bitmap {
    type V = Set<u8>;

    closed spec fn view(&self) -> Set<u8> {
        Set::new(
            |key: u8|
                if key <= 127 {
                    bit_is_set(self.1, key)
                } else {
                    bit_is_set(self.0, (key - 128) as u8)
                },
        )
    }
}

proof fn lemma_no_bit_in_zero(i: u8)
    by (bit_vector)
    requires
        i < 128,
    ensures
        !bit_is_set(0u128, i),
{
}

proof fn lemma_bit_after_set(word: u128, i: u8, j: u8)
    by (bit_vector)
    requires
        i < 128,
        j < 128,
    ensures
        bit_is_set(word | (1u128 << i), j) == (j == i || bit_is_set(word, j)),
        (word & (1u128 << i) == (1u128 << i)) == bit_is_set(word, i),
{
}

proof fn lemma_bit_after_clear(word: u128, i: u8, j: u8)
    by (bit_vector)
    requires
        i < 128,
        j < 128,
    ensures
        bit_is_set(word & !(1u128 << i), j) == (j != i && bit_is_set(word, j)),
{
}

impl Bitmap {
    /// The empty set: no key is held.
    pub fn new() -> (bm: Self)
        ensures
            bm@ == Set::<u8>::empty(),
    {
        let bm = Bitmap(0, 0);
        proof {
            assert forall|key: u8| !bm@.contains(key) by {
                if key <= 127 {
                    lemma_no_bit_in_zero(key);
                } else {
                    lemma_no_bit_in_zero((key - 128) as u8);
                }
            }
            assert(bm@ =~= Set::<u8>::empty());
        }
        bm
    }

    /// Records `key` as held. Returns `true` if it was not held before, and
    /// `false`, leaving the set as it was, if it already was.
    pub fn push(&mut self, key: u8) -> (fresh: bool)
        ensures
            fresh == !old(self)@.contains(key),
            final(self)@ == old(self)@.insert(key),
    {
        if key <= 127 {
            let b: u128 = 1u128 << key;
            proof {
                assert forall|other: u8| other < 128 implies bit_is_set(self.1 | b, other) == (other
                    == key || bit_is_set(self.1, other)) by {
                    lemma_bit_after_set(self.1, key, other);
                }
                lemma_bit_after_set(self.1, key, key);
            }
            if self.1 & b == b {
                assert(self@ =~= old(self)@.insert(key));
                return false;
            }
            self.1 |= b;
        } else {
            let i: u8 = key - 128;
            let b: u128 = 1u128 << i;
            proof {
                assert forall|other: u8| other < 128 implies bit_is_set(self.0 | b, other) == (other
                    == i || bit_is_set(self.0, other)) by {
                    lemma_bit_after_set(self.0, i, other);
                }
                lemma_bit_after_set(self.0, i, i);
            }
            if self.0 & b == b {
                assert(self@ =~= old(self)@.insert(key));
                return false;
            }
            self.0 |= b;
        }
        proof {
            assert forall|other: u8| self@.contains(other) == old(self)@.insert(key).contains(
                other,
            ) by {
                if other > 127 && key > 127 {
                    assert((other - 128) as u8 == (key - 128) as u8 <==> other == key);
                }
            }
            assert(self@ =~= old(self)@.insert(key));
        }
        true
    }

    /// Records `key` as released, whether or not it was held.
    pub fn remove(&mut self, key: u8)
        ensures
            final(self)@ == old(self)@.remove(key),
    {
        if key <= 127 {
            let b: u128 = !(1u128 << key);
            proof {
                assert forall|other: u8| other < 128 implies bit_is_set(self.1 & b, other) == (other
                    != key && bit_is_set(self.1, other)) by {
                    lemma_bit_after_clear(self.1, key, other);
                }
            }
            self.1 &= b;
        } else {
            let i: u8 = key - 128;
            let b: u128 = !(1u128 << i);
            proof {
                assert forall|other: u8| other < 128 implies bit_is_set(self.0 & b, other) == (other
                    != i && bit_is_set(self.0, other)) by {
                    lemma_bit_after_clear(self.0, i, other);
                }
            }
            self.0 &= b;
        }
        proof {
            assert forall|other: u8| self@.contains(other) == old(self)@.remove(key).contains(
                other,
            ) by {
                if other > 127 && key > 127 {
                    assert((other - 128) as u8 == (key - 128) as u8 <==> other == key);
                }
            }
            assert(self@ =~= old(self)@.remove(key));
        }
    }
}

} // verus!
