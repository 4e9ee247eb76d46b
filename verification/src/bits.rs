//! Fixed-size bit rows: one bit per cage id, packed into sixty-four-bit words.
use vstd::prelude::*;

use crate::handler::MAX_CAGES;

verus! {

/// How many words hold one bit for every cage id.
pub const WORDS: usize = 16;

/// A set of cage ids below `MAX_CAGES`, one bit each.
#[derive(Clone, Copy, Debug)]
pub struct BitRow {
    words: [u64; WORDS],
}

/// Whether bit `i` of `word` is set.
pub open spec fn word_bit(word: u64, i: u64) -> bool {
    (word >> i) & 1 == 1
}

impl View for BitRow {
    type V = Set<u64>;

    closed spec fn view(&self) -> Set<u64> {
        Set::new(|id: u64| id < MAX_CAGES && word_bit(self.words@[id as int / 64], id % 64))
    }
}

impl BitRow {
    /// The row with no bit set.
    pub fn empty() -> (row: BitRow)
        ensures
            row@ == Set::<u64>::empty(),
    {
        let row = BitRow { words: [0u64; WORDS] };
        assert forall|id: u64| !row@.contains(id) by {
            let b: u64 = id % 64;
            assert(!word_bit(0, b)) by (bit_vector)
                requires
                    b < 64,
            ;
        }
        assert(row@ =~= Set::<u64>::empty());
        row
    }

    /// Whether the bit of `id` is set.
    pub fn test(&self, id: u64) -> (set: bool)
        requires
            id < MAX_CAGES,
        ensures
            set == self@.contains(id),
    {
        let i: usize = id as usize;
        (self.words[i / 64] >> (i % 64)) & 1 == 1
    }

    /// Sets the bit of `id`.
    pub fn set(&mut self, id: u64)
        requires
            id < MAX_CAGES,
        ensures
            final(self)@ == old(self)@.insert(id),
    {
        let i: usize = id as usize;
        let before: u64 = self.words[i / 64];
        let mask: u64 = 1u64 << (i % 64);
        self.words[i / 64] = before | mask;
        let ghost old_words = old(self).words@;
        let ghost new_words = self.words@;
        assert(new_words == old_words.update(id as int / 64, before | mask));
        assert forall|k: u64| self@.contains(k) == old(self)@.insert(id).contains(k) by {
            if k < MAX_CAGES && k / 64 == id / 64 {
                let s: u64 = id % 64;
                let b: u64 = k % 64;
                assert(word_bit(before | (1u64 << s), b) == (b == s || word_bit(before, b)))
                    by (bit_vector)
                    requires
                        s < 64,
                        b < 64,
                ;
            }
        }
        assert(self@ =~= old(self)@.insert(id));
    }

    /// Clears the bit of `id`.
    pub fn clear(&mut self, id: u64)
        requires
            id < MAX_CAGES,
        ensures
            final(self)@ == old(self)@.remove(id),
    {
        let i: usize = id as usize;
        let before: u64 = self.words[i / 64];
        let mask: u64 = 1u64 << (i % 64);
        self.words[i / 64] = before & !mask;
        let ghost old_words = old(self).words@;
        let ghost new_words = self.words@;
        assert(new_words == old_words.update(id as int / 64, before & !mask));
        assert forall|k: u64| self@.contains(k) == old(self)@.remove(id).contains(k) by {
            if k < MAX_CAGES && k / 64 == id / 64 {
                let s: u64 = id % 64;
                let b: u64 = k % 64;
                assert(word_bit(before & !(1u64 << s), b) == (b != s && word_bit(before, b)))
                    by (bit_vector)
                    requires
                        s < 64,
                        b < 64,
                ;
            }
        }
        assert(self@ =~= old(self)@.remove(id));
    }
}

} // verus!
