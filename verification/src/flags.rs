//! A set of flags kept as the bits of one number.

use vstd::prelude::*;

verus! {

/// A bitset: each flag is a mask, and the flag is set where all bits of the
/// mask are.
#[derive(Debug, Clone, Copy, PartialEq, Default)]
pub struct Flags<T> {
    pub flags: T,
}

impl Flags<u16> {
    /// Whether all bits of `flag` are set.
    pub open spec fn has(&self, flag: u16) -> bool {
        self.flags & flag == flag
    }

    /// The set with exactly the bits of `flags`.
    pub fn new(flags: u16) -> (set: Flags<u16>)
        ensures
            set.flags == flags,
    {
        Flags { flags }
    }

    /// Whether all bits of `flag` are set.
    pub fn is_set(&self, flag: u16) -> (b: bool)
        ensures
            b == self.has(flag),
    {
        self.flags & flag == flag
    }

    /// Sets the bits of `flag`; every flag that was set stays set.
    pub fn set(&mut self, flag: u16)
        ensures
            final(self).flags == old(self).flags | flag,
            final(self).has(flag),
            forall|other: u16| old(self).has(other) ==> final(self).has(other),
    {
        let before = self.flags;
        self.flags = self.flags | flag;
        proof {
            assert((before | flag) & flag == flag) by (bit_vector);
            assert forall|other: u16| before & other == other implies (before | flag) & other
                == other by {
                assert(before & other == other ==> (before | flag) & other == other)
                    by (bit_vector);
            }
        }
    }

    /// Those of `possible_flags` that are set, in their order.
    pub fn get_all_flags(&self, possible_flags: Vec<u16>) -> (set: Vec<u16>)
        ensures
            set@ == possible_flags@.filter(|flag: u16| self.has(flag)),
    {
        let ghost keep = |flag: u16| self.has(flag);
        let mut set: Vec<u16> = Vec::new();
        let mut i: usize = 0;
        proof {
            reveal_with_fuel(Seq::filter, 2);
            assert(possible_flags@.take(0) =~= Seq::<u16>::empty());
        }
        while i < possible_flags.len()
            invariant
                i <= possible_flags.len(),
                keep == |flag: u16| self.has(flag),
                set@ == possible_flags@.take(i as int).filter(keep),
            decreases possible_flags.len() - i,
        {
            let flag = possible_flags[i];
            proof {
                reveal_with_fuel(Seq::filter, 2);
                assert(possible_flags@.take(i + 1).drop_last() =~= possible_flags@.take(i as int));
                assert(possible_flags@.take(i + 1).last() == flag);
            }
            if self.is_set(flag) {
                set.push(flag);
            }
            i += 1;
        }
        proof {
            assert(possible_flags@.take(i as int) =~= possible_flags@);
        }
        set
    }
}

} // verus!
