//! Uniform shuffling of the track order before a playlist is loaded,
//! with a small deterministic generator seeded by the caller.

use vstd::prelude::*;

use vstd::multiset::Multiset;

use crate::track::TrackDescriptor;

verus! {

broadcast use vstd::seq_lib::group_to_multiset_ensures, vstd::multiset::group_multiset_axioms;

/// A xorshift pseudo-random generator. The caller picks the seed (the
/// session draws it from the wall clock); a zero seed is replaced by a
/// fixed odd constant, since the all-zero state would never leave zero.
pub struct Rng {
    state: u64,
}

impl Rng {
    /// A generator starting from the given seed.
    pub fn new(seed: u64) -> Rng {
        let state: u64 = if seed == 0 {
            0x9E37_79B9_7F4A_7C15
        } else {
            seed
        };
        Rng { state }
    }

    /// The next raw draw of the generator.
    fn next_raw(&mut self) -> u64 {
        let mut x = self.state;
        x = x ^ (x << 13);
        x = x ^ (x >> 7);
        x = x ^ (x << 17);
        self.state = x;
        x
    }

    /// A draw below the given bound.
    pub fn below(&mut self, bound: u64) -> (draw: u64)
        requires
            bound > 0,
        ensures
            draw < bound,
    {
        let raw = self.next_raw();
        raw % bound
    }
}

/// The descriptors in a uniformly drawn random order: each step removes
/// one descriptor at a position drawn from the generator and appends it
/// to the result, so the result holds exactly the descriptors given, as
/// a multiset, and as many of them.
pub fn shuffled(descriptors: Vec<TrackDescriptor>, rng: &mut Rng) -> (out: Vec<TrackDescriptor>)
    ensures
        out@.to_multiset() == descriptors@.to_multiset(),
        out@.len() == descriptors@.len(),
{
    let ghost given = descriptors@;
    let mut remaining = descriptors;
    let mut out: Vec<TrackDescriptor> = Vec::new();
    while remaining.len() > 0
        invariant
            out@.to_multiset().add(remaining@.to_multiset()) == given.to_multiset(),
            out@.len() + remaining@.len() == given.len(),
        decreases remaining@.len(),
    {
        let ghost out_before = out@;
        let ghost remaining_before = remaining@;
        let position_draw = rng.below(remaining.len() as u64);
        let position = position_draw as usize;
        let item = remaining.remove(position);
        out.push(item);
        proof {
            assert(remaining_before.contains(item)) by {
                assert(remaining_before[position as int] == item);
            }
            assert(remaining_before.to_multiset().count(item) > 0);
            assert(out@.to_multiset().add(remaining@.to_multiset()) =~= out_before.to_multiset()
                .add(remaining_before.to_multiset()));
        }
    }
    proof {
        assert(remaining@.to_multiset() =~= Multiset::empty());
        assert(out@.to_multiset() =~= given.to_multiset());
    }
    out
}

} // verus!
