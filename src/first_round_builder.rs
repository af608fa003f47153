//! What the prover's first pass announces: the prefix-indicator lengths it
//! will need, in the order they are consumed, and how many post-result
//! challenges its final pass will use.
use vstd::prelude::*;

verus! {

pub struct FirstRoundBuilder {
    one_evaluation_lengths: Vec<usize>,
    num_post_result_challenges: usize,
}

impl FirstRoundBuilder {
    /// The announced lengths, in order.
    pub closed spec fn lengths(&self) -> Seq<usize> {
        self.one_evaluation_lengths@
    }

    /// The number of challenges requested so far.
    pub closed spec fn challenge_count(&self) -> nat {
        self.num_post_result_challenges as nat
    }

    pub fn new() -> (r: FirstRoundBuilder)
        ensures
            r.lengths() == Seq::<usize>::empty(),
            r.challenge_count() == 0,
    {
        FirstRoundBuilder { one_evaluation_lengths: Vec::new(), num_post_result_challenges: 0 }
    }

    /// Announces a length whose prefix-indicator evaluation will be consumed.
    pub fn produce_one_evaluation_length(&mut self, length: usize)
        ensures
            final(self).lengths() == old(self).lengths().push(length),
            final(self).challenge_count() == old(self).challenge_count(),
    {
        self.one_evaluation_lengths.push(length);
    }

    /// Requests `count` more post-result challenges.
    pub fn request_post_result_challenges(&mut self, count: usize)
        requires
            old(self).challenge_count() + count <= usize::MAX,
        ensures
            final(self).lengths() == old(self).lengths(),
            final(self).challenge_count() == old(self).challenge_count() + count,
    {
        self.num_post_result_challenges = self.num_post_result_challenges + count;
    }

    /// The announced lengths, in order.
    pub fn one_evaluation_lengths(&self) -> (r: &Vec<usize>)
        ensures
            r@ == self.lengths(),
    {
        &self.one_evaluation_lengths
    }

    /// The number of challenges requested so far.
    pub fn num_post_result_challenges(&self) -> (r: usize)
        ensures
            r == self.challenge_count(),
    {
        self.num_post_result_challenges
    }
}

} // verus!
