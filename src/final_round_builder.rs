//! What the prover's final pass records: the witness columns it commits, in
//! order, and the post-result challenges it consumes.
use crate::scalar::Scalar;
use vstd::prelude::*;

verus! {

pub struct FinalRoundBuilder {
    intermediate_mles: Vec<Vec<Scalar>>,
    /// Used as a stack: the first challenge to consume is the last entry.
    post_result_challenges: Vec<Scalar>,
}

impl FinalRoundBuilder {
    /// The committed witness columns, in order.
    pub closed spec fn committed(&self) -> Seq<Seq<Scalar>> {
        self.intermediate_mles@.map_values(|c: Vec<Scalar>| c@)
    }

    /// The challenges still on the stack; the next one is the last.
    pub closed spec fn challenges(&self) -> Seq<Scalar> {
        self.post_result_challenges@
    }

    pub fn new(post_result_challenges: Vec<Scalar>) -> (r: FinalRoundBuilder)
        ensures
            r.committed() == Seq::<Seq<Scalar>>::empty(),
            r.challenges() == post_result_challenges@,
    {
        let r = FinalRoundBuilder { intermediate_mles: Vec::new(), post_result_challenges };
        proof {
            assert(r.committed() =~= Seq::<Seq<Scalar>>::empty());
        }
        r
    }

    /// Commits a witness column.
    pub fn produce_intermediate_mle(&mut self, column: Vec<Scalar>)
        ensures
            final(self).committed() == old(self).committed().push(column@),
            final(self).challenges() == old(self).challenges(),
    {
        self.intermediate_mles.push(column);
        proof {
            assert(self.committed() =~= old(self).committed().push(column@));
        }
    }

    /// Pops the next post-result challenge off the stack.
    pub fn consume_post_result_challenge(&mut self) -> (r: Scalar)
        requires
            old(self).challenges().len() > 0,
        ensures
            r == old(self).challenges().last(),
            final(self).challenges() == old(self).challenges().drop_last(),
            final(self).committed() == old(self).committed(),
    {
        self.post_result_challenges.pop().unwrap()
    }

    /// The committed witness columns, in order.
    pub fn intermediate_mles(&self) -> (r: &Vec<Vec<Scalar>>)
        ensures
            r@.map_values(|c: Vec<Scalar>| c@) == self.committed(),
    {
        &self.intermediate_mles
    }
}

} // verus!
