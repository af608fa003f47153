//! The verifier's replay of the quantities a prover published, in the order
//! the prover produced them, and its reconstruction of the sumcheck value.
use crate::scalar::{field_order, Scalar};
use std::collections::HashMap;
use vstd::arithmetic::div_mod::{lemma_add_mod_noop, lemma_mod_twice, lemma_mul_mod_noop_right};
use vstd::prelude::*;
use vstd::std_specs::hash::group_hash_axioms;

verus! {

/// Why a verification pass rejects a proof.
#[derive(Clone, Copy, Debug, PartialEq, Eq, Structural)]
pub enum ProofError {
    /// A queue or stack of the proof ran out.
    MalformedProof,
    /// A prefix-indicator length has no evaluation.
    LookupFailure,
    /// The row-filtering argument did not hold.
    FilterArgumentFailure,
    /// The pass ended before every quantity was consumed or produced.
    IncompleteProof,
}

/// How a subpolynomial constraint is checked.
#[derive(Clone, Copy, Debug, PartialEq, Eq, Structural)]
pub enum SumcheckSubpolynomialType {
    /// Must vanish at every point: checked at the random evaluation point.
    Identity,
    /// Must sum to zero over the hypercube: checked directly.
    ZeroSum,
}

/// Which bits of a column are constant and which vary.
#[derive(Clone, Copy, Debug)]
pub struct BitDistribution {
    pub vary_mask: [u64; 4],
    pub leading_bit_mask: [u64; 4],
}

/// The evaluations a verification pass starts from.
pub struct SumcheckMleEvaluations {
    pub num_sumcheck_variables: usize,
    /// The evaluation at the sumcheck point that weights identity constraints.
    pub random_evaluation: Scalar,
    /// Evaluations checked against commitments, in the order they were committed.
    pub pcs_proof_evaluations: Vec<Scalar>,
    /// Prefix-indicator evaluations, by prefix length.
    pub one_evaluations: HashMap<usize, Scalar>,
}

impl Default for SumcheckMleEvaluations {
    fn default() -> (r: SumcheckMleEvaluations)
        ensures
            r.num_sumcheck_variables == 0,
            r.random_evaluation@ == 0,
            r.pcs_proof_evaluations@.len() == 0,
            r.one_evaluations@ == Map::<usize, Scalar>::empty(),
    {
        SumcheckMleEvaluations {
            num_sumcheck_variables: 0,
            random_evaluation: Scalar::zero(),
            pcs_proof_evaluations: Vec::new(),
            one_evaluations: HashMap::new(),
        }
    }
}

/// What a produced subpolynomial evaluation adds, before its multiplier.
pub open spec fn weighted_term(kind: SumcheckSubpolynomialType, eval: int, random: int) -> int {
    match kind {
        SumcheckSubpolynomialType::Identity => eval * random,
        SumcheckSubpolynomialType::ZeroSum => eval,
    }
}

/// The sum of `m[i] * t[i]` over the positions of `t`.
pub open spec fn weighted_sum(m: Seq<Scalar>, t: Seq<int>) -> int
    decreases t.len(),
{
    if t.len() == 0 {
        0
    } else {
        weighted_sum(m, t.drop_last()) + m[t.len() - 1]@ * t.last()
    }
}

/// Tracks what a verification pass has consumed and produced.
pub struct VerificationBuilder<'a> {
    pub mle_evaluations: SumcheckMleEvaluations,
    generator_offset: usize,
    subpolynomial_multipliers: &'a [Scalar],
    sumcheck_evaluation: Scalar,
    bit_distributions: &'a [BitDistribution],
    consumed_bit_distributions: usize,
    consumed_one_evaluations: usize,
    consumed_pcs_proof_mles: usize,
    produced_subpolynomials: usize,
    /// Challenges sent after the result was fixed, used as a stack: the
    /// first challenge to consume is the last entry.
    post_result_challenges: Vec<Scalar>,
    one_evaluation_length_queue: Vec<usize>,
    /// The terms produced so far, before their multipliers.
    terms: Ghost<Seq<int>>,
}

impl<'a> VerificationBuilder<'a> {
    pub closed spec fn offset(&self) -> usize {
        self.generator_offset
    }

    /// The commitment-checked evaluations of the pass.
    pub closed spec fn evaluations(&self) -> Seq<Scalar> {
        self.mle_evaluations.pcs_proof_evaluations@
    }

    /// Prefix-indicator evaluations, by prefix length.
    pub closed spec fn one_evaluations(&self) -> Map<usize, Scalar> {
        self.mle_evaluations.one_evaluations@
    }

    /// The evaluation that weights identity constraints.
    pub closed spec fn random_evaluation(&self) -> int {
        self.mle_evaluations.random_evaluation@
    }

    pub closed spec fn multipliers(&self) -> Seq<Scalar> {
        self.subpolynomial_multipliers@
    }

    /// The running sumcheck value.
    pub closed spec fn accumulated(&self) -> int {
        self.sumcheck_evaluation@
    }

    /// The produced terms, before their multipliers.
    pub closed spec fn produced_terms(&self) -> Seq<int> {
        self.terms@
    }

    pub closed spec fn bit_distributions(&self) -> Seq<BitDistribution> {
        self.bit_distributions@
    }

    pub closed spec fn consumed_bits(&self) -> nat {
        self.consumed_bit_distributions as nat
    }

    pub closed spec fn lengths(&self) -> Seq<usize> {
        self.one_evaluation_length_queue@
    }

    pub closed spec fn consumed_lengths(&self) -> nat {
        self.consumed_one_evaluations as nat
    }

    pub closed spec fn consumed_evaluations(&self) -> nat {
        self.consumed_pcs_proof_mles as nat
    }

    /// The challenges still on the stack; the next one is the last.
    pub closed spec fn challenges(&self) -> Seq<Scalar> {
        self.post_result_challenges@
    }

    /// The bookkeeping is consistent: no cursor is past its queue, one
    /// term per produced subpolynomial, and the running value is their
    /// weighted sum.
    pub closed spec fn wf(&self) -> bool {
        &&& self.consumed_bit_distributions <= self.bit_distributions@.len()
        &&& self.consumed_one_evaluations <= self.one_evaluation_length_queue@.len()
        &&& self.consumed_pcs_proof_mles <= self.mle_evaluations.pcs_proof_evaluations@.len()
        &&& self.produced_subpolynomials <= self.subpolynomial_multipliers@.len()
        &&& self.terms@.len() == self.produced_subpolynomials
        &&& self.sumcheck_evaluation@ == weighted_sum(self.subpolynomial_multipliers@, self.terms@)
            % field_order()
    }

    /// Every quantity was consumed and every expected subpolynomial produced.
    pub open spec fn is_completed(&self) -> bool {
        &&& self.consumed_bits() == self.bit_distributions().len()
        &&& self.produced_terms().len() == self.multipliers().len()
        &&& self.consumed_evaluations() == self.evaluations().len()
        &&& self.challenges().len() == 0
    }

    pub fn new(
        generator_offset: usize,
        mle_evaluations: SumcheckMleEvaluations,
        bit_distributions: &'a [BitDistribution],
        subpolynomial_multipliers: &'a [Scalar],
        post_result_challenges: Vec<Scalar>,
        one_evaluation_length_queue: Vec<usize>,
    ) -> (r: Self)
        ensures
            r.wf(),
            r.offset() == generator_offset,
            r.evaluations() == mle_evaluations.pcs_proof_evaluations@,
            r.one_evaluations() == mle_evaluations.one_evaluations@,
            r.random_evaluation() == mle_evaluations.random_evaluation@,
            r.bit_distributions() == bit_distributions@,
            r.multipliers() == subpolynomial_multipliers@,
            r.challenges() == post_result_challenges@,
            r.lengths() == one_evaluation_length_queue@,
            r.consumed_bits() == 0,
            r.consumed_lengths() == 0,
            r.consumed_evaluations() == 0,
            r.produced_terms() == Seq::<int>::empty(),
            r.accumulated() == 0,
    {
        let zero = Scalar::zero();
        proof {
            assert(0int % field_order() == 0);
        }
        VerificationBuilder {
            mle_evaluations,
            generator_offset,
            subpolynomial_multipliers,
            sumcheck_evaluation: zero,
            bit_distributions,
            consumed_bit_distributions: 0,
            consumed_one_evaluations: 0,
            consumed_pcs_proof_mles: 0,
            produced_subpolynomials: 0,
            post_result_challenges,
            one_evaluation_length_queue,
            terms: Ghost(Seq::empty()),
        }
    }

    /// The inputs of the pass are those of `o`.
    pub open spec fn same_inputs(&self, o: &Self) -> bool {
        &&& self.offset() == o.offset()
        &&& self.evaluations() == o.evaluations()
        &&& self.one_evaluations() == o.one_evaluations()
        &&& self.random_evaluation() == o.random_evaluation()
        &&& self.multipliers() == o.multipliers()
        &&& self.bit_distributions() == o.bit_distributions()
        &&& self.lengths() == o.lengths()
    }

    /// Only the cursor over the lengths and the challenge stack may differ from `o`.
    pub open spec fn same_production(&self, o: &Self) -> bool {
        &&& self.same_inputs(o)
        &&& self.accumulated() == o.accumulated()
        &&& self.produced_terms() == o.produced_terms()
        &&& self.consumed_bits() == o.consumed_bits()
        &&& self.consumed_evaluations() == o.consumed_evaluations()
    }

    /// Consumes the next prefix-indicator length and returns its evaluation.
    pub fn consume_one_evaluation(&mut self) -> (r: Result<Scalar, ProofError>)
        requires
            old(self).wf(),
        ensures
            final(self).wf(),
            final(self).same_production(old(self)),
            final(self).challenges() == old(self).challenges(),
            old(self).consumed_lengths() < old(self).lengths().len() ==> {
                let length = old(self).lengths()[old(self).consumed_lengths() as int];
                &&& final(self).consumed_lengths() == old(self).consumed_lengths() + 1
                &&& (old(self).one_evaluations().contains_key(length) ==> r == Ok::<Scalar, ProofError>(
                    old(self).one_evaluations()[length],
                ))
                &&& (!old(self).one_evaluations().contains_key(length) ==> r == Err::<Scalar, ProofError>(
                    ProofError::LookupFailure,
                ))
            },
            old(self).consumed_lengths() >= old(self).lengths().len() ==> {
                &&& final(self).consumed_lengths() == old(self).consumed_lengths()
                &&& r == Err::<Scalar, ProofError>(ProofError::MalformedProof)
            },
    {
        broadcast use group_hash_axioms;

        let index = self.consumed_one_evaluations;
        if index >= self.one_evaluation_length_queue.len() {
            return Err(ProofError::MalformedProof);
        }
        let length = self.one_evaluation_length_queue[index];
        self.consumed_one_evaluations = index + 1;
        match self.mle_evaluations.one_evaluations.get(&length) {
            Some(v) => Ok(*v),
            None => Err(ProofError::LookupFailure),
        }
    }

    pub fn generator_offset(&self) -> (r: usize)
        ensures
            r == self.offset(),
    {
        self.generator_offset
    }

    /// Consumes the next commitment-checked evaluation.
    pub fn consume_mle_evaluation(&mut self) -> (r: Result<Scalar, ProofError>)
        requires
            old(self).wf(),
        ensures
            final(self).wf(),
            final(self).same_inputs(old(self)),
            final(self).accumulated() == old(self).accumulated(),
            final(self).produced_terms() == old(self).produced_terms(),
            final(self).consumed_bits() == old(self).consumed_bits(),
            final(self).consumed_lengths() == old(self).consumed_lengths(),
            final(self).challenges() == old(self).challenges(),
            old(self).consumed_evaluations() < old(self).evaluations().len() ==> {
                &&& final(self).consumed_evaluations() == old(self).consumed_evaluations() + 1
                &&& r == Ok::<Scalar, ProofError>(old(self).evaluations()[old(self).consumed_evaluations() as int])
            },
            old(self).consumed_evaluations() >= old(self).evaluations().len() ==> {
                &&& final(self).consumed_evaluations() == old(self).consumed_evaluations()
                &&& r == Err::<Scalar, ProofError>(ProofError::MalformedProof)
            },
    {
        let index = self.consumed_pcs_proof_mles;
        if index >= self.mle_evaluations.pcs_proof_evaluations.len() {
            return Err(ProofError::MalformedProof);
        }
        self.consumed_pcs_proof_mles = index + 1;
        Ok(self.mle_evaluations.pcs_proof_evaluations[index])
    }

    /// Consumes the next `count` commitment-checked evaluations, in order.
    pub fn consume_mle_evaluations(&mut self, count: usize) -> (r: Result<Vec<Scalar>, ProofError>)
        requires
            old(self).wf(),
        ensures
            final(self).wf(),
            final(self).same_inputs(old(self)),
            final(self).accumulated() == old(self).accumulated(),
            final(self).produced_terms() == old(self).produced_terms(),
            final(self).consumed_bits() == old(self).consumed_bits(),
            final(self).consumed_lengths() == old(self).consumed_lengths(),
            final(self).challenges() == old(self).challenges(),
            old(self).consumed_evaluations() + count <= old(self).evaluations().len() ==> {
                let start = old(self).consumed_evaluations() as int;
                &&& final(self).consumed_evaluations() == start + count
                &&& r is Ok
                &&& r->Ok_0@ == old(self).evaluations().subrange(start, start + count)
            },
            old(self).consumed_evaluations() + count > old(self).evaluations().len() ==> {
                &&& final(self).consumed_evaluations() == old(self).consumed_evaluations()
                &&& r == Err::<Vec<Scalar>, ProofError>(ProofError::MalformedProof)
            },
    {
        if count > self.mle_evaluations.pcs_proof_evaluations.len() - self.consumed_pcs_proof_mles {
            return Err(ProofError::MalformedProof);
        }
        let ghost start = self.consumed_pcs_proof_mles as int;
        let mut res: Vec<Scalar> = Vec::new();
        let mut i: usize = 0;
        while i < count
            invariant
                self.wf(),
                self.same_inputs(old(self)),
                self.accumulated() == old(self).accumulated(),
                self.produced_terms() == old(self).produced_terms(),
                self.consumed_bits() == old(self).consumed_bits(),
                self.consumed_lengths() == old(self).consumed_lengths(),
                self.challenges() == old(self).challenges(),
                start == old(self).consumed_evaluations(),
                start + count <= self.evaluations().len(),
                i <= count,
                self.consumed_evaluations() == start + i,
                res@ == self.evaluations().subrange(start, start + i),
            decreases count - i,
        {
            let v = self.consume_mle_evaluation();
            match v {
                Ok(v) => {
                    res.push(v);
                },
                Err(e) => {
                    return Err(e);
                },
            }
            proof {
                assert(res@ =~= self.evaluations().subrange(start, start + i + 1));
            }
            i = i + 1;
        }
        Ok(res)
    }

    /// Consumes the next bit distribution.
    pub fn consume_bit_distribution(&mut self) -> (r: Result<BitDistribution, ProofError>)
        requires
            old(self).wf(),
        ensures
            final(self).wf(),
            final(self).same_inputs(old(self)),
            final(self).accumulated() == old(self).accumulated(),
            final(self).produced_terms() == old(self).produced_terms(),
            final(self).consumed_evaluations() == old(self).consumed_evaluations(),
            final(self).consumed_lengths() == old(self).consumed_lengths(),
            final(self).challenges() == old(self).challenges(),
            old(self).consumed_bits() < old(self).bit_distributions().len() ==> {
                &&& final(self).consumed_bits() == old(self).consumed_bits() + 1
                &&& r == Ok::<BitDistribution, ProofError>(old(self).bit_distributions()[old(self).consumed_bits() as int])
            },
            old(self).consumed_bits() >= old(self).bit_distributions().len() ==> {
                &&& final(self).consumed_bits() == old(self).consumed_bits()
                &&& r == Err::<BitDistribution, ProofError>(ProofError::MalformedProof)
            },
    {
        let index = self.consumed_bit_distributions;
        if index >= self.bit_distributions.len() {
            return Err(ProofError::MalformedProof);
        }
        self.consumed_bit_distributions = index + 1;
        Ok(self.bit_distributions[index])
    }

    /// Adds the evaluation of the next subpolynomial, weighted by its
    /// multiplier, to the running sumcheck value.
    pub fn produce_sumcheck_subpolynomial_evaluation(
        &mut self,
        subpolynomial_type: SumcheckSubpolynomialType,
        eval: Scalar,
    ) -> (r: Result<(), ProofError>)
        requires
            old(self).wf(),
        ensures
            final(self).wf(),
            final(self).same_inputs(old(self)),
            final(self).consumed_bits() == old(self).consumed_bits(),
            final(self).consumed_evaluations() == old(self).consumed_evaluations(),
            final(self).consumed_lengths() == old(self).consumed_lengths(),
            final(self).challenges() == old(self).challenges(),
            old(self).produced_terms().len() < old(self).multipliers().len() ==> {
                let t = weighted_term(subpolynomial_type, eval@, old(self).random_evaluation());
                &&& r is Ok
                &&& final(self).produced_terms() == old(self).produced_terms().push(t)
                &&& final(self).accumulated() == (old(self).accumulated()
                    + old(self).multipliers()[old(self).produced_terms().len() as int]@ * t) % field_order()
            },
            old(self).produced_terms().len() >= old(self).multipliers().len() ==> {
                &&& r == Err::<(), ProofError>(ProofError::MalformedProof)
                &&& final(self).produced_terms() == old(self).produced_terms()
                &&& final(self).accumulated() == old(self).accumulated()
            },
    {
        let k = self.produced_subpolynomials;
        if k >= self.subpolynomial_multipliers.len() {
            return Err(ProofError::MalformedProof);
        }
        let weighted = match subpolynomial_type {
            SumcheckSubpolynomialType::Identity => eval.mul(&self.mle_evaluations.random_evaluation),
            SumcheckSubpolynomialType::ZeroSum => eval,
        };
        let product = self.subpolynomial_multipliers[k].mul(&weighted);
        let sum = self.sumcheck_evaluation.add(&product);
        let ghost t = weighted_term(subpolynomial_type, eval@, self.random_evaluation());
        let ghost m = self.subpolynomial_multipliers@[k as int]@;
        let ghost acc = self.sumcheck_evaluation@;
        proof {
            let p = field_order();
            let prev = weighted_sum(self.subpolynomial_multipliers@, self.terms@);
            lemma_mul_mod_noop_right(m, t, p);
            lemma_mod_twice(prev, p);
            lemma_add_mod_noop(prev, m * t, p);
            lemma_add_mod_noop(acc, m * t, p);
            assert(self.terms@.push(t).drop_last() =~= self.terms@);
        }
        self.sumcheck_evaluation = sum;
        self.produced_subpolynomials = k + 1;
        self.terms = Ghost(self.terms@.push(t));
        Ok(())
    }

    /// The reconstructed sumcheck value, once the pass is complete.
    pub fn sumcheck_evaluation(&self) -> (r: Result<Scalar, ProofError>)
        requires
            self.wf(),
        ensures
            self.is_completed() ==> r is Ok && r->Ok_0@ == self.accumulated(),
            !self.is_completed() ==> r == Err::<Scalar, ProofError>(ProofError::IncompleteProof),
    {
        if self.completed() {
            Ok(self.sumcheck_evaluation)
        } else {
            Err(ProofError::IncompleteProof)
        }
    }

    /// Whether every quantity was consumed and every subpolynomial produced.
    fn completed(&self) -> (r: bool)
        requires
            self.wf(),
        ensures
            r == self.is_completed(),
    {
        self.consumed_bit_distributions == self.bit_distributions.len()
            && self.produced_subpolynomials == self.subpolynomial_multipliers.len()
            && self.consumed_pcs_proof_mles == self.mle_evaluations.pcs_proof_evaluations.len()
            && self.post_result_challenges.len() == 0
    }

    /// Pops the next post-result challenge off the stack.
    pub fn consume_post_result_challenge(&mut self) -> (r: Result<Scalar, ProofError>)
        requires
            old(self).wf(),
        ensures
            final(self).wf(),
            final(self).same_production(old(self)),
            final(self).consumed_lengths() == old(self).consumed_lengths(),
            old(self).challenges().len() > 0 ==> {
                &&& r == Ok::<Scalar, ProofError>(old(self).challenges().last())
                &&& final(self).challenges() == old(self).challenges().drop_last()
            },
            old(self).challenges().len() == 0 ==> {
                &&& r == Err::<Scalar, ProofError>(ProofError::MalformedProof)
                &&& final(self).challenges() == old(self).challenges()
            },
    {
        match self.post_result_challenges.pop() {
            Some(c) => Ok(c),
            None => Err(ProofError::MalformedProof),
        }
    }
}

/// The running value of a builder is the sum of the produced terms, each
/// weighted by its multiplier, reduced modulo the field order.
pub proof fn lemma_accumulated_value(b: VerificationBuilder)
    requires
        b.wf(),
    ensures
        b.accumulated() == weighted_sum(b.multipliers(), b.produced_terms()) % field_order(),
        b.produced_terms().len() <= b.multipliers().len(),
{
}

/// A builder with no multipliers, no evaluations, no bit distributions and
/// no challenges is complete, and its value is zero.
pub proof fn lemma_empty_instance(b: VerificationBuilder)
    requires
        b.wf(),
        b.multipliers().len() == 0,
        b.evaluations().len() == 0,
        b.bit_distributions().len() == 0,
        b.challenges().len() == 0,
    ensures
        b.is_completed(),
        b.accumulated() == 0,
{
    assert(0int % field_order() == 0);
}

/// Two zero-sum evaluations `e0`, `e1` produced in order under the
/// multipliers `m0`, `m1` accumulate to `m0 * e0 + m1 * e1`.
pub proof fn lemma_two_zero_sum_terms(
    b: VerificationBuilder,
    m0: Scalar,
    m1: Scalar,
    e0: Scalar,
    e1: Scalar,
)
    requires
        b.wf(),
        b.multipliers() == seq![m0, m1],
        b.produced_terms() == seq![
            weighted_term(SumcheckSubpolynomialType::ZeroSum, e0@, b.random_evaluation()),
            weighted_term(SumcheckSubpolynomialType::ZeroSum, e1@, b.random_evaluation()),
        ],
    ensures
        b.accumulated() == (m0@ * e0@ + m1@ * e1@) % field_order(),
{
    let m = b.multipliers();
    let t = b.produced_terms();
    let t1 = t.drop_last();
    assert(t1.drop_last() =~= Seq::<int>::empty());
    assert(t1.len() == 1 && t1.last() == e0@ && m[0] == m0);
    assert(weighted_sum(m, t1.drop_last()) == 0);
    assert(weighted_sum(m, t1) == m0@ * e0@);
    assert(t.last() == e1@ && m[1] == m1);
}

} // verus!
