//! The row-window operator (`LIMIT <fetch> OFFSET <skip>`): a contiguous
//! selection of rows, proved through the row-filtering argument.
use crate::final_round_builder::FinalRoundBuilder;
use crate::first_round_builder::FirstRoundBuilder;
use crate::scalar::{field_order, Scalar};
use crate::verification_builder::{ProofError, VerificationBuilder};
use vstd::prelude::*;

verus! {

/// The first selected row: `min(skip, n)`.
pub open spec fn window_start(n: int, skip: int) -> int {
    if skip < n {
        skip
    } else {
        n
    }
}

/// One past the last selected row: `min(skip + fetch, n)`, or `n` without `fetch`.
pub open spec fn window_end(n: int, skip: int, fetch: Option<usize>) -> int {
    match fetch {
        Some(f) => if skip + f < n {
            skip + f
        } else {
            n
        },
        None => n,
    }
}

/// The number of `true` entries.
pub open spec fn count_true(s: Seq<bool>) -> nat
    decreases s.len(),
{
    if s.len() == 0 {
        0
    } else {
        count_true(s.drop_last()) + if s.last() {
            1nat
        } else {
            0nat
        }
    }
}

/// The entries of `c` at the positions where `s` is `true`, in order.
pub open spec fn select_rows(c: Seq<Scalar>, s: Seq<bool>) -> Seq<Scalar>
    decreases c.len(),
{
    if c.len() == 0 || s.len() < c.len() {
        Seq::empty()
    } else {
        let prev = select_rows(c.drop_last(), s);
        if s[c.len() - 1] {
            prev.push(c.last())
        } else {
            prev
        }
    }
}

/// The bounds of the window over `num_rows` rows: `(offset_index, max_index)`.
pub fn slice_bounds(num_rows: usize, skip: usize, fetch: Option<usize>) -> (r: (usize, usize))
    ensures
        r.0 == window_start(num_rows as int, skip as int),
        r.1 == window_end(num_rows as int, skip as int, fetch),
        r.0 <= r.1 <= num_rows,
{
    let offset_index = if skip < num_rows {
        skip
    } else {
        num_rows
    };
    let max_index = match fetch {
        Some(f) => if skip < num_rows && f < num_rows - skip {
            skip + f
        } else {
            num_rows
        },
        None => num_rows,
    };
    (offset_index, max_index)
}

/// The selection vector of the window: `true` exactly at the rows
/// `offset_index <= i < max_index`.
pub fn get_slice_select(num_rows: usize, skip: usize, fetch: Option<usize>) -> (r: Vec<bool>)
    ensures
        r@.len() == num_rows,
        forall|i: int|
            0 <= i < num_rows ==> #[trigger] r@[i] == (window_start(num_rows as int, skip as int)
                <= i < window_end(num_rows as int, skip as int, fetch)),
        count_true(r@) == window_end(num_rows as int, skip as int, fetch) - window_start(
            num_rows as int,
            skip as int,
        ),
{
    let (lo, hi) = slice_bounds(num_rows, skip, fetch);
    let mut select: Vec<bool> = Vec::new();
    let mut i: usize = 0;
    while i < num_rows
        invariant
            lo <= hi <= num_rows,
            i <= num_rows,
            select@.len() == i,
            forall|j: int| 0 <= j < i ==> #[trigger] select@[j] == (lo <= j < hi),
            count_true(select@) == if i <= lo {
                0
            } else if i <= hi {
                i - lo
            } else {
                hi - lo
            },
        decreases num_rows - i,
    {
        let b = lo <= i && i < hi;
        let ghost before = select@;
        select.push(b);
        proof {
            assert(select@.drop_last() =~= before);
        }
        i = i + 1;
    }
    select
}

/// Keeps the entries of `column` where `select` is `true`, in order.
pub fn filter_column(column: &Vec<Scalar>, select: &Vec<bool>) -> (r: Vec<Scalar>)
    requires
        column@.len() <= select@.len(),
    ensures
        r@ == select_rows(column@, select@),
{
    let mut out: Vec<Scalar> = Vec::new();
    let mut i: usize = 0;
    while i < column.len()
        invariant
            i <= column@.len() <= select@.len(),
            out@ == select_rows(column@.take(i as int), select@),
        decreases column@.len() - i,
    {
        proof {
            let next = column@.take(i + 1);
            assert(next.drop_last() =~= column@.take(i as int));
        }
        if select[i] {
            out.push(column[i]);
        }
        i = i + 1;
    }
    proof {
        assert(column@.take(column@.len() as int) =~= column@);
    }
    out
}

/// Selecting the rows of a window keeps exactly the rows inside it.
pub proof fn lemma_select_window(c: Seq<Scalar>, s: Seq<bool>, lo: int, hi: int)
    requires
        0 <= lo <= hi <= c.len() == s.len(),
        forall|i: int| 0 <= i < s.len() ==> #[trigger] s[i] == (lo <= i < hi),
    ensures
        select_rows(c, s) == c.subrange(lo, hi),
{
    lemma_select_prefix(c, s, lo, hi);
}

/// `lemma_select_window` on a prefix of the selection.
proof fn lemma_select_prefix(c: Seq<Scalar>, s: Seq<bool>, lo: int, hi: int)
    requires
        0 <= lo <= hi <= c.len() <= s.len(),
        forall|i: int| 0 <= i < c.len() ==> #[trigger] s[i] == (lo <= i < hi),
    ensures
        select_rows(c, s) == c.subrange(lo, hi),
    decreases c.len(),
{
    if c.len() == 0 {
        assert(c.subrange(lo, hi) =~= Seq::<Scalar>::empty());
    } else {
        let k = c.len() - 1;
        let p = c.drop_last();
        lemma_select_prefix(p, s, if lo < k { lo } else { k }, if hi < k { hi } else { k });
        if s[k] {
            assert(c.subrange(lo, hi) =~= p.subrange(lo, k).push(c.last()));
        } else if k < lo {
            assert(c.subrange(lo, hi) =~= p.subrange(k, k));
        } else {
            assert(c.subrange(lo, hi) =~= p.subrange(lo, hi));
        }
    }
}

/// The first rejection that the verifier's pass of a window meets on a
/// builder in state `b`, with `k` input columns; `None` where it meets none.
pub open spec fn slice_error(b: VerificationBuilder, k: nat) -> Option<ProofError> {
    let c = b.consumed_lengths() as int;
    let n = b.lengths().len();
    if c >= n {
        Some(ProofError::MalformedProof)
    } else if !b.one_evaluations().contains_key(b.lengths()[c]) {
        Some(ProofError::LookupFailure)
    } else if c + 1 >= n {
        Some(ProofError::MalformedProof)
    } else if !b.one_evaluations().contains_key(b.lengths()[c + 1]) {
        Some(ProofError::LookupFailure)
    } else if c + 2 >= n {
        Some(ProofError::MalformedProof)
    } else if !b.one_evaluations().contains_key(b.lengths()[c + 2]) {
        Some(ProofError::LookupFailure)
    } else if b.consumed_evaluations() + k > b.evaluations().len() {
        Some(ProofError::MalformedProof)
    } else if b.challenges().len() < 2 {
        Some(ProofError::MalformedProof)
    } else {
        None
    }
}

/// Column-major rows produced by one evaluation pass.
pub struct Table {
    pub columns: Vec<Vec<Scalar>>,
    pub num_rows: usize,
}

impl Table {
    /// The columns, as sequences of values.
    pub open spec fn view_columns(&self) -> Seq<Seq<Scalar>> {
        self.columns@.map_values(|c: Vec<Scalar>| c@)
    }

    /// Every column has one entry per row.
    pub open spec fn wf(&self) -> bool {
        forall|j: int| 0 <= j < self.columns@.len() ==> #[trigger] self.columns@[j]@.len() == self.num_rows
    }
}

/// The verifier's claimed evaluations of a table's columns, and of its
/// prefix indicator.
pub struct TableEvaluation {
    pub column_evals: Vec<Scalar>,
    pub one_eval: Scalar,
}

/// What the row-filtering argument is handed to check: that the output
/// columns are the input columns restricted to the selection.
pub struct FilterClaim {
    pub alpha: Scalar,
    pub beta: Scalar,
    pub input_one_eval: Scalar,
    pub output_one_eval: Scalar,
    pub input_column_evals: Vec<Scalar>,
    pub selection_eval: Scalar,
    pub output_column_evals: Vec<Scalar>,
}

/// A leaf of the plan: a table of the dataset, by its index.
pub struct TableExec {
    pub table_ref: usize,
}

/// A node of a query plan.
pub enum DynProofPlan {
    Table(TableExec),
    Slice(SliceExec),
}

/// `<plan> LIMIT <fetch> OFFSET <skip>`.
pub struct SliceExec {
    pub input: Box<DynProofPlan>,
    pub skip: usize,
    pub fetch: Option<usize>,
}

/// Copies a column.
fn copy_column(column: &Vec<Scalar>) -> (r: Vec<Scalar>)
    ensures
        r@ == column@,
{
    let mut out: Vec<Scalar> = Vec::new();
    let mut i: usize = 0;
    while i < column.len()
        invariant
            i <= column@.len(),
            out@ == column@.take(i as int),
        decreases column@.len() - i,
    {
        out.push(column[i]);
        proof {
            assert(out@ =~= column@.take(i + 1));
        }
        i = i + 1;
    }
    proof {
        assert(column@.take(column@.len() as int) =~= column@);
    }
    out
}

/// Keeps the rows of the window `lo..hi` of every column of `input`, by the
/// window's selection vector.
fn filter_window(input: &Table, select: &Vec<bool>, lo: usize, hi: usize) -> (r: Vec<Vec<Scalar>>)
    requires
        input.wf(),
        select@.len() == input.num_rows,
        lo <= hi <= input.num_rows,
        forall|i: int| 0 <= i < input.num_rows ==> #[trigger] select@[i] == (lo <= i < hi),
    ensures
        r@.len() == input.columns@.len(),
        forall|k: int| 0 <= k < r@.len() ==> #[trigger] r@[k]@ == input.columns@[k]@.subrange(lo as int, hi as int),
{
    let mut columns: Vec<Vec<Scalar>> = Vec::new();
    let mut j: usize = 0;
    while j < input.columns.len()
        invariant
            input.wf(),
            select@.len() == input.num_rows,
            lo <= hi <= input.num_rows,
            forall|i: int| 0 <= i < input.num_rows ==> #[trigger] select@[i] == (lo <= i < hi),
            j <= input.columns@.len(),
            columns@.len() == j,
            forall|k: int| 0 <= k < j ==> #[trigger] columns@[k]@ == input.columns@[k]@.subrange(lo as int, hi as int),
        decreases input.columns@.len() - j,
    {
        let filtered = filter_column(&input.columns[j], select);
        proof {
            lemma_select_window(input.columns@[j as int]@, select@, lo as int, hi as int);
        }
        columns.push(filtered);
        j = j + 1;
    }
    columns
}

/// Copies every column.
fn copy_columns(columns: &Vec<Vec<Scalar>>) -> (r: Vec<Vec<Scalar>>)
    ensures
        r@.len() == columns@.len(),
        forall|k: int| 0 <= k < r@.len() ==> #[trigger] r@[k]@ == columns@[k]@,
{
    let mut out: Vec<Vec<Scalar>> = Vec::new();
    let mut j: usize = 0;
    while j < columns.len()
        invariant
            j <= columns@.len(),
            out@.len() == j,
            forall|k: int| 0 <= k < j ==> #[trigger] out@[k]@ == columns@[k]@,
        decreases columns@.len() - j,
    {
        out.push(copy_column(&columns[j]));
        j = j + 1;
    }
    out
}

/// What the prover of the row-filtering argument is handed: the input
/// columns, the selection, the filtered columns and the two challenges.
pub struct FilterWitness {
    pub alpha: Scalar,
    pub beta: Scalar,
    pub input_columns: Vec<Vec<Scalar>>,
    pub selection: Vec<bool>,
    pub output_columns: Vec<Vec<Scalar>>,
    pub input_length: usize,
    pub output_length: usize,
}

impl SliceExec {
    /// A window of `fetch` rows (all, without it) after the first `skip` rows of `input`.
    pub fn new(input: Box<DynProofPlan>, skip: usize, fetch: Option<usize>) -> (r: Self)
        ensures
            r.input == input,
            r.skip == skip,
            r.fetch == fetch,
    {
        SliceExec { input, skip, fetch }
    }

    /// The prover's first pass over the child's output `input`: keeps the
    /// rows of the window, announces the output length, `offset_index` and
    /// `max_index` in that order, and requests two challenges.
    pub fn first_round_evaluate(&self, builder: &mut FirstRoundBuilder, input: &Table) -> (r: Table)
        requires
            input.wf(),
            old(builder).challenge_count() + 2 <= usize::MAX,
        ensures
            ({
                let lo = window_start(input.num_rows as int, self.skip as int);
                let hi = window_end(input.num_rows as int, self.skip as int, self.fetch);
                &&& r.wf()
                &&& r.num_rows == hi - lo
                &&& r.columns@.len() == input.columns@.len()
                &&& forall|j: int|
                    0 <= j < r.columns@.len() ==> #[trigger] r.columns@[j]@ == input.columns@[j]@.subrange(lo, hi)
                &&& final(builder).lengths() == old(builder).lengths().push((hi - lo) as usize).push(
                    lo as usize,
                ).push(hi as usize)
                &&& final(builder).challenge_count() == old(builder).challenge_count() + 2
            }),
    {
        let n = input.num_rows;
        let select = get_slice_select(n, self.skip, self.fetch);
        let (offset_index, max_index) = slice_bounds(n, self.skip, self.fetch);
        let output_length = max_index - offset_index;
        let columns = filter_window(input, &select, offset_index, max_index);
        builder.request_post_result_challenges(2);
        builder.produce_one_evaluation_length(output_length);
        builder.produce_one_evaluation_length(offset_index);
        builder.produce_one_evaluation_length(max_index);
        Table { columns, num_rows: output_length }
    }

    /// The verifier's pass, given the child's claimed evaluations: consumes
    /// the one-evaluations of the output length, `offset_index` and
    /// `max_index`, one evaluation per output column and two challenges, and
    /// hands them to the row-filtering argument as a claim. The window's
    /// selection evaluates to the difference of the two prefix indicators.
    pub fn verifier_evaluate(
        &self,
        builder: &mut VerificationBuilder,
        input: &TableEvaluation,
    ) -> (r: Result<FilterClaim, ProofError>)
        requires
            old(builder).wf(),
        ensures
            final(builder).wf(),
            final(builder).same_inputs(old(builder)),
            final(builder).accumulated() == old(builder).accumulated(),
            final(builder).produced_terms() == old(builder).produced_terms(),
            final(builder).consumed_bits() == old(builder).consumed_bits(),
            r is Err <==> slice_error(*old(builder), input.column_evals@.len()) is Some,
            r is Err ==> r->Err_0 == slice_error(*old(builder), input.column_evals@.len())->Some_0,
            r is Ok ==> ({
                let b = *old(builder);
                let c = b.consumed_lengths() as int;
                let e = b.consumed_evaluations() as int;
                let k = input.column_evals@.len() as int;
                let claim = r->Ok_0;
                &&& claim.output_one_eval == b.one_evaluations()[b.lengths()[c]]
                &&& claim.selection_eval@ == (b.one_evaluations()[b.lengths()[c + 2]]@
                    - b.one_evaluations()[b.lengths()[c + 1]]@) % field_order()
                &&& claim.output_column_evals@ == b.evaluations().subrange(e, e + k)
                &&& claim.alpha == b.challenges().last()
                &&& claim.beta == b.challenges().drop_last().last()
                &&& claim.input_one_eval == input.one_eval
                &&& claim.input_column_evals@ == input.column_evals@
                &&& final(builder).consumed_lengths() == c + 3
                &&& final(builder).consumed_evaluations() == e + k
                &&& final(builder).challenges() == b.challenges().drop_last().drop_last()
            }),
    {
        let output_one_eval = match builder.consume_one_evaluation() {
            Ok(v) => v,
            Err(e) => return Err(e),
        };
        let offset_one_eval = match builder.consume_one_evaluation() {
            Ok(v) => v,
            Err(e) => return Err(e),
        };
        let max_one_eval = match builder.consume_one_evaluation() {
            Ok(v) => v,
            Err(e) => return Err(e),
        };
        let selection_eval = max_one_eval.sub(&offset_one_eval);
        let output_column_evals = match builder.consume_mle_evaluations(input.column_evals.len()) {
            Ok(v) => v,
            Err(e) => return Err(e),
        };
        let alpha = match builder.consume_post_result_challenge() {
            Ok(v) => v,
            Err(e) => return Err(e),
        };
        let beta = match builder.consume_post_result_challenge() {
            Ok(v) => v,
            Err(e) => return Err(e),
        };
        Ok(FilterClaim {
            alpha,
            beta,
            input_one_eval: input.one_eval,
            output_one_eval,
            input_column_evals: copy_column(&input.column_evals),
            selection_eval,
            output_column_evals,
        })
    }

    /// The prover's final pass over the child's output `input`: keeps the
    /// rows of the window, commits each output column, consumes the two
    /// challenges it requested (the one requested last comes first), and
    /// hands the row-filtering argument what it proves.
    pub fn final_round_evaluate(
        &self,
        builder: &mut FinalRoundBuilder,
        input: &Table,
    ) -> (r: (Table, FilterWitness))
        requires
            input.wf(),
            old(builder).challenges().len() >= 2,
        ensures
            ({
                let lo = window_start(input.num_rows as int, self.skip as int);
                let hi = window_end(input.num_rows as int, self.skip as int, self.fetch);
                let k = input.columns@.len();
                &&& r.0.wf()
                &&& r.0.num_rows == hi - lo
                &&& r.0.columns@.len() == k
                &&& forall|j: int|
                    0 <= j < k ==> #[trigger] r.0.columns@[j]@ == input.columns@[j]@.subrange(lo, hi)
                &&& final(builder).committed() == old(builder).committed() + r.0.view_columns()
                &&& final(builder).challenges() == old(builder).challenges().drop_last().drop_last()
                &&& r.1.alpha == old(builder).challenges().last()
                &&& r.1.beta == old(builder).challenges().drop_last().last()
                &&& r.1.input_columns@.len() == k
                &&& forall|j: int| 0 <= j < k ==> #[trigger] r.1.input_columns@[j]@ == input.columns@[j]@
                &&& r.1.output_columns@.len() == k
                &&& forall|j: int| 0 <= j < k ==> #[trigger] r.1.output_columns@[j]@ == r.0.columns@[j]@
                &&& r.1.selection@.len() == input.num_rows
                &&& forall|i: int|
                    0 <= i < input.num_rows ==> #[trigger] r.1.selection@[i] == (lo <= i < hi)
                &&& r.1.input_length == input.num_rows
                &&& r.1.output_length == hi - lo
            }),
    {
        let n = input.num_rows;
        let select = get_slice_select(n, self.skip, self.fetch);
        let (offset_index, max_index) = slice_bounds(n, self.skip, self.fetch);
        let output_length = max_index - offset_index;
        let columns = filter_window(input, &select, offset_index, max_index);
        let ghost start = builder.committed();
        let mut j: usize = 0;
        while j < columns.len()
            invariant
                j <= columns@.len(),
                builder.challenges() == old(builder).challenges(),
                builder.committed() == start + columns@.subrange(0, j as int).map_values(
                    |c: Vec<Scalar>| c@,
                ),
            decreases columns@.len() - j,
        {
            builder.produce_intermediate_mle(copy_column(&columns[j]));
            proof {
                assert(columns@.subrange(0, j + 1).map_values(|c: Vec<Scalar>| c@) =~= columns@.subrange(
                    0,
                    j as int,
                ).map_values(|c: Vec<Scalar>| c@).push(columns@[j as int]@));
            }
            j = j + 1;
        }
        let alpha = builder.consume_post_result_challenge();
        let beta = builder.consume_post_result_challenge();
        let table = Table { columns: copy_columns(&columns), num_rows: output_length };
        proof {
            assert(columns@.subrange(0, columns@.len() as int) =~= columns@);
            assert(table.view_columns() =~= columns@.map_values(|c: Vec<Scalar>| c@));
        }
        let witness = FilterWitness {
            alpha,
            beta,
            input_columns: copy_columns(&input.columns),
            selection: select,
            output_columns: columns,
            input_length: n,
            output_length,
        };
        (table, witness)
    }
}

/// The number of window nodes in a plan.
pub open spec fn slice_count(p: DynProofPlan) -> nat
    decreases p,
{
    match p {
        DynProofPlan::Table(_) => 0,
        DynProofPlan::Slice(s) => 1 + slice_count(*s.input),
    }
}

/// Every table a plan reads is among the first `m`.
pub open spec fn refs_below(p: DynProofPlan, m: nat) -> bool
    decreases p,
{
    match p {
        DynProofPlan::Table(t) => t.table_ref < m,
        DynProofPlan::Slice(s) => refs_below(*s.input, m),
    }
}

/// The number of rows a plan outputs over the tables `ts`.
pub open spec fn plan_rows(p: DynProofPlan, ts: Seq<Table>) -> int
    decreases p,
{
    match p {
        DynProofPlan::Table(t) => ts[t.table_ref as int].num_rows as int,
        DynProofPlan::Slice(s) => {
            let n = plan_rows(*s.input, ts);
            window_end(n, s.skip as int, s.fetch) - window_start(n, s.skip as int)
        },
    }
}

/// The columns a plan outputs over the tables `ts`.
pub open spec fn plan_columns(p: DynProofPlan, ts: Seq<Table>) -> Seq<Seq<Scalar>>
    decreases p,
{
    match p {
        DynProofPlan::Table(t) => ts[t.table_ref as int].view_columns(),
        DynProofPlan::Slice(s) => {
            let n = plan_rows(*s.input, ts);
            let lo = window_start(n, s.skip as int);
            let hi = window_end(n, s.skip as int, s.fetch);
            plan_columns(*s.input, ts).map_values(|c: Seq<Scalar>| c.subrange(lo, hi))
        },
    }
}

/// The lengths a plan's first pass announces, children first.
pub open spec fn plan_lengths(p: DynProofPlan, ts: Seq<Table>) -> Seq<usize>
    decreases p,
{
    match p {
        DynProofPlan::Table(_) => Seq::empty(),
        DynProofPlan::Slice(s) => {
            let n = plan_rows(*s.input, ts);
            let lo = window_start(n, s.skip as int);
            let hi = window_end(n, s.skip as int, s.fetch);
            plan_lengths(*s.input, ts) + seq![(hi - lo) as usize, lo as usize, hi as usize]
        },
    }
}

/// Every table has one entry per row in each column.
pub open spec fn tables_wf(ts: Seq<Table>) -> bool {
    forall|i: int| 0 <= i < ts.len() ==> #[trigger] ts[i].wf()
}

impl DynProofPlan {
    /// The prover's first pass over the plan, children before parents.
    pub fn first_round_evaluate(&self, builder: &mut FirstRoundBuilder, tables: &Vec<Table>) -> (r: Table)
        requires
            tables_wf(tables@),
            refs_below(*self, tables@.len()),
            old(builder).challenge_count() + 2 * slice_count(*self) <= usize::MAX,
        ensures
            r.wf(),
            r.num_rows == plan_rows(*self, tables@),
            r.view_columns() == plan_columns(*self, tables@),
            final(builder).lengths() == old(builder).lengths() + plan_lengths(*self, tables@),
            final(builder).challenge_count() == old(builder).challenge_count() + 2 * slice_count(*self),
        decreases *self,
    {
        match self {
            DynProofPlan::Table(t) => {
                let source = &tables[t.table_ref];
                let r = Table { columns: copy_columns(&source.columns), num_rows: source.num_rows };
                proof {
                    assert(builder.lengths() =~= old(builder).lengths() + plan_lengths(*self, tables@));
                    assert(r.view_columns() =~= source.view_columns());
                    assert(tables@[t.table_ref as int].wf());
                }
                r
            },
            DynProofPlan::Slice(s) => {
                let input = s.input.first_round_evaluate(builder, tables);
                let r = s.first_round_evaluate(builder, &input);
                proof {
                    let n = input.num_rows as int;
                    let lo = window_start(n, s.skip as int);
                    let hi = window_end(n, s.skip as int, s.fetch);
                    assert(r.view_columns() =~= input.view_columns().map_values(
                        |c: Seq<Scalar>| c.subrange(lo, hi),
                    ));
                    assert(builder.lengths() =~= old(builder).lengths() + plan_lengths(*self, tables@));
                }
                r
            },
        }
    }

    /// The tables the plan reads, in the order of its traversal.
    pub fn get_table_references(&self) -> (r: Vec<usize>)
        ensures
            r@ == plan_table_refs(*self),
        decreases *self,
    {
        match self {
            DynProofPlan::Table(t) => vec![t.table_ref],
            DynProofPlan::Slice(s) => s.input.get_table_references(),
        }
    }
}

/// The tables a plan reads; a window adds none of its own.
pub open spec fn plan_table_refs(p: DynProofPlan) -> Seq<usize>
    decreases p,
{
    match p {
        DynProofPlan::Table(t) => seq![t.table_ref],
        DynProofPlan::Slice(s) => plan_table_refs(*s.input),
    }
}

impl SliceExec {
    /// The tables the window reads: those of its input.
    pub fn get_table_references(&self) -> (r: Vec<usize>)
        ensures
            r@ == plan_table_refs(*self.input),
    {
        self.input.get_table_references()
    }
}

/// Each column a plan outputs has one entry per output row.
proof fn lemma_plan_shape(p: DynProofPlan, ts: Seq<Table>)
    requires
        tables_wf(ts),
        refs_below(p, ts.len()),
    ensures
        0 <= plan_rows(p, ts),
        forall|j: int|
            0 <= j < plan_columns(p, ts).len() ==> #[trigger] plan_columns(p, ts)[j].len() == plan_rows(p, ts),
    decreases p,
{
    match p {
        DynProofPlan::Table(t) => {
            let table = ts[t.table_ref as int];
            assert(table.wf());
            assert forall|j: int| 0 <= j < plan_columns(p, ts).len() implies #[trigger] plan_columns(
                p,
                ts,
            )[j].len() == plan_rows(p, ts) by {
                assert(table.columns@[j]@.len() == table.num_rows);
            }
        },
        DynProofPlan::Slice(s) => {
            lemma_plan_shape(*s.input, ts);
            let cols = plan_columns(*s.input, ts);
            assert forall|j: int| 0 <= j < plan_columns(p, ts).len() implies #[trigger] plan_columns(
                p,
                ts,
            )[j].len() == plan_rows(p, ts) by {
                assert(cols[j].len() == plan_rows(*s.input, ts));
            }
        },
    }
}

/// A window that skips nothing and fetches everything keeps its input:
/// the same rows, the same columns.
pub proof fn lemma_full_window_is_identity(s: SliceExec, ts: Seq<Table>)
    requires
        s.skip == 0,
        s.fetch is None,
        tables_wf(ts),
        refs_below(*s.input, ts.len()),
    ensures
        plan_rows(DynProofPlan::Slice(s), ts) == plan_rows(*s.input, ts),
        plan_columns(DynProofPlan::Slice(s), ts) == plan_columns(*s.input, ts),
{
    lemma_plan_shape(*s.input, ts);
    let cols = plan_columns(*s.input, ts);
    let n = plan_rows(*s.input, ts);
    assert(plan_columns(DynProofPlan::Slice(s), ts) =~= cols) by {
        assert forall|j: int| 0 <= j < cols.len() implies #[trigger] cols[j].subrange(0, n) == cols[j] by {
            assert(cols[j].subrange(0, n) =~= cols[j]);
        }
    }
}

/// The lengths that the first pass of a window announces, in order, are the
/// ones its verifier's pass looks up: where the builder's queue holds them at
/// its cursor, with their one-evaluations, enough evaluations for the `k`
/// output columns and two challenges, the verifier's pass meets no rejection,
/// and the output one-evaluation it claims is that of the output length.
pub proof fn lemma_announced_lengths_verify(
    b: VerificationBuilder,
    n: usize,
    skip: usize,
    fetch: Option<usize>,
    k: nat,
)
    requires
        b.wf(),
        ({
            let c = b.consumed_lengths() as int;
            let lo = window_start(n as int, skip as int);
            let hi = window_end(n as int, skip as int, fetch);
            &&& c + 3 <= b.lengths().len()
            &&& b.lengths().subrange(c, c + 3) == seq![(hi - lo) as usize, lo as usize, hi as usize]
            &&& b.one_evaluations().contains_key((hi - lo) as usize)
            &&& b.one_evaluations().contains_key(lo as usize)
            &&& b.one_evaluations().contains_key(hi as usize)
        }),
        b.consumed_evaluations() + k <= b.evaluations().len(),
        b.challenges().len() >= 2,
    ensures
        slice_error(b, k) is None,
        b.lengths()[b.consumed_lengths() as int] == window_end(n as int, skip as int, fetch)
            - window_start(n as int, skip as int),
{
    let c = b.consumed_lengths() as int;
    let w = b.lengths().subrange(c, c + 3);
    assert(w[0] == b.lengths()[c]);
    assert(w[1] == b.lengths()[c + 1]);
    assert(w[2] == b.lengths()[c + 2]);
}

} // verus!
