//! The unified constraint evaluator.
//!
//! For one table and one proof instance, the evaluator produces the numeric
//! values of every constraint: the table's own execution constraints (one
//! base-field value per declared identity per row) and the permutation
//! constraints of the running-sum argument (one extension value per batch per
//! row: the batch column's step minus the recomputed per-row terms, with no
//! carried value at row zero). On an honestly generated permutation trace all
//! permutation constraint values vanish; the last row of the running-sum
//! column is exposed as the table's cumulative sum.

use vstd::prelude::*;

use crate::chip::Chip;
use crate::chip::LookupError;
use crate::chip::TableOp;
use crate::expr::Expr;
use crate::ext::ExtFelt;
use crate::ext::ssub;
use crate::ext::szero;
use crate::field::Felt;
use crate::permutation::INTERACTION_BATCH_SIZE;
use crate::permutation::num_batches_spec;
use crate::trace::MainTrace;
use crate::trace::PermTrace;

verus! {

/// The algebraic identities a table's logic declares, in declaration order.
pub open spec fn assert_exprs(ops: Seq<TableOp>) -> Seq<Expr>
    decreases ops.len(),
{
    if ops.len() == 0 {
        Seq::empty()
    } else {
        assert_exprs(ops.drop_last()) + (match ops.last() {
            TableOp::Assert(e) => seq![e],
            _ => Seq::empty(),
        })
    }
}

/// Declared identities inherit well-formedness from the table's operations.
pub proof fn lemma_asserts_inherit(ops: Seq<TableOp>, pw: nat, mw: nat)
    requires
        forall|i: int| 0 <= i < ops.len() ==> (#[trigger] ops[i]).wf(pw, mw),
    ensures
        forall|k: int|
            0 <= k < assert_exprs(ops).len() ==> (#[trigger] assert_exprs(ops)[k]).wf(pw, mw),
    decreases ops.len(),
{
    if ops.len() > 0 {
        let prefix = ops.drop_last();
        assert forall|i: int| 0 <= i < prefix.len() implies (#[trigger] prefix[i]).wf(pw, mw) by {
            assert(prefix[i] == ops[i]);
        }
        lemma_asserts_inherit(prefix, pw, mw);
        assert(ops[ops.len() - 1] == ops.last());
        assert forall|k: int|
            0 <= k < assert_exprs(ops).len() implies (#[trigger] assert_exprs(ops)[k]).wf(
            pw,
            mw,
        ) by {
            if k < assert_exprs(prefix).len() {
                assert(assert_exprs(ops)[k] == assert_exprs(prefix)[k]);
            } else {
                assert(assert_exprs(ops)[k] == assert_exprs(ops).last());
            }
        }
    }
}

/// The evaluated constraint set of one table on one proof instance.
#[derive(Debug)]
pub struct ConstraintSet {
    /// The table's own execution-constraint values, row-major: one value per
    /// (row, declared identity).
    pub execution: Vec<Felt>,
    /// The permutation-constraint values, row-major: one value per
    /// (row, batch).
    pub permutation: Vec<ExtFelt>,
    /// The last row of the running-sum column: the table's cumulative sum.
    pub cumulative_sum: ExtFelt,
}

impl Chip {
    /// The number of algebraic identities the table declares.
    pub open spec fn n_asserts(self) -> nat {
        assert_exprs(self.table.ops@).len()
    }

    /// The value of the table's `j`-th declared identity at row `r`.
    pub open spec fn exec_constraint_at(
        self,
        preprocessed: Option<MainTrace>,
        main: MainTrace,
        r: int,
        j: int,
    ) -> int {
        assert_exprs(self.table.ops@)[j].eval(
            self.prep_row_view(preprocessed, r),
            main.row_view(r),
        )
    }

    /// The permutation constraint of batch `b` at row `r`: the step the batch
    /// column takes at row `r`, minus the recomputed sum of that row's terms.
    /// At row zero there is no prior value to carry.
    pub open spec fn perm_constraint_at(
        self,
        preprocessed: Option<MainTrace>,
        main: MainTrace,
        perm: PermTrace,
        alpha: Seq<int>,
        beta: Seq<int>,
        r: int,
        b: int,
    ) -> Seq<int> {
        if r == 0 {
            ssub(perm.at(0, b), self.batch_row_sum(preprocessed, main, alpha, beta, 0, b))
        } else {
            ssub(
                ssub(perm.at(r, b), perm.at(r - 1, b)),
                self.batch_row_sum(preprocessed, main, alpha, beta, r, b),
            )
        }
    }
}

impl Chip {
    /// Row-transition consistency: on a generated permutation trace, each
    /// batch column steps, from one row to the next, by exactly the recomputed
    /// sum of that row's interaction terms for the batch.
    pub proof fn lemma_row_transition(
        self,
        preprocessed: Option<MainTrace>,
        main: MainTrace,
        alpha: Seq<int>,
        beta: Seq<int>,
        t: PermTrace,
        r: int,
        b: int,
    )
        requires
            self.is_permutation_trace_of(preprocessed, main, alpha, beta, t),
            0 < r < main.height,
            0 <= b < num_batches_spec(self.n_itx()),
        ensures
            ssub(t.at(r, b), t.at(r - 1, b)) == self.batch_row_sum(
                preprocessed,
                main,
                alpha,
                beta,
                r,
                b,
            ),
    {
        self.lemma_batch_col_wf(preprocessed, main, alpha, beta, r - 1, b);
        self.lemma_batch_row_sum_wf(preprocessed, main, alpha, beta, r, b);
        crate::ext::lemma_sub_add_cancel(
            self.batch_col(preprocessed, main, alpha, beta, r - 1, b),
            self.batch_row_sum(preprocessed, main, alpha, beta, r, b),
        );
    }

    /// Boundary consistency: row zero of each batch column of a generated
    /// permutation trace equals the sum of row zero's interaction terms for
    /// the batch, with no carried value.
    pub proof fn lemma_boundary(
        self,
        preprocessed: Option<MainTrace>,
        main: MainTrace,
        alpha: Seq<int>,
        beta: Seq<int>,
        t: PermTrace,
        b: int,
    )
        requires
            self.is_permutation_trace_of(preprocessed, main, alpha, beta, t),
            main.height > 0,
            0 <= b < num_batches_spec(self.n_itx()),
        ensures
            t.at(0, b) == self.batch_row_sum(preprocessed, main, alpha, beta, 0, b),
    {
    }

    /// On a generated permutation trace, every permutation constraint value
    /// vanishes.
    pub proof fn lemma_generated_trace_constraints_vanish(
        self,
        preprocessed: Option<MainTrace>,
        main: MainTrace,
        alpha: Seq<int>,
        beta: Seq<int>,
        t: PermTrace,
        r: int,
        b: int,
    )
        requires
            self.is_permutation_trace_of(preprocessed, main, alpha, beta, t),
            0 <= r < main.height,
            0 <= b < num_batches_spec(self.n_itx()),
        ensures
            self.perm_constraint_at(preprocessed, main, t, alpha, beta, r, b) == szero(),
    {
        self.lemma_batch_row_sum_wf(preprocessed, main, alpha, beta, r, b);
        if r == 0 {
            self.lemma_boundary(preprocessed, main, alpha, beta, t, b);
            crate::ext::lemma_ssub_self(self.batch_row_sum(preprocessed, main, alpha, beta, 0, b));
        } else {
            self.lemma_row_transition(preprocessed, main, alpha, beta, t, r, b);
            crate::ext::lemma_ssub_self(self.batch_row_sum(preprocessed, main, alpha, beta, r, b));
        }
    }

    /// Evaluates, in order, the table's own execution constraints and then the
    /// permutation constraints, on concrete traces, and exposes the last row
    /// of the running-sum column as the cumulative sum. Fails exactly when
    /// some interaction's randomized denominator vanishes on some row.
    #[verifier::rlimit(100)]
    pub fn eval_constraints(
        &self,
        preprocessed: &Option<MainTrace>,
        main: &MainTrace,
        perm: &PermTrace,
        random_elements: &Vec<ExtFelt>,
    ) -> (res: Result<ConstraintSet, LookupError>)
        requires
            self.wf(),
            main.wf(),
            main.width == self.table.width,
            main.height >= 1,
            self.prep_matches(*preprocessed, *main),
            random_elements@.len() >= 2,
            crate::trace::ext_row_wf(random_elements@),
            perm.wf(),
            perm.height == main.height,
            perm.width == num_batches_spec(self.n_itx()) + 1,
            self.n_itx() + INTERACTION_BATCH_SIZE <= usize::MAX,
            main.height * self.n_asserts() <= usize::MAX,
            main.height * num_batches_spec(self.n_itx()) <= usize::MAX,
        ensures
            res is Ok <==> self.no_zero_denominator(
                *preprocessed,
                *main,
                random_elements@[0]@,
                random_elements@[1]@,
            ),
            res is Err ==> res->Err_0 == LookupError::ZeroDenominator,
            res is Ok ==> ({
                let cs = res->Ok_0;
                let alpha = random_elements@[0]@;
                let beta = random_elements@[1]@;
                let na = self.n_asserts() as int;
                let nb = num_batches_spec(self.n_itx()) as int;
                &&& cs.execution@.len() == main.height * na
                &&& forall|r: int, j: int|
                    0 <= r < main.height && 0 <= j < na ==> (#[trigger] cs.execution@[r * na + j])@
                        == self.exec_constraint_at(*preprocessed, *main, r, j)
                &&& cs.permutation@.len() == main.height * nb
                &&& forall|r: int, b: int|
                    0 <= r < main.height && 0 <= b < nb ==> (#[trigger] cs.permutation@[r * nb
                        + b])@ == self.perm_constraint_at(
                        *preprocessed,
                        *main,
                        *perm,
                        alpha,
                        beta,
                        r,
                        b,
                    )
                &&& cs.cumulative_sum@ == perm.at(main.height - 1, nb)
            }),
    {
        let ghost galpha = random_elements@[0]@;
        let ghost gbeta = random_elements@[1]@;
        let alpha = random_elements[0];
        let beta = random_elements[1];
        let n = self.sends.len() + self.receives.len();
        let nb = (n + INTERACTION_BATCH_SIZE - 1) / INTERACTION_BATCH_SIZE;
        let height = main.rows();
        let ghost na = self.n_asserts() as int;
        proof {
            assert(nb == num_batches_spec(self.n_itx()));
            self.lemma_interactions_wf();
        }
        let mut execution: Vec<Felt> = Vec::new();
        let mut r: usize = 0;
        #[verifier::loop_isolation(false)]
        while r < height
            invariant
                r <= height,
                execution@.len() == r * na,
                crate::expr::row_wf(execution@),
                forall|r2: int, j: int|
                    0 <= r2 < r && 0 <= j < na ==> (#[trigger] execution@[r2 * na + j])@
                        == self.exec_constraint_at(*preprocessed, *main, r2, j),
            decreases height - r,
        {
            let prep_row: Vec<Felt> = match preprocessed {
                Option::Some(p) => p.row(r),
                Option::None => Vec::new(),
            };
            let main_row = main.row(r);
            proof {
                assert(crate::expr::felts_view(prep_row@) =~= self.prep_row_view(
                    *preprocessed,
                    r as int,
                ));
            }
            let ghost exec_before = execution@;
            let ops_len = self.table.ops.len();
            let mut o: usize = 0;
            #[verifier::loop_isolation(false)]
            while o < ops_len
                invariant
                    o <= ops_len,
                    execution@ == exec_before + assert_exprs(self.table.ops@.take(o as int))
                        .map_values(
                        |e: Expr|
                            Felt {
                                value: (e.eval(
                                    self.prep_row_view(*preprocessed, r as int),
                                    main.row_view(r as int),
                                )) as u32,
                            },
                    ),
                    crate::expr::row_wf(execution@),
                decreases ops_len - o,
            {
                proof {
                    assert(self.table.ops@.take(o as int + 1).drop_last() =~= self.table.ops@.take(
                        o as int,
                    ));
                    assert(self.table.ops@.take(o as int + 1).last() == self.table.ops@[o as int]);
                }
                match &self.table.ops[o] {
                    TableOp::Assert(e) => {
                        let v = crate::expr::eval_expr(e, &prep_row, &main_row);
                        execution.push(v);
                        proof {
                            assert(v == (Felt {
                                value: (e.eval(
                                    self.prep_row_view(*preprocessed, r as int),
                                    main.row_view(r as int),
                                )) as u32,
                            }));
                            assert(assert_exprs(self.table.ops@.take(o as int + 1))
                                =~= assert_exprs(self.table.ops@.take(o as int)) + seq![*e]);
                            assert(execution@ =~= exec_before + assert_exprs(
                                self.table.ops@.take(o as int + 1),
                            ).map_values(
                                |e2: Expr|
                                    Felt {
                                        value: (e2.eval(
                                            self.prep_row_view(*preprocessed, r as int),
                                            main.row_view(r as int),
                                        )) as u32,
                                    },
                            ));
                        }
                    },
                    TableOp::Send(_) => {
                        proof {
                            assert(assert_exprs(self.table.ops@.take(o as int + 1))
                                =~= assert_exprs(self.table.ops@.take(o as int)));
                        }
                    },
                    TableOp::Receive(_) => {
                        proof {
                            assert(assert_exprs(self.table.ops@.take(o as int + 1))
                                =~= assert_exprs(self.table.ops@.take(o as int)));
                        }
                    },
                }
                o += 1;
            }
            proof {
                assert(self.table.ops@.take(ops_len as int) =~= self.table.ops@);
                assert(execution@.len() == (r + 1) * na) by (nonlinear_arith)
                    requires
                        execution@.len() == r * na + na,
                ;
                assert forall|r2: int, j: int|
                    0 <= r2 < r + 1 && 0 <= j < na implies (#[trigger] execution@[r2 * na + j])@
                    == self.exec_constraint_at(*preprocessed, *main, r2, j) by {
                    crate::trace::lemma_rc_index(na, r as int + 1, r2, j);
                    if r2 < r {
                        crate::trace::lemma_rc_index(na, r as int, r2, j);
                        assert(execution@[r2 * na + j] == exec_before[r2 * na + j]);
                    } else {
                        assert(r2 * na + j == exec_before.len() + j);
                        lemma_asserts_inherit(
                            self.table.ops@,
                            self.table.preprocessed_width as nat,
                            self.table.width as nat,
                        );
                        let e = assert_exprs(self.table.ops@)[j];
                        let pv = self.prep_row_view(*preprocessed, r as int);
                        let mv = main.row_view(r as int);
                        main.lemma_row_view_canonical(r as int);
                        if preprocessed is Some {
                            preprocessed->Some_0.lemma_row_view_canonical(r as int);
                        }
                        crate::expr::lemma_eval_canonical(
                            e,
                            pv,
                            mv,
                            self.table.preprocessed_width as nat,
                            self.table.width as nat,
                        );
                    }
                }
            }
            r += 1;
        }
        let mut permutation: Vec<ExtFelt> = Vec::new();
        let mut r1: usize = 0;
        #[verifier::loop_isolation(false)]
        while r1 < height
            invariant
                r1 <= height,
                permutation@.len() == r1 * nb,
                crate::trace::ext_row_wf(permutation@),
                forall|r2: int, b: int|
                    0 <= r2 < r1 && 0 <= b < nb ==> (#[trigger] permutation@[r2 * nb + b])@
                        == self.perm_constraint_at(
                        *preprocessed,
                        *main,
                        *perm,
                        galpha,
                        gbeta,
                        r2,
                        b,
                    ),
                forall|r2: int, i: int|
                    0 <= r2 < r1 && 0 <= i < n ==> #[trigger] self.denom_at(
                        *preprocessed,
                        *main,
                        galpha,
                        gbeta,
                        r2,
                        i,
                    ) != szero(),
            decreases height - r1,
        {
            let prep_row: Vec<Felt> = match preprocessed {
                Option::Some(p) => p.row(r1),
                Option::None => Vec::new(),
            };
            let main_row = main.row(r1);
            proof {
                assert(crate::expr::felts_view(prep_row@) =~= self.prep_row_view(
                    *preprocessed,
                    r1 as int,
                ));
            }
            let ghost perm_before = permutation@;
            let mut b: usize = 0;
            #[verifier::loop_isolation(false)]
            while b < nb
                invariant
                    b <= nb,
                    r1 < height,
                    permutation@.len() == r1 * nb + b,
                    crate::trace::ext_row_wf(permutation@),
                    forall|k: int|
                        0 <= k < perm_before.len() ==> permutation@[k] == #[trigger] perm_before[k],
                    forall|b2: int|
                        0 <= b2 < b ==> (#[trigger] permutation@[r1 * nb + b2])@
                            == self.perm_constraint_at(
                            *preprocessed,
                            *main,
                            *perm,
                            galpha,
                            gbeta,
                            r1 as int,
                            b2,
                        ),
                    forall|i: int|
                        0 <= i < b * INTERACTION_BATCH_SIZE && i < n ==> #[trigger] self.denom_at(
                            *preprocessed,
                            *main,
                            galpha,
                            gbeta,
                            r1 as int,
                            i,
                        ) != szero(),
                decreases nb - b,
            {
                let lo = b * INTERACTION_BATCH_SIZE;
                let hi = if n - lo < INTERACTION_BATCH_SIZE {
                    n
                } else {
                    lo + INTERACTION_BATCH_SIZE
                };
                let mut batch_sum = ExtFelt::zero();
                let mut i = lo;
                #[verifier::loop_isolation(false)]
                while i < hi
                    invariant
                        lo <= i <= hi,
                        batch_sum.wf(),
                        batch_sum@ == self.terms_sum(
                            *preprocessed,
                            *main,
                            galpha,
                            gbeta,
                            r1 as int,
                            lo as int,
                            i as int,
                        ),
                        forall|i2: int|
                            lo <= i2 < i ==> #[trigger] self.denom_at(
                                *preprocessed,
                                *main,
                                galpha,
                                gbeta,
                                r1 as int,
                                i2,
                            ) != szero(),
                    decreases hi - i,
                {
                    let is_send = i < self.sends.len();
                    let itx = if is_send {
                        &self.sends[i]
                    } else {
                        &self.receives[i - self.sends.len()]
                    };
                    proof {
                        assert(*itx == self.itx_at(i as int));
                        assert(itx.wf(prep_row@.len() as nat, main_row@.len() as nat));
                    }
                    match crate::permutation::eval_term(
                        itx,
                        is_send,
                        &prep_row,
                        &main_row,
                        &alpha,
                        &beta,
                    ) {
                        Option::None => {
                            proof {
                                assert(self.denom_at(
                                    *preprocessed,
                                    *main,
                                    galpha,
                                    gbeta,
                                    r1 as int,
                                    i as int,
                                ) == szero());
                                assert(!self.no_zero_denominator(
                                    *preprocessed,
                                    *main,
                                    galpha,
                                    gbeta,
                                ));
                            }
                            return Err(LookupError::ZeroDenominator);
                        },
                        Option::Some(t) => {
                            batch_sum = batch_sum.add(t);
                        },
                    }
                    i += 1;
                }
                proof {
                    assert(batch_sum@ == self.batch_row_sum(
                        *preprocessed,
                        *main,
                        galpha,
                        gbeta,
                        r1 as int,
                        b as int,
                    ));
                    crate::trace::lemma_rc_index(nb as int, height as int, r1 as int, b as int);
                }
                let v: ExtFelt = if r1 == 0 {
                    perm.get(0, b).sub(batch_sum)
                } else {
                    perm.get(r1, b).sub(perm.get(r1 - 1, b)).sub(batch_sum)
                };
                permutation.push(v);
                b += 1;
            }
            proof {
                assert(permutation@.len() == (r1 + 1) * nb) by (nonlinear_arith)
                    requires
                        permutation@.len() == r1 * nb + nb,
                ;
                assert forall|r2: int, b2: int|
                    0 <= r2 < r1 + 1 && 0 <= b2 < nb implies (#[trigger] permutation@[r2 * nb
                    + b2])@ == self.perm_constraint_at(
                    *preprocessed,
                    *main,
                    *perm,
                    galpha,
                    gbeta,
                    r2,
                    b2,
                ) by {
                    if r2 < r1 {
                        crate::trace::lemma_rc_index(nb as int, r1 as int, r2, b2);
                        assert(permutation@[r2 * nb + b2] == perm_before[r2 * nb + b2]);
                    }
                }
            }
            r1 += 1;
        }
        let cumulative_sum = perm.get(height - 1, nb);
        Ok(ConstraintSet { execution, permutation, cumulative_sum })
    }
}

} // verus!
