//! The permutation (running-sum lookup) trace.
//!
//! Given a table's main (and optional preprocessed) trace and two random
//! extension-field challenges, every interaction contributes, on every row,
//! the term `multiplicity / (beta * kind + sum_i alpha^i * value_i)` — negated
//! for receives. Interactions are grouped into batches of
//! [`INTERACTION_BATCH_SIZE`]; each batch owns one column of the permutation
//! trace holding the running sum, down the rows, of that batch's per-row
//! terms, and one final column holds the running sum of all terms. The last
//! row of the final column is the table's cumulative sum.

use vstd::prelude::*;

use crate::chip::Chip;
use crate::chip::LookupError;
use crate::expr::Expr;
use crate::ext::ExtFelt;
use crate::ext::ext_inv_spec;
use crate::ext::ext_mul_spec;
use crate::ext::sadd;
use crate::ext::sneg;
use crate::ext::sone;
use crate::ext::sscale;
use crate::ext::szero;
use crate::field::Felt;
use crate::field::FIELD_PRIME;
use crate::interaction::Interaction;
use crate::trace::MainTrace;
use crate::trace::PermTrace;

verus! {

/// How many interactions share one batch column of the permutation trace.
pub const INTERACTION_BATCH_SIZE: usize = 2;

/// The number of batch columns needed for `n` interactions.
pub open spec fn num_batches_spec(n: nat) -> nat {
    ((n + INTERACTION_BATCH_SIZE - 1) / (INTERACTION_BATCH_SIZE as int)) as nat
}

/// The `i`-th power of the lookup challenge `alpha`.
pub open spec fn alpha_pow(alpha: Seq<int>, i: nat) -> Seq<int>
    decreases i,
{
    if i == 0 {
        sone()
    } else {
        ext_mul_spec(alpha_pow(alpha, (i - 1) as nat), alpha)
    }
}

/// The combination `sum_{i < n} alpha^i * vals[i]` of the first `n` tuple
/// elements into one extension element.
pub open spec fn combine_prefix(vals: Seq<int>, alpha: Seq<int>, n: nat) -> Seq<int>
    decreases n,
{
    if n == 0 {
        szero()
    } else {
        sadd(
            combine_prefix(vals, alpha, (n - 1) as nat),
            sscale(vals[n - 1], alpha_pow(alpha, (n - 1) as nat)),
        )
    }
}

/// The randomized fingerprint `beta * kind + sum_i alpha^i * vals[i]` of one
/// interaction tuple on one channel.
pub open spec fn fingerprint(kind_tag: int, vals: Seq<int>, alpha: Seq<int>, beta: Seq<int>) -> Seq<
    int,
> {
    sadd(sscale(kind_tag, beta), combine_prefix(vals, alpha, vals.len()))
}

/// The evaluated tuple of an interaction on one row.
pub open spec fn interaction_vals(itx: Interaction, prep: Seq<int>, main: Seq<int>) -> Seq<int> {
    itx.values@.map_values(|e: Expr| e.eval(prep, main))
}

/// The randomized denominator of an interaction on one row.
pub open spec fn interaction_denom(
    itx: Interaction,
    prep: Seq<int>,
    main: Seq<int>,
    alpha: Seq<int>,
    beta: Seq<int>,
) -> Seq<int> {
    fingerprint(itx.kind.tag_spec(), interaction_vals(itx, prep, main), alpha, beta)
}

/// The per-row term of an interaction: its multiplicity times the inverse of
/// its denominator, negated for receives.
pub open spec fn interaction_term(
    itx: Interaction,
    is_send: bool,
    prep: Seq<int>,
    main: Seq<int>,
    alpha: Seq<int>,
    beta: Seq<int>,
) -> Seq<int> {
    let m = itx.multiplicity.eval(prep, main);
    let t = sscale(m, ext_inv_spec(interaction_denom(itx, prep, main, alpha, beta)));
    if is_send {
        t
    } else {
        sneg(t)
    }
}

impl Chip {
    /// The number of interactions of the chip, sends first.
    pub open spec fn n_itx(self) -> nat {
        self.sends@.len() + self.receives@.len()
    }

    /// The `i`-th interaction of the chip, sends first, receives after.
    pub open spec fn itx_at(self, i: int) -> Interaction {
        if i < self.sends@.len() {
            self.sends@[i]
        } else {
            self.receives@[i - self.sends@.len()]
        }
    }

    /// Whether the `i`-th interaction is a send.
    pub open spec fn is_send_at(self, i: int) -> bool {
        i < self.sends@.len()
    }

    /// The preprocessed row the chip's expressions read at row `r`: the row of
    /// the preprocessed trace when there is one, the empty row otherwise.
    pub open spec fn prep_row_view(self, preprocessed: Option<MainTrace>, r: int) -> Seq<int> {
        match preprocessed {
            Option::Some(p) => p.row_view(r),
            Option::None => Seq::empty(),
        }
    }

    /// The preprocessed trace fits the chip and the main trace.
    pub open spec fn prep_matches(self, preprocessed: Option<MainTrace>, main: MainTrace) -> bool {
        match preprocessed {
            Option::Some(p) => p.wf() && p.width == self.table.preprocessed_width && p.height
                == main.height,
            Option::None => self.table.preprocessed_width == 0,
        }
    }

    /// The per-row term of the chip's `i`-th interaction at row `r`.
    pub open spec fn term_at(
        self,
        preprocessed: Option<MainTrace>,
        main: MainTrace,
        alpha: Seq<int>,
        beta: Seq<int>,
        r: int,
        i: int,
    ) -> Seq<int> {
        interaction_term(
            self.itx_at(i),
            self.is_send_at(i),
            self.prep_row_view(preprocessed, r),
            main.row_view(r),
            alpha,
            beta,
        )
    }

    /// The denominator of the chip's `i`-th interaction at row `r`.
    pub open spec fn denom_at(
        self,
        preprocessed: Option<MainTrace>,
        main: MainTrace,
        alpha: Seq<int>,
        beta: Seq<int>,
        r: int,
        i: int,
    ) -> Seq<int> {
        interaction_denom(
            self.itx_at(i),
            self.prep_row_view(preprocessed, r),
            main.row_view(r),
            alpha,
            beta,
        )
    }

    /// No interaction's denominator vanishes anywhere on the trace.
    pub open spec fn no_zero_denominator(
        self,
        preprocessed: Option<MainTrace>,
        main: MainTrace,
        alpha: Seq<int>,
        beta: Seq<int>,
    ) -> bool {
        forall|r: int, i: int|
            0 <= r < main.height && 0 <= i < self.n_itx() ==> #[trigger] self.denom_at(
                preprocessed,
                main,
                alpha,
                beta,
                r,
                i,
            ) != szero()
    }

    /// The sum of the per-row terms of interactions `lo..hi` at row `r`.
    pub open spec fn terms_sum(
        self,
        preprocessed: Option<MainTrace>,
        main: MainTrace,
        alpha: Seq<int>,
        beta: Seq<int>,
        r: int,
        lo: int,
        hi: int,
    ) -> Seq<int>
        decreases hi - lo,
    {
        if lo >= hi {
            szero()
        } else {
            sadd(
                self.terms_sum(preprocessed, main, alpha, beta, r, lo, hi - 1),
                self.term_at(preprocessed, main, alpha, beta, r, hi - 1),
            )
        }
    }

    /// The sum of batch `b`'s per-row terms at row `r`.
    pub open spec fn batch_row_sum(
        self,
        preprocessed: Option<MainTrace>,
        main: MainTrace,
        alpha: Seq<int>,
        beta: Seq<int>,
        r: int,
        b: int,
    ) -> Seq<int> {
        let lo = b * INTERACTION_BATCH_SIZE;
        let hi = if lo + INTERACTION_BATCH_SIZE <= self.n_itx() {
            lo + INTERACTION_BATCH_SIZE
        } else {
            self.n_itx() as int
        };
        self.terms_sum(preprocessed, main, alpha, beta, r, lo, hi)
    }

    /// The running sum, down the rows, of batch `b`'s per-row terms: the value
    /// of batch column `b` at row `r`.
    pub open spec fn batch_col(
        self,
        preprocessed: Option<MainTrace>,
        main: MainTrace,
        alpha: Seq<int>,
        beta: Seq<int>,
        r: int,
        b: int,
    ) -> Seq<int>
        decreases r,
    {
        if r <= 0 {
            self.batch_row_sum(preprocessed, main, alpha, beta, 0, b)
        } else {
            sadd(
                self.batch_col(preprocessed, main, alpha, beta, r - 1, b),
                self.batch_row_sum(preprocessed, main, alpha, beta, r, b),
            )
        }
    }

    /// The sum of the first `nb` batches' per-row sums at row `r`: the whole
    /// row's contribution to the running sum.
    pub open spec fn row_batches_sum(
        self,
        preprocessed: Option<MainTrace>,
        main: MainTrace,
        alpha: Seq<int>,
        beta: Seq<int>,
        r: int,
        nb: int,
    ) -> Seq<int>
        decreases nb,
    {
        if nb <= 0 {
            szero()
        } else {
            sadd(
                self.row_batches_sum(preprocessed, main, alpha, beta, r, nb - 1),
                self.batch_row_sum(preprocessed, main, alpha, beta, r, nb - 1),
            )
        }
    }

    /// The running sum of every batch's contribution over rows `0..=r`: the
    /// value of the final permutation-trace column at row `r`. At the last row
    /// this is the chip's cumulative sum.
    pub open spec fn cum_col(
        self,
        preprocessed: Option<MainTrace>,
        main: MainTrace,
        alpha: Seq<int>,
        beta: Seq<int>,
        r: int,
    ) -> Seq<int>
        decreases r,
    {
        let nb = num_batches_spec(self.n_itx()) as int;
        if r <= 0 {
            self.row_batches_sum(preprocessed, main, alpha, beta, 0, nb)
        } else {
            sadd(
                self.cum_col(preprocessed, main, alpha, beta, r - 1),
                self.row_batches_sum(preprocessed, main, alpha, beta, r, nb),
            )
        }
    }
}

impl Chip {
    /// `t` is exactly the permutation trace of the chip for the given traces
    /// and challenges: one running column per batch, one final running-sum
    /// column, one row per main-trace row.
    pub open spec fn is_permutation_trace_of(
        self,
        preprocessed: Option<MainTrace>,
        main: MainTrace,
        alpha: Seq<int>,
        beta: Seq<int>,
        t: PermTrace,
    ) -> bool {
        let nb = num_batches_spec(self.n_itx()) as int;
        &&& t.wf()
        &&& t.height == main.height
        &&& t.width == nb + 1
        &&& forall|r: int, b: int|
            0 <= r < main.height && 0 <= b < nb ==> #[trigger] t.at(r, b) == self.batch_col(
                preprocessed,
                main,
                alpha,
                beta,
                r,
                b,
            )
        &&& forall|r: int|
            0 <= r < main.height ==> #[trigger] t.at(r, nb) == self.cum_col(
                preprocessed,
                main,
                alpha,
                beta,
                r,
            )
    }

    /// A per-row term sum is well-formed.
    pub proof fn lemma_terms_sum_wf(
        self,
        preprocessed: Option<MainTrace>,
        main: MainTrace,
        alpha: Seq<int>,
        beta: Seq<int>,
        r: int,
        lo: int,
        hi: int,
    )
        ensures
            crate::ext::ext_wf(self.terms_sum(preprocessed, main, alpha, beta, r, lo, hi)),
    {
        if lo >= hi {
        } else {
            crate::ext::lemma_ext_ops_wf(
                self.terms_sum(preprocessed, main, alpha, beta, r, lo, hi - 1),
                self.term_at(preprocessed, main, alpha, beta, r, hi - 1),
            );
        }
    }

    /// A batch's per-row sum is well-formed.
    pub proof fn lemma_batch_row_sum_wf(
        self,
        preprocessed: Option<MainTrace>,
        main: MainTrace,
        alpha: Seq<int>,
        beta: Seq<int>,
        r: int,
        b: int,
    )
        ensures
            crate::ext::ext_wf(self.batch_row_sum(preprocessed, main, alpha, beta, r, b)),
    {
        let lo = b * INTERACTION_BATCH_SIZE;
        let hi = if lo + INTERACTION_BATCH_SIZE <= self.n_itx() {
            lo + INTERACTION_BATCH_SIZE
        } else {
            self.n_itx() as int
        };
        self.lemma_terms_sum_wf(preprocessed, main, alpha, beta, r, lo, hi);
    }

    /// A batch column value is well-formed.
    pub proof fn lemma_batch_col_wf(
        self,
        preprocessed: Option<MainTrace>,
        main: MainTrace,
        alpha: Seq<int>,
        beta: Seq<int>,
        r: int,
        b: int,
    )
        ensures
            crate::ext::ext_wf(self.batch_col(preprocessed, main, alpha, beta, r, b)),
    {
        if r <= 0 {
            self.lemma_batch_row_sum_wf(preprocessed, main, alpha, beta, 0, b);
        } else {
            crate::ext::lemma_ext_ops_wf(
                self.batch_col(preprocessed, main, alpha, beta, r - 1, b),
                self.batch_row_sum(preprocessed, main, alpha, beta, r, b),
            );
        }
    }

    /// Every collected interaction record fits the chip's trace widths.
    pub proof fn lemma_interactions_wf(self)
        requires
            self.wf(),
        ensures
            forall|j: int|
                0 <= j < self.sends@.len() ==> (#[trigger] self.sends@[j]).wf(
                    self.table.preprocessed_width as nat,
                    self.table.width as nat,
                ),
            forall|j: int|
                0 <= j < self.receives@.len() ==> (#[trigger] self.receives@[j]).wf(
                    self.table.preprocessed_width as nat,
                    self.table.width as nat,
                ),
    {
        let pw = self.table.preprocessed_width as nat;
        let mw = self.table.width as nat;
        crate::chip::lemma_decls_inherit(self.table.ops@, pw, mw);
        let sd = crate::chip::send_decls(self.table.ops@);
        let rd = crate::chip::receive_decls(self.table.ops@);
        assert forall|j: int| 0 <= j < self.sends@.len() implies (#[trigger] self.sends@[j]).wf(
            pw,
            mw,
        ) by {
            assert(self.sends@[j].values@ == sd[j].values@);
            assert(sd[j].wf(pw, mw) && sd[j].arity_ok());
        }
        assert forall|j: int|
            0 <= j < self.receives@.len() implies (#[trigger] self.receives@[j]).wf(pw, mw) by {
            assert(self.receives@[j].values@ == rd[j].values@);
            assert(rd[j].wf(pw, mw) && rd[j].arity_ok());
        }
    }

    /// Produces the permutation trace of the chip for one shard: one running
    /// batch column per interaction batch and one final running-sum column,
    /// with as many rows as the main trace. Fails exactly when some
    /// interaction's randomized denominator vanishes on some row, which an
    /// honestly generated trace never produces.
    #[verifier::rlimit(100)]
    pub fn generate_permutation_trace(
        &self,
        preprocessed: &Option<MainTrace>,
        main: &MainTrace,
        random_elements: &Vec<ExtFelt>,
    ) -> (res: Result<PermTrace, LookupError>)
        requires
            self.wf(),
            main.wf(),
            main.width == self.table.width,
            self.prep_matches(*preprocessed, *main),
            random_elements@.len() >= 2,
            crate::trace::ext_row_wf(random_elements@),
            self.n_itx() + INTERACTION_BATCH_SIZE <= usize::MAX,
            main.height * (num_batches_spec(self.n_itx()) + 1) <= usize::MAX,
        ensures
            res is Ok <==> self.no_zero_denominator(
                *preprocessed,
                *main,
                random_elements@[0]@,
                random_elements@[1]@,
            ),
            res is Err ==> res->Err_0 == LookupError::ZeroDenominator,
            res is Ok ==> self.is_permutation_trace_of(
                *preprocessed,
                *main,
                random_elements@[0]@,
                random_elements@[1]@,
                res->Ok_0,
            ),
    {
        let ghost galpha = random_elements@[0]@;
        let ghost gbeta = random_elements@[1]@;
        let alpha = random_elements[0];
        let beta = random_elements[1];
        let n = self.sends.len() + self.receives.len();
        let nb = (n + INTERACTION_BATCH_SIZE - 1) / INTERACTION_BATCH_SIZE;
        let width = nb + 1;
        let height = main.rows();
        proof {
            assert(nb == num_batches_spec(self.n_itx()));
            self.lemma_interactions_wf();
        }
        let mut values: Vec<ExtFelt> = Vec::new();
        let mut batch_acc: Vec<ExtFelt> = Vec::new();
        let mut i0: usize = 0;
        #[verifier::loop_isolation(false)]
        while i0 < nb
            invariant
                i0 <= nb,
                batch_acc@.len() == i0,
                forall|b: int| 0 <= b < i0 ==> (#[trigger] batch_acc@[b])@ == szero(),
                crate::trace::ext_row_wf(batch_acc@),
            decreases nb - i0,
        {
            batch_acc.push(ExtFelt::zero());
            i0 += 1;
        }
        let mut cum_acc = ExtFelt::zero();
        let mut r: usize = 0;
        #[verifier::loop_isolation(false)]
        while r < height
            invariant
                r <= height,
                values@.len() == r * width,
                crate::trace::ext_row_wf(values@),
                batch_acc@.len() == nb,
                crate::trace::ext_row_wf(batch_acc@),
                cum_acc.wf(),
                forall|r2: int, b: int|
                    0 <= r2 < r && 0 <= b < nb ==> (#[trigger] values@[r2 * width + b])@
                        == self.batch_col(*preprocessed, *main, galpha, gbeta, r2, b),
                forall|r2: int|
                    0 <= r2 < r ==> (#[trigger] values@[r2 * width + nb as int])@ == self.cum_col(
                        *preprocessed,
                        *main,
                        galpha,
                        gbeta,
                        r2,
                    ),
                forall|b: int|
                    0 <= b < nb ==> (#[trigger] batch_acc@[b])@ == (if r == 0 {
                        szero()
                    } else {
                        self.batch_col(*preprocessed, *main, galpha, gbeta, r - 1, b)
                    }),
                cum_acc@ == (if r == 0 {
                    szero()
                } else {
                    self.cum_col(*preprocessed, *main, galpha, gbeta, r - 1)
                }),
                forall|r2: int, i: int|
                    0 <= r2 < r && 0 <= i < n ==> #[trigger] self.denom_at(
                        *preprocessed,
                        *main,
                        galpha,
                        gbeta,
                        r2,
                        i,
                    ) != szero(),
            decreases height - r,
        {
            let prep_row: Vec<Felt> = match preprocessed {
                Option::Some(p) => p.row(r),
                Option::None => Vec::new(),
            };
            let main_row = main.row(r);
            proof {
                assert(crate::expr::felts_view(prep_row@) =~= self.prep_row_view(
                    *preprocessed,
                    r as int,
                ));
                assert(prep_row@.len() == self.table.preprocessed_width);
            }
            let mut row_total = ExtFelt::zero();
            let mut b: usize = 0;
            #[verifier::loop_isolation(false)]
            while b < nb
                invariant
                    b <= nb,
                    r < height,
                    row_total.wf(),
                    row_total@ == self.row_batches_sum(
                        *preprocessed,
                        *main,
                        galpha,
                        gbeta,
                        r as int,
                        b as int,
                    ),
                    batch_acc@.len() == nb,
                    crate::trace::ext_row_wf(batch_acc@),
                    forall|b2: int|
                        0 <= b2 < b ==> (#[trigger] batch_acc@[b2])@ == self.batch_col(
                            *preprocessed,
                            *main,
                            galpha,
                            gbeta,
                            r as int,
                            b2,
                        ),
                    forall|b2: int|
                        b <= b2 < nb ==> (#[trigger] batch_acc@[b2])@ == (if r == 0 {
                            szero()
                        } else {
                            self.batch_col(*preprocessed, *main, galpha, gbeta, r - 1, b2)
                        }),
                    forall|i: int|
                        0 <= i < b * INTERACTION_BATCH_SIZE && i < n ==> #[trigger] self.denom_at(
                            *preprocessed,
                            *main,
                            galpha,
                            gbeta,
                            r as int,
                            i,
                        ) != szero(),
                decreases nb - b,
            {
                let lo = b * INTERACTION_BATCH_SIZE;
                let hi = if n - lo < INTERACTION_BATCH_SIZE {
                    n
                } else {
                    lo + INTERACTION_BATCH_SIZE
                };
                let mut batch_sum = ExtFelt::zero();
                let mut i = lo;
                #[verifier::loop_isolation(false)]
                while i < hi
                    invariant
                        lo <= i <= hi,
                        batch_sum.wf(),
                        batch_sum@ == self.terms_sum(
                            *preprocessed,
                            *main,
                            galpha,
                            gbeta,
                            r as int,
                            lo as int,
                            i as int,
                        ),
                        forall|i2: int|
                            lo <= i2 < i ==> #[trigger] self.denom_at(
                                *preprocessed,
                                *main,
                                galpha,
                                gbeta,
                                r as int,
                                i2,
                            ) != szero(),
                    decreases hi - i,
                {
                    let is_send = i < self.sends.len();
                    let itx: &Interaction = if is_send {
                        &self.sends[i]
                    } else {
                        &self.receives[i - self.sends.len()]
                    };
                    proof {
                        assert(*itx == self.itx_at(i as int));
                        assert(itx.wf(prep_row@.len() as nat, main_row@.len() as nat));
                    }
                    match eval_term(itx, is_send, &prep_row, &main_row, &alpha, &beta) {
                        Option::None => {
                            proof {
                                assert(self.denom_at(
                                    *preprocessed,
                                    *main,
                                    galpha,
                                    gbeta,
                                    r as int,
                                    i as int,
                                ) == szero());
                                assert(!self.no_zero_denominator(
                                    *preprocessed,
                                    *main,
                                    galpha,
                                    gbeta,
                                ));
                            }
                            return Err(LookupError::ZeroDenominator);
                        },
                        Option::Some(t) => {
                            batch_sum = batch_sum.add(t);
                        },
                    }
                    i += 1;
                }
                proof {
                    assert(batch_sum@ == self.batch_row_sum(
                        *preprocessed,
                        *main,
                        galpha,
                        gbeta,
                        r as int,
                        b as int,
                    ));
                }
                let cur = batch_acc[b];
                let upd = cur.add(batch_sum);
                proof {
                    if r == 0 {
                        crate::ext::lemma_sadd_zero(batch_sum@);
                    }
                }
                batch_acc[b] = upd;
                row_total = row_total.add(batch_sum);
                b += 1;
            }
            let new_cum = cum_acc.add(row_total);
            proof {
                if r == 0 {
                    crate::ext::lemma_sadd_zero(row_total@);
                }
                assert(new_cum@ == self.cum_col(*preprocessed, *main, galpha, gbeta, r as int));
            }
            cum_acc = new_cum;
            let ghost values_before = values@;
            let mut b3: usize = 0;
            #[verifier::loop_isolation(false)]
            while b3 < nb
                invariant
                    b3 <= nb,
                    values@.len() == r * width + b3,
                    values@ == values_before + batch_acc@.take(b3 as int),
                    crate::trace::ext_row_wf(values@),
                decreases nb - b3,
            {
                proof {
                    crate::trace::lemma_rc_index(width as int, height as int, r as int, b3 as int);
                    assert(batch_acc@.take(b3 as int + 1) =~= batch_acc@.take(b3 as int) + seq![
                        batch_acc@[b3 as int],
                    ]);
                }
                values.push(batch_acc[b3]);
                b3 += 1;
            }
            proof {
                crate::trace::lemma_rc_index(width as int, height as int, r as int, nb as int);
            }
            values.push(cum_acc);
            proof {
                assert(batch_acc@.take(nb as int) =~= batch_acc@);
                assert(values@.len() == (r + 1) * width) by (nonlinear_arith)
                    requires
                        values@.len() == r * width + nb + 1,
                        width == nb + 1,
                ;
                assert forall|r2: int, bx: int|
                    0 <= r2 < r + 1 && 0 <= bx < nb implies (#[trigger] values@[r2 * width + bx])@
                    == self.batch_col(*preprocessed, *main, galpha, gbeta, r2, bx) by {
                    crate::trace::lemma_rc_index(width as int, height as int, r2, bx);
                    if r2 < r {
                        crate::trace::lemma_rc_index(width as int, r as int, r2, bx);
                        assert(values@[r2 * width + bx] == values_before[r2 * width + bx]);
                    } else {
                        assert(r2 * width + bx == values_before.len() + bx);
                        assert(values@[r2 * width + bx] == batch_acc@[bx]);
                    }
                }
                assert forall|r2: int|
                    0 <= r2 < r + 1 implies (#[trigger] values@[r2 * width + nb as int])@
                    == self.cum_col(*preprocessed, *main, galpha, gbeta, r2) by {
                    crate::trace::lemma_rc_index(width as int, height as int, r2, nb as int);
                    if r2 < r {
                        crate::trace::lemma_rc_index(width as int, r as int, r2, nb as int);
                        assert(values@[r2 * width + nb as int] == values_before[r2 * width
                            + nb as int]);
                    } else {
                        assert(r2 * width + nb as int == values_before.len() + nb as int);
                        assert(values@[r2 * width + nb as int] == cum_acc);
                    }
                }
            }
            r += 1;
        }
        let t = PermTrace { values, width, height };
        proof {
            assert(t.wf());
        }
        Ok(t)
    }
}

/// Evaluates the randomized denominator of one interaction on one row.
fn eval_denom(
    itx: &Interaction,
    prep_row: &Vec<Felt>,
    main_row: &Vec<Felt>,
    alpha: &ExtFelt,
    beta: &ExtFelt,
) -> (d: ExtFelt)
    requires
        itx.wf(prep_row@.len(), main_row@.len()),
        crate::expr::row_wf(prep_row@),
        crate::expr::row_wf(main_row@),
        alpha.wf(),
        beta.wf(),
    ensures
        d.wf(),
        d@ == interaction_denom(
            *itx,
            crate::expr::felts_view(prep_row@),
            crate::expr::felts_view(main_row@),
            alpha@,
            beta@,
        ),
{
    let ghost prep = crate::expr::felts_view(prep_row@);
    let ghost main = crate::expr::felts_view(main_row@);
    let ghost vals = interaction_vals(*itx, prep, main);
    let kind_tag = itx.kind.tag();
    proof {
        assert(0 <= itx.kind.tag_spec() < FIELD_PRIME);
    }
    let kind_felt = Felt { value: kind_tag };
    let mut comb = ExtFelt::zero();
    let mut pow = ExtFelt::one();
    let mut j: usize = 0;
    #[verifier::loop_isolation(false)]
    while j < itx.values.len()
        invariant
            j <= itx.values@.len(),
            comb.wf(),
            pow.wf(),
            comb@ == combine_prefix(vals, alpha@, j as nat),
            pow@ == alpha_pow(alpha@, j as nat),
        decreases itx.values@.len() - j,
    {
        let v = eval_expr_at(itx, j, prep_row, main_row);
        comb = comb.add(pow.scale(v));
        pow = pow.mul(*alpha);
        j += 1;
    }
    proof {
        assert(vals.len() == itx.values@.len());
    }
    beta.scale(kind_felt).add(comb)
}

/// Evaluates the `j`-th tuple expression of an interaction on one row.
fn eval_expr_at(itx: &Interaction, j: usize, prep_row: &Vec<Felt>, main_row: &Vec<Felt>) -> (r:
    Felt)
    requires
        itx.wf(prep_row@.len(), main_row@.len()),
        crate::expr::row_wf(prep_row@),
        crate::expr::row_wf(main_row@),
        j < itx.values@.len(),
    ensures
        r.wf(),
        r@ == interaction_vals(
            *itx,
            crate::expr::felts_view(prep_row@),
            crate::expr::felts_view(main_row@),
        )[j as int],
{
    crate::expr::eval_expr(&itx.values[j], prep_row, main_row)
}

/// Evaluates the per-row term of one interaction, or reports that its
/// denominator vanished.
pub(crate) fn eval_term(
    itx: &Interaction,
    is_send: bool,
    prep_row: &Vec<Felt>,
    main_row: &Vec<Felt>,
    alpha: &ExtFelt,
    beta: &ExtFelt,
) -> (r: Option<ExtFelt>)
    requires
        itx.wf(prep_row@.len(), main_row@.len()),
        crate::expr::row_wf(prep_row@),
        crate::expr::row_wf(main_row@),
        alpha.wf(),
        beta.wf(),
    ensures
        r is Some <==> interaction_denom(
            *itx,
            crate::expr::felts_view(prep_row@),
            crate::expr::felts_view(main_row@),
            alpha@,
            beta@,
        ) != szero(),
        r is Some ==> (r->Some_0).wf() && (r->Some_0)@ == interaction_term(
            *itx,
            is_send,
            crate::expr::felts_view(prep_row@),
            crate::expr::felts_view(main_row@),
            alpha@,
            beta@,
        ),
{
    let d = eval_denom(itx, prep_row, main_row, alpha, beta);
    if d.is_zero() {
        return None;
    }
    let m = crate::expr::eval_expr(&itx.multiplicity, prep_row, main_row);
    let t = d.inverse().scale(m);
    if is_send {
        Some(t)
    } else {
        Some(t.neg())
    }
}

} // verus!
