//! Global balance of the lookup argument.
//!
//! Every interaction occurrence — one interaction on one row of one table —
//! contributes one signed term to the running sums. An execution is valid when
//! every tuple on every channel is sent exactly as often as it is received,
//! counting multiplicities in the field; this module proves that over any such
//! execution, the cumulative sums exposed by the tables add to zero.

use vstd::prelude::*;

use crate::chip::Chip;
use crate::ext::ext_inv_spec;
use crate::ext::ext_wf;
use crate::ext::lemma_ext_ops_wf;
use crate::ext::lemma_sadd_assoc;
use crate::ext::lemma_sadd_comm;
use crate::ext::lemma_sadd_zero;
use crate::ext::lemma_scale_add;
use crate::ext::lemma_scale_multiple_zero;
use crate::ext::lemma_scale_neg;
use crate::ext::sadd;
use crate::ext::sneg;
use crate::ext::sscale;
use crate::ext::szero;
use crate::field::prime;
use crate::permutation::fingerprint;
use crate::permutation::interaction_vals;
use crate::trace::MainTrace;

verus! {

/// One interaction occurrence, evaluated on one row: everything its signed
/// per-row term depends on.
pub struct TermData {
    /// Whether the occurrence sends (or else receives) the tuple.
    pub is_send: bool,
    /// The evaluated multiplicity.
    pub mult: int,
    /// The channel tag.
    pub kind_tag: int,
    /// The evaluated tuple.
    pub vals: Seq<int>,
}

/// The signed term an occurrence contributes to the running sums.
pub open spec fn term_value(t: TermData, alpha: Seq<int>, beta: Seq<int>) -> Seq<int> {
    let x = sscale(t.mult, ext_inv_spec(fingerprint(t.kind_tag, t.vals, alpha, beta)));
    if t.is_send {
        x
    } else {
        sneg(x)
    }
}

/// The sum of the terms of a sequence of occurrences.
pub open spec fn sum_terms(ts: Seq<TermData>, alpha: Seq<int>, beta: Seq<int>) -> Seq<int>
    decreases ts.len(),
{
    if ts.len() == 0 {
        szero()
    } else {
        sadd(sum_terms(ts.drop_last(), alpha, beta), term_value(ts.last(), alpha, beta))
    }
}

/// The occurrence speaks of the given tuple on the given channel.
pub open spec fn key_matches(t: TermData, kind_tag: int, vals: Seq<int>) -> bool {
    t.kind_tag == kind_tag && t.vals == vals
}

/// The multiplicity an occurrence adds to its tuple's tally: positive for a
/// send, negative for a receive.
pub open spec fn signed_mult(t: TermData) -> int {
    if t.is_send {
        t.mult
    } else {
        0 - t.mult
    }
}

/// The tally of one tuple on one channel over a sequence of occurrences.
pub open spec fn key_sum(ts: Seq<TermData>, kind_tag: int, vals: Seq<int>) -> int
    decreases ts.len(),
{
    if ts.len() == 0 {
        0
    } else {
        key_sum(ts.drop_last(), kind_tag, vals) + (if key_matches(ts.last(), kind_tag, vals) {
            signed_mult(ts.last())
        } else {
            0
        })
    }
}

/// A valid execution: every tuple on every channel tallies to zero in the
/// field — each send is matched by receives of the same total multiplicity.
pub open spec fn balanced(ts: Seq<TermData>) -> bool {
    forall|kind_tag: int, vals: Seq<int>| #[trigger] key_sum(ts, kind_tag, vals) % prime() == 0
}

/// The occurrences of one tuple on one channel, in order.
pub open spec fn with_key(ts: Seq<TermData>, kind_tag: int, vals: Seq<int>) -> Seq<TermData>
    decreases ts.len(),
{
    if ts.len() == 0 {
        Seq::empty()
    } else {
        with_key(ts.drop_last(), kind_tag, vals) + (if key_matches(ts.last(), kind_tag, vals) {
            seq![ts.last()]
        } else {
            Seq::empty()
        })
    }
}

/// The occurrences of every other tuple, in order.
pub open spec fn without_key(ts: Seq<TermData>, kind_tag: int, vals: Seq<int>) -> Seq<TermData>
    decreases ts.len(),
{
    if ts.len() == 0 {
        Seq::empty()
    } else {
        without_key(ts.drop_last(), kind_tag, vals) + (if key_matches(
            ts.last(),
            kind_tag,
            vals,
        ) {
            Seq::empty()
        } else {
            seq![ts.last()]
        })
    }
}

/// A sum of terms is well-formed.
pub proof fn lemma_sum_terms_wf(ts: Seq<TermData>, alpha: Seq<int>, beta: Seq<int>)
    ensures
        ext_wf(sum_terms(ts, alpha, beta)),
{
    if ts.len() != 0 {
        lemma_ext_ops_wf(
            sum_terms(ts.drop_last(), alpha, beta),
            term_value(ts.last(), alpha, beta),
        );
    }
}

/// A sequence's term sum splits into the sum over one tuple's occurrences and
/// the sum over all others.
pub proof fn lemma_sum_split(ts: Seq<TermData>, kind_tag: int, vals: Seq<int>, alpha: Seq<int>, beta: Seq<int>)
    ensures
        sum_terms(ts, alpha, beta) == sadd(
            sum_terms(with_key(ts, kind_tag, vals), alpha, beta),
            sum_terms(without_key(ts, kind_tag, vals), alpha, beta),
        ),
    decreases ts.len(),
{
    let sk = with_key(ts, kind_tag, vals);
    let dk = without_key(ts, kind_tag, vals);
    if ts.len() == 0 {
        lemma_sadd_zero(szero());
    } else {
        let prefix = ts.drop_last();
        let t = ts.last();
        let v = term_value(t, alpha, beta);
        let s1 = sum_terms(with_key(prefix, kind_tag, vals), alpha, beta);
        let s2 = sum_terms(without_key(prefix, kind_tag, vals), alpha, beta);
        lemma_sum_split(prefix, kind_tag, vals, alpha, beta);
        lemma_sum_terms_wf(with_key(prefix, kind_tag, vals), alpha, beta);
        lemma_sum_terms_wf(without_key(prefix, kind_tag, vals), alpha, beta);
        if key_matches(t, kind_tag, vals) {
            assert(sk =~= with_key(prefix, kind_tag, vals) + seq![t]);
            assert(dk =~= without_key(prefix, kind_tag, vals));
            assert(sk.drop_last() =~= with_key(prefix, kind_tag, vals));
            assert(sum_terms(sk, alpha, beta) == sadd(s1, v));
            // (s1 + s2) + v == (s1 + v) + s2
            lemma_sadd_assoc(s1, s2, v);
            lemma_sadd_comm(s2, v);
            lemma_sadd_assoc(s1, v, s2);
        } else {
            assert(dk =~= without_key(prefix, kind_tag, vals) + seq![t]);
            assert(sk =~= with_key(prefix, kind_tag, vals));
            assert(dk.drop_last() =~= without_key(prefix, kind_tag, vals));
            assert(sum_terms(dk, alpha, beta) == sadd(s2, v));
            // (s1 + s2) + v == s1 + (s2 + v)
            lemma_sadd_assoc(s1, s2, v);
        }
    }
}

/// Properties of the matching occurrences: they all match, their tally is the
/// whole sequence's tally for that tuple.
pub proof fn lemma_with_key_props(ts: Seq<TermData>, kind_tag: int, vals: Seq<int>)
    ensures
        forall|j: int|
            0 <= j < with_key(ts, kind_tag, vals).len() ==> key_matches(
                #[trigger] with_key(ts, kind_tag, vals)[j],
                kind_tag,
                vals,
            ),
        key_sum(with_key(ts, kind_tag, vals), kind_tag, vals) == key_sum(ts, kind_tag, vals),
    decreases ts.len(),
{
    let sk = with_key(ts, kind_tag, vals);
    if ts.len() != 0 {
        let prefix = ts.drop_last();
        let t = ts.last();
        lemma_with_key_props(prefix, kind_tag, vals);
        if key_matches(t, kind_tag, vals) {
            assert(sk =~= with_key(prefix, kind_tag, vals) + seq![t]);
            assert(sk.drop_last() =~= with_key(prefix, kind_tag, vals));
        } else {
            assert(sk =~= with_key(prefix, kind_tag, vals));
        }
    }
}

/// Properties of the remaining occurrences: the removed tuple's tally is zero,
/// every other tuple's tally is unchanged, and removing a present tuple
/// shortens the sequence.
pub proof fn lemma_without_key_props(ts: Seq<TermData>, kind_tag: int, vals: Seq<int>)
    ensures
        key_sum(without_key(ts, kind_tag, vals), kind_tag, vals) == 0,
        forall|k2: int, vs2: Seq<int>|
            !(k2 == kind_tag && vs2 == vals) ==> #[trigger] key_sum(
                without_key(ts, kind_tag, vals),
                k2,
                vs2,
            ) == key_sum(ts, k2, vs2),
        without_key(ts, kind_tag, vals).len() <= ts.len(),
        ts.len() > 0 && key_matches(ts[0], kind_tag, vals) ==> without_key(
            ts,
            kind_tag,
            vals,
        ).len() < ts.len(),
    decreases ts.len(),
{
    let dk = without_key(ts, kind_tag, vals);
    if ts.len() != 0 {
        let prefix = ts.drop_last();
        let t = ts.last();
        lemma_without_key_props(prefix, kind_tag, vals);
        if ts.len() > 1 {
            assert(prefix[0] == ts[0]);
        }
        if key_matches(t, kind_tag, vals) {
            assert(dk =~= without_key(prefix, kind_tag, vals));
            assert forall|k2: int, vs2: Seq<int>|
                !(k2 == kind_tag && vs2 == vals) implies #[trigger] key_sum(dk, k2, vs2)
                == key_sum(ts, k2, vs2) by {
                assert(key_sum(dk, k2, vs2) == key_sum(prefix, k2, vs2));
                assert(!key_matches(t, k2, vs2));
            }
        } else {
            assert(dk =~= without_key(prefix, kind_tag, vals) + seq![t]);
            assert(dk.drop_last() =~= without_key(prefix, kind_tag, vals));
            assert(dk.last() == t);
            assert forall|k2: int, vs2: Seq<int>|
                !(k2 == kind_tag && vs2 == vals) implies #[trigger] key_sum(dk, k2, vs2)
                == key_sum(ts, k2, vs2) by {
                assert(key_sum(without_key(prefix, kind_tag, vals), k2, vs2) == key_sum(
                    prefix,
                    k2,
                    vs2,
                ));
                assert(key_sum(dk, k2, vs2) == key_sum(dk.drop_last(), k2, vs2) + (if key_matches(
                    dk.last(),
                    k2,
                    vs2,
                ) {
                    signed_mult(dk.last())
                } else {
                    0
                }));
            }
        }
    }
}

/// The sum over occurrences of one single tuple is that tuple's tally, scaled
/// into the inverse of the tuple's randomized denominator.
pub proof fn lemma_single_key_sum(sk: Seq<TermData>, kind_tag: int, vals: Seq<int>, alpha: Seq<int>, beta: Seq<int>)
    requires
        forall|j: int| 0 <= j < sk.len() ==> key_matches(#[trigger] sk[j], kind_tag, vals),
    ensures
        sum_terms(sk, alpha, beta) == sscale(
            key_sum(sk, kind_tag, vals),
            ext_inv_spec(fingerprint(kind_tag, vals, alpha, beta)),
        ),
    decreases sk.len(),
{
    let x = ext_inv_spec(fingerprint(kind_tag, vals, alpha, beta));
    if sk.len() == 0 {
        assert(sscale(0, x) =~= szero()) by {
            assert forall|i: int| 0 <= i < 4 implies sscale(0, x)[i] == 0 by {
                assert(0 * x[i] == 0) by (nonlinear_arith);
            }
        }
    } else {
        let prefix = sk.drop_last();
        let t = sk.last();
        assert forall|j: int| 0 <= j < prefix.len() implies key_matches(
            #[trigger] prefix[j],
            kind_tag,
            vals,
        ) by {
            assert(prefix[j] == sk[j]);
        }
        lemma_single_key_sum(prefix, kind_tag, vals, alpha, beta);
        let s = key_sum(prefix, kind_tag, vals);
        assert(key_matches(t, kind_tag, vals));
        if t.is_send {
            lemma_scale_add(s, t.mult, x);
        } else {
            lemma_scale_neg(t.mult, x);
            lemma_scale_add(s, 0 - t.mult, x);
        }
    }
}

/// A term value is well-formed.
pub proof fn lemma_term_value_wf(t: TermData, alpha: Seq<int>, beta: Seq<int>)
    ensures
        ext_wf(term_value(t, alpha, beta)),
{
    let x = sscale(t.mult, ext_inv_spec(fingerprint(t.kind_tag, t.vals, alpha, beta)));
    crate::ext::lemma_ext_scale_wf(t.mult, ext_inv_spec(fingerprint(t.kind_tag, t.vals, alpha, beta)));
    lemma_ext_ops_wf(x, x);
}

/// Concatenation splits a term sum.
pub proof fn lemma_sum_concat(s1: Seq<TermData>, s2: Seq<TermData>, alpha: Seq<int>, beta: Seq<int>)
    ensures
        sum_terms(s1 + s2, alpha, beta) == sadd(
            sum_terms(s1, alpha, beta),
            sum_terms(s2, alpha, beta),
        ),
    decreases s2.len(),
{
    lemma_sum_terms_wf(s1, alpha, beta);
    if s2.len() == 0 {
        assert(s1 + s2 =~= s1);
        lemma_sadd_zero(sum_terms(s1, alpha, beta));
    } else {
        assert((s1 + s2).drop_last() =~= s1 + s2.drop_last());
        assert((s1 + s2).last() == s2.last());
        lemma_sum_concat(s1, s2.drop_last(), alpha, beta);
        lemma_term_value_wf(s2.last(), alpha, beta);
        lemma_sadd_assoc(
            sum_terms(s1, alpha, beta),
            sum_terms(s2.drop_last(), alpha, beta),
            term_value(s2.last(), alpha, beta),
        );
    }
}

/// Over a valid execution — every tuple's tally is zero — the sum of every
/// occurrence's signed term is zero.
pub proof fn lemma_balanced_sum_zero(ts: Seq<TermData>, alpha: Seq<int>, beta: Seq<int>)
    requires
        balanced(ts),
    ensures
        sum_terms(ts, alpha, beta) == szero(),
    decreases ts.len(),
{
    if ts.len() != 0 {
        let k0 = ts[0].kind_tag;
        let vs0 = ts[0].vals;
        let sk = with_key(ts, k0, vs0);
        let dk = without_key(ts, k0, vs0);
        lemma_sum_split(ts, k0, vs0, alpha, beta);
        lemma_with_key_props(ts, k0, vs0);
        lemma_without_key_props(ts, k0, vs0);
        lemma_single_key_sum(sk, k0, vs0, alpha, beta);
        assert(key_sum(ts, k0, vs0) % prime() == 0);
        lemma_scale_multiple_zero(
            key_sum(sk, k0, vs0),
            ext_inv_spec(fingerprint(k0, vs0, alpha, beta)),
        );
        assert forall|k2: int, vs2: Seq<int>| #[trigger] key_sum(dk, k2, vs2) % prime() == 0 by {
            if k2 == k0 && vs2 == vs0 {
                assert(key_sum(dk, k2, vs2) == 0);
            } else {
                assert(key_sum(dk, k2, vs2) == key_sum(ts, k2, vs2));
            }
        }
        lemma_balanced_sum_zero(dk, alpha, beta);
        lemma_sadd_zero(szero());
    }
}

impl Chip {
    /// The data of the chip's `i`-th interaction occurrence at row `r`.
    pub open spec fn term_data_at(
        self,
        preprocessed: Option<MainTrace>,
        main: MainTrace,
        r: int,
        i: int,
    ) -> TermData {
        let itx = self.itx_at(i);
        let prep = self.prep_row_view(preprocessed, r);
        let mv = main.row_view(r);
        TermData {
            is_send: self.is_send_at(i),
            mult: itx.multiplicity.eval(prep, mv),
            kind_tag: itx.kind.tag_spec(),
            vals: interaction_vals(itx, prep, mv),
        }
    }

    /// All the chip's interaction occurrences at row `r`, in order.
    pub open spec fn row_terms(
        self,
        preprocessed: Option<MainTrace>,
        main: MainTrace,
        r: int,
    ) -> Seq<TermData> {
        Seq::new(self.n_itx(), |i: int| self.term_data_at(preprocessed, main, r, i))
    }

    /// All the chip's interaction occurrences over rows `0..r`, row-major.
    pub open spec fn terms_up_to(
        self,
        preprocessed: Option<MainTrace>,
        main: MainTrace,
        r: int,
    ) -> Seq<TermData>
        decreases r,
    {
        if r <= 0 {
            Seq::empty()
        } else {
            self.terms_up_to(preprocessed, main, r - 1) + self.row_terms(
                preprocessed,
                main,
                r - 1,
            )
        }
    }

    /// All the interaction occurrences of the chip on one shard.
    pub open spec fn shard_terms(
        self,
        preprocessed: Option<MainTrace>,
        main: MainTrace,
    ) -> Seq<TermData> {
        self.terms_up_to(preprocessed, main, main.height as int)
    }

    /// The cumulative sum the chip exposes for one shard: the last row of the
    /// running-sum column, or zero for an empty trace.
    pub open spec fn cumulative_sum_spec(
        self,
        preprocessed: Option<MainTrace>,
        main: MainTrace,
        alpha: Seq<int>,
        beta: Seq<int>,
    ) -> Seq<int> {
        if main.height == 0 {
            szero()
        } else {
            self.cum_col(preprocessed, main, alpha, beta, main.height - 1)
        }
    }

    /// A per-row interaction term is well-formed.
    pub proof fn lemma_term_at_wf(
        self,
        preprocessed: Option<MainTrace>,
        main: MainTrace,
        alpha: Seq<int>,
        beta: Seq<int>,
        r: int,
        i: int,
    )
        ensures
            ext_wf(self.term_at(preprocessed, main, alpha, beta, r, i)),
    {
        let itx = self.itx_at(i);
        let prep = self.prep_row_view(preprocessed, r);
        let mv = main.row_view(r);
        let m = itx.multiplicity.eval(prep, mv);
        let d = crate::permutation::interaction_denom(itx, prep, mv, alpha, beta);
        crate::ext::lemma_ext_scale_wf(m, ext_inv_spec(d));
        lemma_ext_ops_wf(sscale(m, ext_inv_spec(d)), sscale(m, ext_inv_spec(d)));
    }

    /// A term sum over a range splits at any point of the range.
    pub proof fn lemma_terms_sum_split(
        self,
        preprocessed: Option<MainTrace>,
        main: MainTrace,
        alpha: Seq<int>,
        beta: Seq<int>,
        r: int,
        lo: int,
        mid: int,
        hi: int,
    )
        requires
            lo <= mid <= hi,
        ensures
            self.terms_sum(preprocessed, main, alpha, beta, r, lo, hi) == sadd(
                self.terms_sum(preprocessed, main, alpha, beta, r, lo, mid),
                self.terms_sum(preprocessed, main, alpha, beta, r, mid, hi),
            ),
        decreases hi - mid,
    {
        self.lemma_terms_sum_wf(preprocessed, main, alpha, beta, r, lo, mid);
        if hi == mid {
            lemma_sadd_zero(self.terms_sum(preprocessed, main, alpha, beta, r, lo, mid));
        } else {
            self.lemma_terms_sum_split(preprocessed, main, alpha, beta, r, lo, mid, hi - 1);
            self.lemma_term_at_wf(preprocessed, main, alpha, beta, r, hi - 1);
            lemma_sadd_assoc(
                self.terms_sum(preprocessed, main, alpha, beta, r, lo, mid),
                self.terms_sum(preprocessed, main, alpha, beta, r, mid, hi - 1),
                self.term_at(preprocessed, main, alpha, beta, r, hi - 1),
            );
        }
    }

    /// The batch-wise row sum regroups into the plain sum over the first
    /// `min(k * INTERACTION_BATCH_SIZE, n)` interactions.
    pub proof fn lemma_row_batches_sum_regroups(
        self,
        preprocessed: Option<MainTrace>,
        main: MainTrace,
        alpha: Seq<int>,
        beta: Seq<int>,
        r: int,
        k: int,
    )
        requires
            0 <= k <= crate::permutation::num_batches_spec(self.n_itx()),
        ensures
            self.row_batches_sum(preprocessed, main, alpha, beta, r, k) == self.terms_sum(
                preprocessed,
                main,
                alpha,
                beta,
                r,
                0,
                if k * crate::permutation::INTERACTION_BATCH_SIZE <= self.n_itx() {
                    k * crate::permutation::INTERACTION_BATCH_SIZE
                } else {
                    self.n_itx() as int
                },
            ),
        decreases k,
    {
        let n = self.n_itx() as int;
        let bsz = crate::permutation::INTERACTION_BATCH_SIZE as int;
        if k > 0 {
            self.lemma_row_batches_sum_regroups(preprocessed, main, alpha, beta, r, k - 1);
            let m1 = if (k - 1) * bsz <= n {
                (k - 1) * bsz
            } else {
                n
            };
            let m2 = if k * bsz <= n {
                k * bsz
            } else {
                n
            };
            assert((k - 1) * bsz <= n);
            self.lemma_terms_sum_split(preprocessed, main, alpha, beta, r, 0, m1, m2);
        }
    }

    /// The sum over a prefix of a row's occurrences is the term sum over the
    /// same interactions.
    pub proof fn lemma_row_terms_prefix(
        self,
        preprocessed: Option<MainTrace>,
        main: MainTrace,
        alpha: Seq<int>,
        beta: Seq<int>,
        r: int,
        m: int,
    )
        requires
            0 <= m <= self.n_itx(),
        ensures
            sum_terms(self.row_terms(preprocessed, main, r).take(m), alpha, beta)
                == self.terms_sum(preprocessed, main, alpha, beta, r, 0, m),
        decreases m,
    {
        let rt = self.row_terms(preprocessed, main, r);
        if m == 0 {
            assert(rt.take(0) =~= Seq::<TermData>::empty());
        } else {
            assert(rt.take(m).drop_last() =~= rt.take(m - 1));
            assert(rt.take(m).last() == rt[m - 1]);
            self.lemma_row_terms_prefix(preprocessed, main, alpha, beta, r, m - 1);
            assert(term_value(rt[m - 1], alpha, beta) == self.term_at(
                preprocessed,
                main,
                alpha,
                beta,
                r,
                m - 1,
            ));
        }
    }

    /// The running sum at row `r` is the plain sum of every occurrence of the
    /// rows up to and including `r`.
    pub proof fn lemma_cum_col_is_sum_terms(
        self,
        preprocessed: Option<MainTrace>,
        main: MainTrace,
        alpha: Seq<int>,
        beta: Seq<int>,
        r: int,
    )
        requires
            0 <= r < main.height,
        ensures
            self.cum_col(preprocessed, main, alpha, beta, r) == sum_terms(
                self.terms_up_to(preprocessed, main, r + 1),
                alpha,
                beta,
            ),
        decreases r,
    {
        let n = self.n_itx() as int;
        let nb = crate::permutation::num_batches_spec(self.n_itx()) as int;
        let bsz = crate::permutation::INTERACTION_BATCH_SIZE as int;
        assert(nb * bsz >= n);
        self.lemma_row_batches_sum_regroups(preprocessed, main, alpha, beta, r, nb);
        self.lemma_row_terms_prefix(preprocessed, main, alpha, beta, r, n);
        assert(self.row_terms(preprocessed, main, r).take(n) =~= self.row_terms(
            preprocessed,
            main,
            r,
        ));
        if r == 0 {
            assert(self.terms_up_to(preprocessed, main, 1) =~= self.row_terms(
                preprocessed,
                main,
                0,
            ));
        } else {
            self.lemma_cum_col_is_sum_terms(preprocessed, main, alpha, beta, r - 1);
            lemma_sum_concat(
                self.terms_up_to(preprocessed, main, r),
                self.row_terms(preprocessed, main, r),
                alpha,
                beta,
            );
        }
    }

    /// The cumulative sum a chip exposes is the plain sum of all its
    /// interaction occurrences on the shard.
    pub proof fn lemma_cumulative_sum_is_sum_terms(
        self,
        preprocessed: Option<MainTrace>,
        main: MainTrace,
        alpha: Seq<int>,
        beta: Seq<int>,
    )
        ensures
            self.cumulative_sum_spec(preprocessed, main, alpha, beta) == sum_terms(
                self.shard_terms(preprocessed, main),
                alpha,
                beta,
            ),
    {
        if main.height == 0 {
        } else {
            self.lemma_cum_col_is_sum_terms(preprocessed, main, alpha, beta, main.height - 1);
        }
    }
}

/// One table together with its traces for one shard.
pub struct TableInstance {
    /// The table wrapper.
    pub chip: Chip,
    /// The table's preprocessed trace, if it has one.
    pub preprocessed: Option<MainTrace>,
    /// The table's main trace for the shard.
    pub main: MainTrace,
}

/// The interaction occurrences of every table of the proof, in order.
pub open spec fn all_instance_terms(insts: Seq<TableInstance>) -> Seq<TermData>
    decreases insts.len(),
{
    if insts.len() == 0 {
        Seq::empty()
    } else {
        all_instance_terms(insts.drop_last()) + insts.last().chip.shard_terms(
            insts.last().preprocessed,
            insts.last().main,
        )
    }
}

/// The sum of the cumulative sums every table exposes.
pub open spec fn total_cumulative(insts: Seq<TableInstance>, alpha: Seq<int>, beta: Seq<int>) -> Seq<
    int,
>
    decreases insts.len(),
{
    if insts.len() == 0 {
        szero()
    } else {
        sadd(
            total_cumulative(insts.drop_last(), alpha, beta),
            insts.last().chip.cumulative_sum_spec(
                insts.last().preprocessed,
                insts.last().main,
                alpha,
                beta,
            ),
        )
    }
}

/// The total of the exposed cumulative sums is the plain sum of every
/// occurrence of every table.
pub proof fn lemma_total_is_sum_of_all(insts: Seq<TableInstance>, alpha: Seq<int>, beta: Seq<int>)
    ensures
        total_cumulative(insts, alpha, beta) == sum_terms(all_instance_terms(insts), alpha, beta),
    decreases insts.len(),
{
    if insts.len() != 0 {
        let last = insts.last();
        lemma_total_is_sum_of_all(insts.drop_last(), alpha, beta);
        last.chip.lemma_cumulative_sum_is_sum_terms(last.preprocessed, last.main, alpha, beta);
        lemma_sum_concat(
            all_instance_terms(insts.drop_last()),
            last.chip.shard_terms(last.preprocessed, last.main),
            alpha,
            beta,
        );
    }
}

/// Global balance: over any set of tables and any valid execution — one in
/// which every tuple on every channel is sent exactly as often as it is
/// received, counting multiplicities in the field — the cumulative sums the
/// tables expose add to zero.
pub proof fn lemma_global_balance(insts: Seq<TableInstance>, alpha: Seq<int>, beta: Seq<int>)
    requires
        balanced(all_instance_terms(insts)),
    ensures
        total_cumulative(insts, alpha, beta) == szero(),
{
    lemma_total_is_sum_of_all(insts, alpha, beta);
    lemma_balanced_sum_zero(all_instance_terms(insts), alpha, beta);
}

} // verus!
