//! Symbolic row expressions.
//!
//! A table declares its constraints and interactions as expressions over the
//! columns of its (preprocessed and main) trace at the current row, together
//! with base-field constants. The same expression is read twice: once by the
//! interaction collector, purely symbolically, and once per trace row when the
//! permutation trace is generated and constraints are evaluated numerically.

use vstd::prelude::*;

use crate::field::Felt;
use crate::field::f_add;
use crate::field::f_mul;
use crate::field::f_neg;
use crate::field::f_sub;
use crate::field::prime;

verus! {

/// A symbolic expression over one trace row.
#[derive(Debug)]
pub enum Expr {
    /// A base-field constant.
    Const(Felt),
    /// The value of a preprocessed-trace column at the current row.
    Prep(usize),
    /// The value of a main-trace column at the current row.
    Main(usize),
    /// The sum of two expressions.
    Add(Box<Expr>, Box<Expr>),
    /// The difference of two expressions.
    Sub(Box<Expr>, Box<Expr>),
    /// The product of two expressions.
    Mul(Box<Expr>, Box<Expr>),
    /// The negation of an expression.
    Neg(Box<Expr>),
}

impl Expr {
    /// Every constant is canonical and every column reference lies inside the
    /// declared trace widths.
    pub open spec fn wf(self, prep_width: nat, main_width: nat) -> bool
        decreases self,
    {
        match self {
            Expr::Const(f) => f.wf(),
            Expr::Prep(i) => (i as nat) < prep_width,
            Expr::Main(i) => (i as nat) < main_width,
            Expr::Add(l, r) => l.wf(prep_width, main_width) && r.wf(prep_width, main_width),
            Expr::Sub(l, r) => l.wf(prep_width, main_width) && r.wf(prep_width, main_width),
            Expr::Mul(l, r) => l.wf(prep_width, main_width) && r.wf(prep_width, main_width),
            Expr::Neg(e) => e.wf(prep_width, main_width),
        }
    }

    /// The value of the expression on one row, given the row's preprocessed
    /// and main column values as canonical representatives.
    pub open spec fn eval(self, prep: Seq<int>, main: Seq<int>) -> int
        decreases self,
    {
        match self {
            Expr::Const(f) => f@,
            Expr::Prep(i) => prep[i as int],
            Expr::Main(i) => main[i as int],
            Expr::Add(l, r) => f_add(l.eval(prep, main), r.eval(prep, main)),
            Expr::Sub(l, r) => f_sub(l.eval(prep, main), r.eval(prep, main)),
            Expr::Mul(l, r) => f_mul(l.eval(prep, main), r.eval(prep, main)),
            Expr::Neg(e) => f_neg(e.eval(prep, main)),
        }
    }
}

/// The canonical values of a sequence of field elements.
pub open spec fn felts_view(s: Seq<Felt>) -> Seq<int> {
    s.map_values(|f: Felt| f@)
}

/// Every element of the row is canonical.
pub open spec fn row_wf(s: Seq<Felt>) -> bool {
    forall|i: int| 0 <= i < s.len() ==> (#[trigger] s[i]).wf()
}

/// A well-formed expression evaluates to a canonical representative.
pub proof fn lemma_eval_canonical(e: Expr, prep: Seq<int>, main: Seq<int>, pw: nat, mw: nat)
    requires
        e.wf(pw, mw),
        prep.len() == pw,
        main.len() == mw,
        forall|i: int| 0 <= i < prep.len() ==> 0 <= #[trigger] prep[i] < prime(),
        forall|i: int| 0 <= i < main.len() ==> 0 <= #[trigger] main[i] < prime(),
    ensures
        0 <= e.eval(prep, main) < prime(),
    decreases e,
{
    match e {
        Expr::Const(f) => {},
        Expr::Prep(i) => {},
        Expr::Main(i) => {},
        Expr::Add(l, r) => {
            lemma_eval_canonical(*l, prep, main, pw, mw);
            lemma_eval_canonical(*r, prep, main, pw, mw);
        },
        Expr::Sub(l, r) => {
            lemma_eval_canonical(*l, prep, main, pw, mw);
            lemma_eval_canonical(*r, prep, main, pw, mw);
        },
        Expr::Mul(l, r) => {
            lemma_eval_canonical(*l, prep, main, pw, mw);
            lemma_eval_canonical(*r, prep, main, pw, mw);
        },
        Expr::Neg(e0) => {
            lemma_eval_canonical(*e0, prep, main, pw, mw);
        },
    }
}

/// Evaluates an expression on one row of column values.
pub fn eval_expr(e: &Expr, prep: &Vec<Felt>, main: &Vec<Felt>) -> (r: Felt)
    requires
        e.wf(prep@.len(), main@.len()),
        row_wf(prep@),
        row_wf(main@),
    ensures
        r.wf(),
        r@ == e.eval(felts_view(prep@), felts_view(main@)),
    decreases *e,
{
    match e {
        Expr::Const(f) => *f,
        Expr::Prep(i) => prep[*i],
        Expr::Main(i) => main[*i],
        Expr::Add(l, r) => eval_expr(l, prep, main).add(eval_expr(r, prep, main)),
        Expr::Sub(l, r) => eval_expr(l, prep, main).sub(eval_expr(r, prep, main)),
        Expr::Mul(l, r) => eval_expr(l, prep, main).mul(eval_expr(r, prep, main)),
        Expr::Neg(e0) => eval_expr(e0, prep, main).neg(),
    }
}

} // verus!
