//! Table wrappers.
//!
//! A table brings its own arithmetization: a list of declarations, each either
//! an algebraic identity to hold on every row or a send/receive interaction.
//! Wrapping a table harvests its interactions (the interaction collector),
//! checks each declared tuple against its channel's fixed arity, and fixes the
//! quotient-degree bound. Construction is a pure function of the table, so two
//! wrappers built from the same table carry the same interaction lists.

use vstd::prelude::*;

use crate::expr::Expr;
use crate::interaction::Interaction;
use crate::interaction::InteractionKind;

verus! {

/// The assumed maximum degree of a table's combined (execution plus
/// permutation) constraints. The quotient-degree bound is derived from this
/// fixed assumption rather than from an exact per-table degree analysis; a
/// table whose true combined degree exceeds it will mis-size the quotient
/// polynomial downstream.
pub const MAX_CONSTRAINT_DEGREE: usize = 3;

/// The ceiling of the base-2 logarithm, with `0` for `n <= 1`.
pub open spec fn log2_ceil_spec(n: nat) -> nat
    decreases n,
{
    if n <= 1 {
        0
    } else {
        1 + log2_ceil_spec(((n + 1) / 2) as nat)
    }
}

/// Relies on `p3_util::log2_ceil_usize`: the ceiling of the base-2 logarithm,
/// `0` for `n <= 1`.
#[verifier::external_body]
fn log2_ceil_usize(n: usize) -> (r: usize)
    ensures
        r as nat == log2_ceil_spec(n as nat),
{
    p3_util::log2_ceil_usize(n)
}

/// Why a lookup operation failed.
#[derive(Clone, Copy, PartialEq, Eq, Structural, Debug)]
pub enum LookupError {
    /// A table declared an interaction whose tuple width does not match its
    /// channel's fixed arity; the wrapper cannot be constructed.
    ArityMismatch,
    /// A randomized denominator of the running-sum argument was zero; the
    /// permutation trace cannot be generated.
    ZeroDenominator,
}

/// One interaction as a table declares it, before collection assigns an index.
#[derive(Debug)]
pub struct InteractionDecl {
    /// One symbolic expression per tuple element.
    pub values: Vec<Expr>,
    /// The symbolic multiplicity.
    pub multiplicity: Expr,
    /// The logical channel.
    pub kind: InteractionKind,
}

impl InteractionDecl {
    /// The declaration's expressions fit the trace widths.
    pub open spec fn wf(self, prep_width: nat, main_width: nat) -> bool {
        &&& forall|i: int|
            0 <= i < self.values@.len() ==> (#[trigger] self.values@[i]).wf(
                prep_width,
                main_width,
            )
        &&& self.multiplicity.wf(prep_width, main_width)
    }

    /// The declared tuple has its channel's fixed arity.
    pub open spec fn arity_ok(self) -> bool {
        self.values@.len() == self.kind.arity_spec()
    }
}

/// One declaration of a table's constraint-evaluation logic.
#[derive(Debug)]
pub enum TableOp {
    /// An algebraic identity that must evaluate to zero on every row.
    Assert(Expr),
    /// A sent interaction.
    Send(InteractionDecl),
    /// A received interaction.
    Receive(InteractionDecl),
}

impl TableOp {
    /// The operation's expressions fit the trace widths.
    pub open spec fn wf(self, prep_width: nat, main_width: nat) -> bool {
        match self {
            TableOp::Assert(e) => e.wf(prep_width, main_width),
            TableOp::Send(d) => d.wf(prep_width, main_width),
            TableOp::Receive(d) => d.wf(prep_width, main_width),
        }
    }
}

/// A table's arithmetization: its shape and its declared constraint logic.
#[derive(Debug)]
pub struct TableDef {
    /// The table's index into a shard's event counts.
    pub id: usize,
    /// The table's name.
    pub name: String,
    /// The number of preprocessed-trace columns.
    pub preprocessed_width: usize,
    /// The number of main-trace columns.
    pub width: usize,
    /// The table's constraint-evaluation logic, in declaration order.
    pub ops: Vec<TableOp>,
}

impl TableDef {
    /// The table's declarations fit its declared widths.
    pub open spec fn wf(self) -> bool {
        &&& self.width > 0
        &&& forall|i: int|
            0 <= i < self.ops@.len() ==> (#[trigger] self.ops@[i]).wf(
                self.preprocessed_width as nat,
                self.width as nat,
            )
    }
}

/// The send declarations of a table's logic, in declaration order.
pub open spec fn send_decls(ops: Seq<TableOp>) -> Seq<InteractionDecl>
    decreases ops.len(),
{
    if ops.len() == 0 {
        Seq::empty()
    } else {
        send_decls(ops.drop_last()) + (match ops.last() {
            TableOp::Send(d) => seq![d],
            _ => Seq::empty(),
        })
    }
}

/// The receive declarations of a table's logic, in declaration order.
pub open spec fn receive_decls(ops: Seq<TableOp>) -> Seq<InteractionDecl>
    decreases ops.len(),
{
    if ops.len() == 0 {
        Seq::empty()
    } else {
        receive_decls(ops.drop_last()) + (match ops.last() {
            TableOp::Receive(d) => seq![d],
            _ => Seq::empty(),
        })
    }
}

/// Every interaction a table declares has its channel's arity.
pub open spec fn all_arity_ok(ops: Seq<TableOp>) -> bool {
    forall|i: int|
        0 <= i < ops.len() ==> match #[trigger] ops[i] {
            TableOp::Assert(_) => true,
            TableOp::Send(d) => d.arity_ok(),
            TableOp::Receive(d) => d.arity_ok(),
        }
}

/// Collected declarations inherit well-formedness and arity from the table's
/// operations.
pub proof fn lemma_decls_inherit(ops: Seq<TableOp>, pw: nat, mw: nat)
    requires
        forall|i: int| 0 <= i < ops.len() ==> (#[trigger] ops[i]).wf(pw, mw),
        all_arity_ok(ops),
    ensures
        forall|k: int|
            0 <= k < send_decls(ops).len() ==> (#[trigger] send_decls(ops)[k]).wf(pw, mw) && (
            #[trigger] send_decls(ops)[k]).arity_ok(),
        forall|k: int|
            0 <= k < receive_decls(ops).len() ==> (#[trigger] receive_decls(ops)[k]).wf(pw, mw)
                && (#[trigger] receive_decls(ops)[k]).arity_ok(),
    decreases ops.len(),
{
    if ops.len() > 0 {
        let prefix = ops.drop_last();
        assert forall|i: int| 0 <= i < prefix.len() implies (#[trigger] prefix[i]).wf(pw, mw) by {
            assert(prefix[i] == ops[i]);
        }
        assert forall|i: int|
            0 <= i < prefix.len() implies match #[trigger] prefix[i] {
            TableOp::Assert(_) => true,
            TableOp::Send(d) => d.arity_ok(),
            TableOp::Receive(d) => d.arity_ok(),
        } by {
            assert(prefix[i] == ops[i]);
        }
        lemma_decls_inherit(prefix, pw, mw);
        assert(ops[ops.len() - 1] == ops.last());
        assert forall|k: int|
            0 <= k < send_decls(ops).len() implies (#[trigger] send_decls(ops)[k]).wf(pw, mw) && (
        send_decls(ops)[k]).arity_ok() by {
            if k < send_decls(prefix).len() {
                assert(send_decls(ops)[k] == send_decls(prefix)[k]);
            } else {
                assert(send_decls(ops)[k] == send_decls(ops).last());
            }
        }
        assert forall|k: int|
            0 <= k < receive_decls(ops).len() implies (#[trigger] receive_decls(ops)[k]).wf(
            pw,
            mw,
        ) && (receive_decls(ops)[k]).arity_ok() by {
            if k < receive_decls(prefix).len() {
                assert(receive_decls(ops)[k] == receive_decls(prefix)[k]);
            } else {
                assert(receive_decls(ops)[k] == receive_decls(ops).last());
            }
        }
    }
}

/// The records are exactly the given declarations, in order, each carrying its
/// index in the list.
pub open spec fn matches_decls(records: Seq<Interaction>, decls: Seq<InteractionDecl>) -> bool {
    &&& records.len() == decls.len()
    &&& forall|j: int|
        0 <= j < records.len() ==> {
            &&& (#[trigger] records[j]).values@ == decls[j].values@
            &&& records[j].multiplicity == decls[j].multiplicity
            &&& records[j].kind == decls[j].kind
            &&& records[j].id == j
        }
}

/// Two declarations have the same content.
pub open spec fn decls_equal(a: InteractionDecl, b: InteractionDecl) -> bool {
    &&& a.values@ == b.values@
    &&& a.multiplicity == b.multiplicity
    &&& a.kind == b.kind
}

/// Two operations have the same content.
pub open spec fn ops_equal(a: TableOp, b: TableOp) -> bool {
    match (a, b) {
        (TableOp::Assert(e1), TableOp::Assert(e2)) => e1 == e2,
        (TableOp::Send(d1), TableOp::Send(d2)) => decls_equal(d1, d2),
        (TableOp::Receive(d1), TableOp::Receive(d2)) => decls_equal(d1, d2),
        _ => false,
    }
}

/// Two tables have the same definition.
pub open spec fn tables_equal(a: TableDef, b: TableDef) -> bool {
    &&& a.id == b.id
    &&& a.name@ == b.name@
    &&& a.preprocessed_width == b.preprocessed_width
    &&& a.width == b.width
    &&& a.ops@.len() == b.ops@.len()
    &&& forall|i: int| 0 <= i < a.ops@.len() ==> ops_equal(#[trigger] a.ops@[i], b.ops@[i])
}

/// Structural equality of two expressions.
fn expr_eq(a: &Expr, b: &Expr) -> (r: bool)
    ensures
        r == (*a == *b),
    decreases *a,
{
    match (a, b) {
        (Expr::Const(f1), Expr::Const(f2)) => f1 == f2,
        (Expr::Prep(i1), Expr::Prep(i2)) => i1 == i2,
        (Expr::Main(i1), Expr::Main(i2)) => i1 == i2,
        (Expr::Add(l1, r1), Expr::Add(l2, r2)) => expr_eq(l1, l2) && expr_eq(r1, r2),
        (Expr::Sub(l1, r1), Expr::Sub(l2, r2)) => expr_eq(l1, l2) && expr_eq(r1, r2),
        (Expr::Mul(l1, r1), Expr::Mul(l2, r2)) => expr_eq(l1, l2) && expr_eq(r1, r2),
        (Expr::Neg(e1), Expr::Neg(e2)) => expr_eq(e1, e2),
        _ => false,
    }
}

/// Element-wise equality of two expression vectors.
fn exprs_eq(a: &Vec<Expr>, b: &Vec<Expr>) -> (r: bool)
    ensures
        r == (a@ == b@),
{
    if a.len() != b.len() {
        return false;
    }
    let mut i: usize = 0;
    #[verifier::loop_isolation(false)]
    while i < a.len()
        invariant
            i <= a@.len(),
            forall|j: int| 0 <= j < i ==> a@[j] == b@[j],
        decreases a@.len() - i,
    {
        if !expr_eq(&a[i], &b[i]) {
            return false;
        }
        i += 1;
    }
    proof {
        assert(a@ =~= b@);
    }
    true
}

/// Equality of two declarations.
fn decl_eq(a: &InteractionDecl, b: &InteractionDecl) -> (r: bool)
    ensures
        r == decls_equal(*a, *b),
{
    exprs_eq(&a.values, &b.values) && expr_eq(&a.multiplicity, &b.multiplicity) && a.kind == b.kind
}

/// Equality of two operations.
fn op_eq(a: &TableOp, b: &TableOp) -> (r: bool)
    ensures
        r == ops_equal(*a, *b),
{
    match (a, b) {
        (TableOp::Assert(e1), TableOp::Assert(e2)) => expr_eq(e1, e2),
        (TableOp::Send(d1), TableOp::Send(d2)) => decl_eq(d1, d2),
        (TableOp::Receive(d1), TableOp::Receive(d2)) => decl_eq(d1, d2),
        _ => false,
    }
}

/// Equality of two table definitions.
fn table_eq(a: &TableDef, b: &TableDef) -> (r: bool)
    ensures
        r == tables_equal(*a, *b),
{
    if a.id != b.id || !(a.name == b.name) || a.preprocessed_width != b.preprocessed_width
        || a.width != b.width || a.ops.len() != b.ops.len() {
        return false;
    }
    let mut i: usize = 0;
    #[verifier::loop_isolation(false)]
    while i < a.ops.len()
        invariant
            i <= a.ops@.len(),
            forall|j: int| 0 <= j < i ==> ops_equal(#[trigger] a.ops@[j], b.ops@[j]),
        decreases a.ops@.len() - i,
    {
        if !op_eq(&a.ops[i], &b.ops[i]) {
            return false;
        }
        i += 1;
    }
    true
}

/// Two interaction records have the same content.
pub open spec fn same_interaction(a: Interaction, b: Interaction) -> bool {
    &&& a.values@ == b.values@
    &&& a.multiplicity == b.multiplicity
    &&& a.kind == b.kind
    &&& a.id == b.id
}

/// Construction is deterministic: two wrappers built from tables with the same
/// constraint logic carry the same send and receive lists — same order, same
/// content — and the same quotient-degree bound.
pub proof fn lemma_construction_deterministic(c1: Chip, c2: Chip)
    requires
        c1.wf(),
        c2.wf(),
        c1.table.ops@ == c2.table.ops@,
    ensures
        c1.sends@.len() == c2.sends@.len(),
        c1.receives@.len() == c2.receives@.len(),
        forall|j: int|
            0 <= j < c1.sends@.len() ==> same_interaction(
                #[trigger] c1.sends@[j],
                c2.sends@[j],
            ),
        forall|j: int|
            0 <= j < c1.receives@.len() ==> same_interaction(
                #[trigger] c1.receives@[j],
                c2.receives@[j],
            ),
        c1.log_quotient_degree == c2.log_quotient_degree,
{
}

/// A bounded slice of the overall execution: how many events each table has.
#[derive(Debug)]
pub struct Shard {
    /// Event counts, indexed by table id.
    pub event_counts: Vec<u64>,
}

/// A deep copy of an expression.
fn copy_expr(e: &Expr) -> (r: Expr)
    ensures
        r == *e,
    decreases *e,
{
    match e {
        Expr::Const(f) => Expr::Const(*f),
        Expr::Prep(i) => Expr::Prep(*i),
        Expr::Main(i) => Expr::Main(*i),
        Expr::Add(l, rr) => Expr::Add(Box::new(copy_expr(l)), Box::new(copy_expr(rr))),
        Expr::Sub(l, rr) => Expr::Sub(Box::new(copy_expr(l)), Box::new(copy_expr(rr))),
        Expr::Mul(l, rr) => Expr::Mul(Box::new(copy_expr(l)), Box::new(copy_expr(rr))),
        Expr::Neg(e0) => Expr::Neg(Box::new(copy_expr(e0))),
    }
}

/// A deep copy of a vector of expressions.
fn copy_exprs(es: &Vec<Expr>) -> (r: Vec<Expr>)
    ensures
        r@ == es@,
{
    let mut out: Vec<Expr> = Vec::new();
    let mut i: usize = 0;
    while i < es.len()
        invariant
            i <= es@.len(),
            out@ == es@.take(i as int),
        decreases es@.len() - i,
    {
        out.push(copy_expr(&es[i]));
        proof {
            assert(out@ =~= es@.take(i as int + 1));
        }
        i += 1;
    }
    proof {
        assert(es@.take(es@.len() as int) =~= es@);
    }
    out
}

/// Runs a table's constraint logic once in recording mode and harvests every
/// interaction it declares, preserving declaration order, or reports the first
/// declaration whose tuple width does not match its channel's arity.
pub fn collect_interactions(table: &TableDef) -> (r: Result<
    (Vec<Interaction>, Vec<Interaction>),
    LookupError,
>)
    ensures
        r is Ok <==> all_arity_ok(table.ops@),
        r is Err ==> r->Err_0 == LookupError::ArityMismatch,
        r is Ok ==> matches_decls(r->Ok_0.0@, send_decls(table.ops@)) && matches_decls(
            r->Ok_0.1@,
            receive_decls(table.ops@),
        ),
{
    let mut sends: Vec<Interaction> = Vec::new();
    let mut receives: Vec<Interaction> = Vec::new();
    let mut i: usize = 0;
    while i < table.ops.len()
        invariant
            i <= table.ops@.len(),
            matches_decls(sends@, send_decls(table.ops@.take(i as int))),
            matches_decls(receives@, receive_decls(table.ops@.take(i as int))),
            all_arity_ok(table.ops@.take(i as int)),
        decreases table.ops@.len() - i,
    {
        proof {
            assert(table.ops@.take(i as int + 1).drop_last() =~= table.ops@.take(i as int));
            assert(table.ops@.take(i as int + 1).last() == table.ops@[i as int]);
        }
        match &table.ops[i] {
            TableOp::Assert(_) => {
                proof {
                    assert(send_decls(table.ops@.take(i as int + 1)) =~= send_decls(
                        table.ops@.take(i as int),
                    ));
                    assert(receive_decls(table.ops@.take(i as int + 1)) =~= receive_decls(
                        table.ops@.take(i as int),
                    ));
                }
            },
            TableOp::Send(d) => {
                if d.values.len() != d.kind.arity() {
                    proof {
                        assert(table.ops@[i as int] == TableOp::Send(*d));
                        assert(!all_arity_ok(table.ops@));
                    }
                    return Err(LookupError::ArityMismatch);
                }
                let record = Interaction {
                    values: copy_exprs(&d.values),
                    multiplicity: copy_expr(&d.multiplicity),
                    kind: d.kind,
                    id: sends.len(),
                };
                sends.push(record);
                proof {
                    assert(send_decls(table.ops@.take(i as int + 1)) =~= send_decls(
                        table.ops@.take(i as int),
                    ) + seq![*d]);
                    assert(receive_decls(table.ops@.take(i as int + 1)) =~= receive_decls(
                        table.ops@.take(i as int),
                    ));
                    assert(matches_decls(sends@, send_decls(table.ops@.take(i as int + 1))));
                }
            },
            TableOp::Receive(d) => {
                if d.values.len() != d.kind.arity() {
                    proof {
                        assert(table.ops@[i as int] == TableOp::Receive(*d));
                        assert(!all_arity_ok(table.ops@));
                    }
                    return Err(LookupError::ArityMismatch);
                }
                let record = Interaction {
                    values: copy_exprs(&d.values),
                    multiplicity: copy_expr(&d.multiplicity),
                    kind: d.kind,
                    id: receives.len(),
                };
                receives.push(record);
                proof {
                    assert(receive_decls(table.ops@.take(i as int + 1)) =~= receive_decls(
                        table.ops@.take(i as int),
                    ) + seq![*d]);
                    assert(send_decls(table.ops@.take(i as int + 1)) =~= send_decls(
                        table.ops@.take(i as int),
                    ));
                    assert(matches_decls(
                        receives@,
                        receive_decls(table.ops@.take(i as int + 1)),
                    ));
                }
            },
        }
        i += 1;
    }
    proof {
        assert(table.ops@.take(table.ops@.len() as int) =~= table.ops@);
    }
    Ok((sends, receives))
}

/// A table wrapper: the wrapped arithmetization, its harvested interactions,
/// and the quotient-degree bound. The interaction lists and the degree are a
/// pure function of the table.
#[derive(Debug)]
pub struct Chip {
    /// The wrapped table.
    pub table: TableDef,
    /// The interactions the table sends, in declaration order.
    pub sends: Vec<Interaction>,
    /// The interactions the table receives, in declaration order.
    pub receives: Vec<Interaction>,
    /// `log2(ceil(MAX_CONSTRAINT_DEGREE - 1))`: the relative log degree of the
    /// quotient polynomial.
    pub log_quotient_degree: usize,
}

impl Chip {
    /// The wrapper's derived fields are exactly what collection over its table
    /// yields.
    pub open spec fn wf(self) -> bool {
        &&& self.table.wf()
        &&& all_arity_ok(self.table.ops@)
        &&& matches_decls(self.sends@, send_decls(self.table.ops@))
        &&& matches_decls(self.receives@, receive_decls(self.table.ops@))
        &&& self.log_quotient_degree as nat == log2_ceil_spec((MAX_CONSTRAINT_DEGREE - 1) as nat)
    }

    /// Records the interactions and the constraint-degree bound from the
    /// table's logic and creates a new wrapper. Fails exactly when some
    /// declared interaction does not match its channel's arity.
    pub fn new(table: TableDef) -> (r: Result<Chip, LookupError>)
        requires
            table.wf(),
        ensures
            r is Ok <==> all_arity_ok(table.ops@),
            r is Err ==> r->Err_0 == LookupError::ArityMismatch,
            r is Ok ==> r->Ok_0.wf() && r->Ok_0.table == table,
    {
        let (sends, receives) = match collect_interactions(&table) {
            Ok(pair) => pair,
            Err(e) => {
                return Err(e);
            },
        };
        let log_quotient_degree = log2_ceil_usize(MAX_CONSTRAINT_DEGREE - 1);
        Ok(Chip { table, sends, receives, log_quotient_degree })
    }

    /// The send interactions of the chip.
    pub fn sends(&self) -> (r: &Vec<Interaction>)
        ensures
            r == &self.sends,
    {
        &self.sends
    }

    /// The receive interactions of the chip.
    pub fn receives(&self) -> (r: &Vec<Interaction>)
        ensures
            r == &self.receives,
    {
        &self.receives
    }

    /// The relative log degree of the quotient polynomial.
    pub fn log_quotient_degree(&self) -> (r: usize)
        ensures
            r == self.log_quotient_degree,
    {
        self.log_quotient_degree
    }

    /// The number of interactions the chip declares.
    pub fn num_interactions(&self) -> (r: usize)
        requires
            self.sends@.len() + self.receives@.len() <= usize::MAX,
        ensures
            r == self.sends@.len() + self.receives@.len(),
    {
        self.sends.len() + self.receives.len()
    }

    /// The main-trace width of the wrapped table.
    pub fn width(&self) -> (r: usize)
        ensures
            r == self.table.width,
    {
        self.table.width
    }

    /// The preprocessed-trace width of the wrapped table.
    pub fn preprocessed_width(&self) -> (r: usize)
        ensures
            r == self.table.preprocessed_width,
    {
        self.table.preprocessed_width
    }

    /// The name of the wrapped table.
    pub fn name(&self) -> (r: &String)
        ensures
            r == &self.table.name,
    {
        &self.table.name
    }

    /// Whether the chip participates in the given shard.
    pub open spec fn included_spec(self, shard: Shard) -> bool {
        &&& (self.table.id as int) < shard.event_counts@.len()
        &&& shard.event_counts@[self.table.id as int] > 0
    }

    /// Returns whether the chip is included in the given execution shard: it
    /// is skipped exactly when the shard holds no events for it.
    pub fn included(&self, shard: &Shard) -> (r: bool)
        ensures
            r == self.included_spec(*shard),
    {
        self.table.id < shard.event_counts.len() && shard.event_counts[self.table.id] > 0
    }
}

/// Wrapper equality delegates to the wrapped table alone: the interaction
/// lists and the degree bound are a pure function of it, so they need not be
/// compared.
impl PartialEq for Chip {
    fn eq(&self, other: &Chip) -> (r: bool) {
        table_eq(&self.table, &other.table)
    }
}

impl vstd::std_specs::cmp::PartialEqSpecImpl for Chip {
    open spec fn obeys_eq_spec() -> bool {
        true
    }

    open spec fn eq_spec(&self, other: &Chip) -> bool {
        tables_equal(self.table, other.table)
    }
}

} // verus!
