use stark_lookup::bytes_utils::lt;
use stark_lookup::bytes_utils::shr_carry;
use stark_lookup::chip::Chip;
use stark_lookup::chip::InteractionDecl;
use stark_lookup::chip::LookupError;
use stark_lookup::chip::Shard;
use stark_lookup::chip::TableDef;
use stark_lookup::chip::TableOp;
use stark_lookup::expr::Expr;
use stark_lookup::ext::ExtFelt;
use stark_lookup::field::Felt;
use stark_lookup::field::FIELD_PRIME;
use stark_lookup::interaction::InteractionKind;
use stark_lookup::memory::Block;
use stark_lookup::memory::MemoryAccessCols;
use stark_lookup::memory::MemoryCols;
use stark_lookup::memory::MemoryInitCols;
use stark_lookup::memory::MemoryReadCols;
use stark_lookup::memory::MemoryReadWriteCols;
use stark_lookup::memory::MemoryWriteCols;
use stark_lookup::trace::MainTrace;

/// Tests the `shr_carry` function.
#[test]
fn test_shr_carry() {
    println!("{:?}", shr_carry(0, 2));
}

#[test]
fn shr_carry_splits_the_byte() {
    assert_eq!(shr_carry(0b1011_0101, 3), (0b1_0110, 0b101));
    assert_eq!(shr_carry(0xff, 1), (0x7f, 0x1));
    assert_eq!(shr_carry(0xab, 0), (0xab, 0));
    assert_eq!(shr_carry(0xab, 8), (0xab, 0));
    assert_eq!(shr_carry(0x01, 9), (0x00, 0x01));
}

#[test]
fn lt_is_the_strict_comparison() {
    assert_eq!(lt(1, 2), 1);
    assert_eq!(lt(2, 1), 0);
    assert_eq!(lt(7, 7), 0);
    assert_eq!(lt(0, 255), 1);
}

#[test]
fn field_ops_reduce_modulo_the_prime() {
    assert_eq!(Felt::new(FIELD_PRIME + 5).value, 5);
    assert_eq!(Felt::new(FIELD_PRIME - 1).add(Felt::new(2)).value, 1);
    assert_eq!(Felt::new(3).sub(Felt::new(5)).value, FIELD_PRIME - 2);
    let two_to_32 = ((1u64 << 32) % FIELD_PRIME as u64) as u32;
    assert_eq!(Felt::new(1 << 16).mul(Felt::new(1 << 16)).value, two_to_32);
    assert_eq!(Felt::new(7).neg().value, FIELD_PRIME - 7);
    assert_eq!(Felt::new(0).neg().value, 0);
}

#[test]
fn ext_ops_are_coefficient_wise() {
    let x = ExtFelt { c0: 1, c1: 2, c2: 3, c3: 4 };
    let y = ExtFelt { c0: 10, c1: 20, c2: 30, c3: 40 };
    assert_eq!(x.add(y), ExtFelt { c0: 11, c1: 22, c2: 33, c3: 44 });
    assert_eq!(y.sub(x), ExtFelt { c0: 9, c1: 18, c2: 27, c3: 36 });
    assert_eq!(
        x.neg(),
        ExtFelt {
            c0: FIELD_PRIME - 1,
            c1: FIELD_PRIME - 2,
            c2: FIELD_PRIME - 3,
            c3: FIELD_PRIME - 4
        }
    );
    assert_eq!(x.scale(Felt::new(3)), ExtFelt { c0: 3, c1: 6, c2: 9, c3: 12 });
}

#[test]
fn ext_mul_is_the_binomial_product() {
    // (1 + X) * (1 + X) = 1 + 2X + X^2, no reduction by X^4 - W needed.
    let x = ExtFelt { c0: 1, c1: 1, c2: 0, c3: 0 };
    assert_eq!(x.mul(x), ExtFelt { c0: 1, c1: 2, c2: 1, c3: 0 });
    // X^2 * X^2 = X^4 = W = 11 in the BabyBear binomial extension.
    let x2 = ExtFelt { c0: 0, c1: 0, c2: 1, c3: 0 };
    assert_eq!(x2.mul(x2), ExtFelt { c0: 11, c1: 0, c2: 0, c3: 0 });
}

#[test]
fn ext_inverse_is_the_multiplicative_inverse() {
    let x = ExtFelt { c0: 2, c1: 5, c2: 7, c3: 11 };
    assert_eq!(x.mul(x.inverse()), ExtFelt::one());
    let two = ExtFelt::from_felt(Felt::new(2));
    assert_eq!(two.inverse(), ExtFelt::from_felt(Felt::new((FIELD_PRIME + 1) / 2)));
}

fn range_send(v0: u32, v1: u32, mult: u32) -> TableOp {
    TableOp::Send(InteractionDecl {
        values: vec![Expr::Const(Felt::new(v0)), Expr::Const(Felt::new(v1))],
        multiplicity: Expr::Const(Felt::new(mult)),
        kind: InteractionKind::Range,
    })
}

fn range_receive(v0: u32, v1: u32, mult: u32) -> TableOp {
    TableOp::Receive(InteractionDecl {
        values: vec![Expr::Const(Felt::new(v0)), Expr::Const(Felt::new(v1))],
        multiplicity: Expr::Const(Felt::new(mult)),
        kind: InteractionKind::Range,
    })
}

fn table(id: usize, name: &str, ops: Vec<TableOp>) -> TableDef {
    TableDef { id, name: String::from(name), preprocessed_width: 0, width: 1, ops }
}

fn one_row_trace() -> MainTrace {
    MainTrace::from_values(vec![0], 1).unwrap()
}

fn challenges() -> Vec<ExtFelt> {
    vec![ExtFelt { c0: 2, c1: 3, c2: 4, c3: 5 }, ExtFelt { c0: 6, c1: 7, c2: 8, c3: 9 }]
}

#[test]
fn wrapper_records_interactions_in_declaration_order() {
    let t = table(
        0,
        "mixed",
        vec![
            range_send(1, 2, 1),
            TableOp::Assert(Expr::Sub(
                Box::new(Expr::Main(0)),
                Box::new(Expr::Const(Felt::new(0))),
            )),
            range_receive(3, 4, 1),
            range_send(5, 6, 1),
        ],
    );
    let chip = Chip::new(t).unwrap();
    assert_eq!(chip.sends().len(), 2);
    assert_eq!(chip.receives().len(), 1);
    assert_eq!(chip.num_interactions(), 3);
    assert_eq!(chip.sends()[0].id, 0);
    assert_eq!(chip.sends()[1].id, 1);
    assert_eq!(chip.receives()[0].id, 0);
    assert_eq!(chip.name(), "mixed");
    assert_eq!(chip.width(), 1);
}

#[test]
fn log_quotient_degree_comes_from_the_fixed_bound() {
    let chip = Chip::new(table(0, "any", vec![])).unwrap();
    // log2(ceil(3 - 1)) = 1 under the fixed maximum-degree assumption.
    assert_eq!(chip.log_quotient_degree(), 1);
}

#[test]
fn arity_mismatch_fails_construction() {
    // A Range interaction carries exactly two values; declare three.
    let bad = TableDef {
        id: 0,
        name: String::from("bad"),
        preprocessed_width: 0,
        width: 1,
        ops: vec![TableOp::Send(InteractionDecl {
            values: vec![
                Expr::Const(Felt::new(1)),
                Expr::Const(Felt::new(2)),
                Expr::Const(Felt::new(3)),
            ],
            multiplicity: Expr::Const(Felt::new(1)),
            kind: InteractionKind::Range,
        })],
    };
    assert_eq!(Chip::new(bad).unwrap_err(), LookupError::ArityMismatch);
}

#[test]
fn construction_is_deterministic() {
    let mk = || table(3, "twice", vec![range_send(5, 7, 1), range_receive(2, 2, 4)]);
    let c1 = Chip::new(mk()).unwrap();
    let c2 = Chip::new(mk()).unwrap();
    assert_eq!(c1.sends().len(), c2.sends().len());
    assert_eq!(c1.receives().len(), c2.receives().len());
    for (a, b) in c1.sends().iter().zip(c2.sends().iter()) {
        assert_eq!(a.kind, b.kind);
        assert_eq!(a.id, b.id);
        assert_eq!(a.values.len(), b.values.len());
    }
    assert_eq!(c1.log_quotient_degree(), c2.log_quotient_degree());
}

#[test]
fn wrapper_equality_follows_the_table() {
    let c1 = Chip::new(table(0, "x", vec![range_send(1, 2, 1)])).unwrap();
    let c2 = Chip::new(table(0, "x", vec![range_send(1, 2, 1)])).unwrap();
    let c3 = Chip::new(table(0, "y", vec![range_send(1, 2, 1)])).unwrap();
    let c4 = Chip::new(table(0, "x", vec![range_send(1, 3, 1)])).unwrap();
    assert!(c1 == c2);
    assert!(c1 != c3);
    assert!(c1 != c4);
}

#[test]
fn single_send_receive_pair_balances() {
    // Table A sends (5, 7) once on its single row; table B receives it once.
    let a = Chip::new(table(0, "a", vec![range_send(5, 7, 1)])).unwrap();
    let b = Chip::new(table(1, "b", vec![range_receive(5, 7, 1)])).unwrap();
    let ch = challenges();
    let ta = a.generate_permutation_trace(&None, &one_row_trace(), &ch).unwrap();
    let tb = b.generate_permutation_trace(&None, &one_row_trace(), &ch).unwrap();
    assert_eq!(ta.width, 2);
    assert_eq!(tb.width, 2);
    let cum_a = ta.get(0, 1);
    let cum_b = tb.get(0, 1);
    assert_eq!(cum_a, cum_b.neg());
    assert_eq!(cum_a.add(cum_b), ExtFelt::zero());
    assert_ne!(cum_a, ExtFelt::zero());
}

#[test]
fn zero_row_table_contributes_nothing() {
    let a = Chip::new(table(0, "a", vec![range_send(5, 7, 1)])).unwrap();
    let b = Chip::new(table(1, "b", vec![range_receive(5, 7, 1)])).unwrap();
    let c = Chip::new(table(2, "c", vec![range_send(9, 9, 1)])).unwrap();
    // The shard has events for tables 0 and 1 only: table 2 is skipped.
    let shard = Shard { event_counts: vec![4, 2, 0] };
    assert!(a.included(&shard));
    assert!(b.included(&shard));
    assert!(!c.included(&shard));
    let ch = challenges();
    let ta = a.generate_permutation_trace(&None, &one_row_trace(), &ch).unwrap();
    let tb = b.generate_permutation_trace(&None, &one_row_trace(), &ch).unwrap();
    let total = ta.get(0, 1).add(tb.get(0, 1));
    assert_eq!(total, ExtFelt::zero());
}

#[test]
fn multiplicity_weighted_lookup_balances() {
    // Table A sends (3, 4) with multiplicity 1 on each of two rows; table B
    // receives it once with multiplicity 2 on one row.
    let a = Chip::new(table(0, "a", vec![range_send(3, 4, 1)])).unwrap();
    let b = Chip::new(table(1, "b", vec![range_receive(3, 4, 2)])).unwrap();
    let ch = challenges();
    let two_rows = MainTrace::from_values(vec![0, 0], 1).unwrap();
    let ta = a.generate_permutation_trace(&None, &two_rows, &ch).unwrap();
    let tb = b.generate_permutation_trace(&None, &one_row_trace(), &ch).unwrap();
    // A's cumulative sum sits on its last row.
    let cum_a = ta.get(1, 1);
    let cum_b = tb.get(0, 1);
    assert_eq!(cum_a.add(cum_b), ExtFelt::zero());
    assert_ne!(cum_a, ExtFelt::zero());
}

#[test]
fn running_sum_accumulates_down_the_rows() {
    let a = Chip::new(table(0, "a", vec![range_send(3, 4, 1)])).unwrap();
    let ch = challenges();
    let two_rows = MainTrace::from_values(vec![0, 0], 1).unwrap();
    let t = a.generate_permutation_trace(&None, &two_rows, &ch).unwrap();
    assert_eq!(t.height, 2);
    // The tuple is constant, so each row adds the same term: row 1 of each
    // running column doubles row 0.
    assert_eq!(t.get(1, 0), t.get(0, 0).add(t.get(0, 0)));
    assert_eq!(t.get(1, 1), t.get(0, 1).add(t.get(0, 1)));
    // The batch column and the overall running sum agree for one interaction.
    assert_eq!(t.get(0, 0), t.get(0, 1));
}

#[test]
fn zero_denominator_is_a_fatal_error() {
    // With both challenges zero and a zero tuple the denominator vanishes.
    let a = Chip::new(table(0, "a", vec![range_send(0, 0, 1)])).unwrap();
    let ch = vec![ExtFelt::zero(), ExtFelt::zero()];
    let r = a.generate_permutation_trace(&None, &one_row_trace(), &ch);
    assert_eq!(r.unwrap_err(), LookupError::ZeroDenominator);
}

#[test]
fn constraint_evaluator_vanishes_on_generated_traces() {
    // One assert (main column equals itself) and one send, over two rows.
    let t = table(
        0,
        "t",
        vec![
            TableOp::Assert(Expr::Sub(Box::new(Expr::Main(0)), Box::new(Expr::Main(0)))),
            range_send(3, 4, 1),
        ],
    );
    let chip = Chip::new(t).unwrap();
    let ch = challenges();
    let main = MainTrace::from_values(vec![1, 2], 1).unwrap();
    let perm = chip.generate_permutation_trace(&None, &main, &ch).unwrap();
    let cs = chip.eval_constraints(&None, &main, &perm, &ch).unwrap();
    // One execution constraint per row, identically zero.
    assert_eq!(cs.execution.len(), 2);
    assert!(cs.execution.iter().all(|v| v.value == 0));
    // One permutation constraint per (row, batch), all zero on an honest trace.
    assert_eq!(cs.permutation.len(), 2);
    assert!(cs.permutation.iter().all(|v| *v == ExtFelt::zero()));
    // The exposed cumulative sum is the last row of the running-sum column.
    assert_eq!(cs.cumulative_sum, perm.get(1, 1));
}

#[test]
fn batching_bounds_the_permutation_width() {
    // Three interactions fall into two batches of size two: width 3.
    let t = table(
        0,
        "t",
        vec![range_send(1, 1, 1), range_send(2, 2, 1), range_receive(3, 3, 1)],
    );
    let chip = Chip::new(t).unwrap();
    let ch = challenges();
    let perm = chip.generate_permutation_trace(&None, &one_row_trace(), &ch).unwrap();
    assert_eq!(perm.width, 3);
    assert_eq!(perm.height, 1);
    // The running-sum column is the sum of the batch columns.
    assert_eq!(perm.get(0, 2), perm.get(0, 0).add(perm.get(0, 1)));
}

#[test]
fn column_valued_tuples_balance() {
    // The sent tuple is read from the trace: rows [5] and [6] send (5, 1) and
    // (6, 1); the receiver reads the same column values back.
    let send_col = TableOp::Send(InteractionDecl {
        values: vec![Expr::Main(0), Expr::Const(Felt::new(1))],
        multiplicity: Expr::Const(Felt::new(1)),
        kind: InteractionKind::Range,
    });
    let recv_col = TableOp::Receive(InteractionDecl {
        values: vec![Expr::Main(0), Expr::Const(Felt::new(1))],
        multiplicity: Expr::Const(Felt::new(1)),
        kind: InteractionKind::Range,
    });
    let a = Chip::new(table(0, "a", vec![send_col])).unwrap();
    let b = Chip::new(table(1, "b", vec![recv_col])).unwrap();
    let rows = MainTrace::from_values(vec![5, 6], 1).unwrap();
    let ch = challenges();
    let ta = a.generate_permutation_trace(&None, &rows, &ch).unwrap();
    let tb = b.generate_permutation_trace(&None, &rows, &ch).unwrap();
    assert_eq!(ta.cumulative_sum().add(tb.cumulative_sum()), ExtFelt::zero());
    assert_ne!(ta.cumulative_sum(), ExtFelt::zero());
}

#[test]
fn three_tables_balance_across_channels() {
    // Range tuple (5, 7): sent by table a, received by table c.
    // Syscall tuple (1, 2, 3): sent by table b, received twice (multiplicity
    // one each) by tables a and c, against one send of multiplicity two.
    let syscall = |vals: [u32; 3], mult: u32| InteractionDecl {
        values: vals.iter().map(|v| Expr::Const(Felt::new(*v))).collect(),
        multiplicity: Expr::Const(Felt::new(mult)),
        kind: InteractionKind::Syscall,
    };
    let a = Chip::new(
        table(0, "a", vec![range_send(5, 7, 1), TableOp::Receive(syscall([1, 2, 3], 1))]),
    )
    .unwrap();
    let b = Chip::new(table(1, "b", vec![TableOp::Send(syscall([1, 2, 3], 2))])).unwrap();
    let c = Chip::new(
        table(2, "c", vec![range_receive(5, 7, 1), TableOp::Receive(syscall([1, 2, 3], 1))]),
    )
    .unwrap();
    let ch = challenges();
    let ta = a.generate_permutation_trace(&None, &one_row_trace(), &ch).unwrap();
    let tb = b.generate_permutation_trace(&None, &one_row_trace(), &ch).unwrap();
    let tc = c.generate_permutation_trace(&None, &one_row_trace(), &ch).unwrap();
    let total = ta.cumulative_sum().add(tb.cumulative_sum()).add(tc.cumulative_sum());
    assert_eq!(total, ExtFelt::zero());
    assert_ne!(ta.cumulative_sum(), ExtFelt::zero());
    assert_ne!(tb.cumulative_sum(), ExtFelt::zero());
}

#[test]
fn preprocessed_columns_feed_interactions() {
    // The sent tuple reads one preprocessed and one main column.
    let send = TableOp::Send(InteractionDecl {
        values: vec![Expr::Prep(0), Expr::Main(0)],
        multiplicity: Expr::Const(Felt::new(1)),
        kind: InteractionKind::Range,
    });
    let recv = TableOp::Receive(InteractionDecl {
        values: vec![Expr::Prep(0), Expr::Main(0)],
        multiplicity: Expr::Const(Felt::new(1)),
        kind: InteractionKind::Range,
    });
    let mk = |id: usize, name: &str, op: TableOp| TableDef {
        id,
        name: String::from(name),
        preprocessed_width: 1,
        width: 1,
        ops: vec![op],
    };
    let a = Chip::new(mk(0, "a", send)).unwrap();
    let b = Chip::new(mk(1, "b", recv)).unwrap();
    assert_eq!(a.preprocessed_width(), 1);
    let prep = MainTrace::from_values(vec![9, 8], 1).unwrap();
    let main = MainTrace::from_values(vec![5, 6], 1).unwrap();
    let ch = challenges();
    let ta = a.generate_permutation_trace(&Some(prep), &main, &ch).unwrap();
    let prep2 = MainTrace::from_values(vec![9, 8], 1).unwrap();
    let tb = b.generate_permutation_trace(&Some(prep2), &main, &ch).unwrap();
    assert_eq!(ta.cumulative_sum().add(tb.cumulative_sum()), ExtFelt::zero());
    assert_ne!(ta.cumulative_sum(), ExtFelt::zero());
}

#[test]
fn execution_constraints_evaluate_expressions() {
    // (main + 1) * main - 6 evaluates to 0 on a row holding 2 and to 6 on a
    // row holding 3.
    let expr = Expr::Sub(
        Box::new(Expr::Mul(
            Box::new(Expr::Add(Box::new(Expr::Main(0)), Box::new(Expr::Const(Felt::new(1))))),
            Box::new(Expr::Main(0)),
        )),
        Box::new(Expr::Const(Felt::new(6))),
    );
    let chip = Chip::new(table(0, "t", vec![TableOp::Assert(expr)])).unwrap();
    let main = MainTrace::from_values(vec![2, 3], 1).unwrap();
    let ch = challenges();
    let perm = chip.generate_permutation_trace(&None, &main, &ch).unwrap();
    let cs = chip.eval_constraints(&None, &main, &perm, &ch).unwrap();
    assert_eq!(cs.execution.len(), 2);
    assert_eq!(cs.execution[0].value, 0);
    assert_eq!(cs.execution[1].value, 6);
    // No interactions: only the running-sum column, identically zero.
    assert_eq!(perm.width, 1);
    assert_eq!(perm.cumulative_sum(), ExtFelt::zero());
}

#[test]
fn memory_cols_share_one_view() {
    let access = MemoryAccessCols {
        value: Block([1u32, 2, 3, 4]),
        prev_timestamp: 7u32,
        diff_16bit_limb: 8u32,
        diff_8bit_limb: 9u32,
    };
    let read = MemoryReadCols { access };
    // A read's previous value is its value.
    assert_eq!(read.prev_value().0, [1, 2, 3, 4]);
    assert_eq!(read.value().0, [1, 2, 3, 4]);
    assert_eq!(read.access().prev_timestamp, 7);

    let mut write = MemoryWriteCols { prev_value: Block([0u32, 0, 0, 0]), access };
    assert_eq!(write.prev_value().0, [0, 0, 0, 0]);
    assert_eq!(write.value().0, [1, 2, 3, 4]);
    *write.value_mut() = Block([5, 6, 7, 8]);
    assert_eq!(write.value().0, [5, 6, 7, 8]);
    assert_eq!(write.prev_value().0, [0, 0, 0, 0]);
    assert_eq!(write.access().prev_timestamp, 7);

    let mut rw = MemoryReadWriteCols { prev_value: Block([9u32, 9, 9, 9]), access };
    assert_eq!(rw.prev_value().0, [9, 9, 9, 9]);
    *rw.prev_value_mut() = Block([1, 1, 1, 1]);
    assert_eq!(rw.prev_value().0, [1, 1, 1, 1]);
    assert_eq!(rw.value().0, [1, 2, 3, 4]);
    rw.access_mut().prev_timestamp = 3;
    assert_eq!(rw.access().prev_timestamp, 3);
}

#[test]
fn memory_init_cols_name_their_columns() {
    let init = MemoryInitCols {
        addr: 10u32,
        timestamp: 20u32,
        value: Block([1u32, 2, 3, 4]),
        is_real: 1u32,
    };
    assert_eq!(init.addr, 10);
    assert_eq!(init.timestamp, 20);
    assert_eq!(init.value.0, [1, 2, 3, 4]);
    assert_eq!(init.is_real, 1);
}

#[test]
fn trace_construction_reduces_values() {
    assert!(MainTrace::from_values(vec![1, 2, 3], 2).is_none());
    assert!(MainTrace::from_values(vec![1, 2], 0).is_none());
    let t = MainTrace::from_values(vec![FIELD_PRIME + 5, 1], 2).unwrap();
    assert_eq!(t.get(0, 0).value, 5);
    assert_eq!(t.get(0, 1).value, 1);
}
