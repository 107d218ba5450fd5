use vstd::prelude::*;
use crate::cs::{AddGate, Column, ConstraintSystem};
use crate::field::{modulus, Felt};
use crate::layout::{add_val, add_values, opt_val, AssignedCell, Cell, Error, Slot, Trace, TraceModel};

verus! {

/// The number of recurrence steps after the first row.
pub const STEPS: usize = 7;

/// The columns of the recurrence circuit.
#[derive(Clone, Copy, Debug, PartialEq, Eq, Structural)]
pub struct FibConfig {
    pub selector: usize,
    pub a: usize,
    pub b: usize,
    pub target: usize,
}

/// `t` with one more region of two rows: the selector on at its first row,
/// `a` holding `x` at its first row, `b` holding `y` then `z`.
pub open spec fn push_region(t: TraceModel, x: Option<int>, y: Option<int>, z: Option<int>) -> TraceModel {
    TraceModel {
        selector: t.selector + seq![true, false],
        a: t.a + seq![x, None],
        b: t.b + seq![y, z],
        ..t
    }
}

/// Term `n` of the recurrence seeded with `a`, `b`.
pub open spec fn term(a: Option<int>, b: Option<int>, n: nat) -> Option<int>
    decreases n,
{
    if n == 0 {
        a
    } else if n == 1 {
        b
    } else {
        add_val(term(a, b, (n - 2) as nat), term(a, b, (n - 1) as nat))
    }
}

/// Region `i` holds terms `i`, `i + 1` and `i + 2`, with the selector on
/// at its first row only.
pub open spec fn region_ok(t: TraceModel, a: Option<int>, b: Option<int>, i: int) -> bool {
    &&& t.selector[2 * i]
    &&& !t.selector[2 * i + 1]
    &&& t.a[2 * i] == term(a, b, i as nat)
    &&& t.a[2 * i + 1] is None
    &&& t.b[2 * i] == term(a, b, (i + 1) as nat)
    &&& t.b[2 * i + 1] == term(a, b, (i + 2) as nat)
}

/// The two copy constraints that region `i` (from 1 on) draws from region `i - 1`.
pub open spec fn region_copies_ok(t: TraceModel, i: int) -> bool {
    &&& t.copies[2 * i - 2] == (Cell { slot: Slot::B, row: (2 * i - 2) as usize }, Cell { slot: Slot::A, row: (2 * i) as usize })
    &&& t.copies[2 * i - 1] == (Cell { slot: Slot::B, row: (2 * i - 1) as usize }, Cell { slot: Slot::B, row: (2 * i) as usize })
}

/// The rows of the recurrence: a first region and `k` chained ones, with
/// their copy constraints and nothing bound to the public input yet.
pub open spec fn fib_rows(t: TraceModel, a: Option<int>, b: Option<int>, k: nat) -> bool {
    &&& t.len() == 2 * (k + 1)
    &&& t.a.len() == t.len()
    &&& t.b.len() == t.len()
    &&& forall|i: int| 0 <= i <= k ==> #[trigger] region_ok(t, a, b, i)
    &&& t.copies.len() == 2 * k
    &&& forall|i: int| 1 <= i <= k ==> #[trigger] region_copies_ok(t, i)
    &&& t.bindings.len() == 0
}

/// The complete trace of the recurrence circuit: its rows, and the last
/// computed term bound to row 0 of the public input.
pub open spec fn fib_layout(t: TraceModel, a: Option<int>, b: Option<int>, k: nat) -> bool {
    &&& fib_rows(TraceModel { bindings: Seq::empty(), ..t }, a, b, k)
    &&& t.bindings == seq![(Cell { slot: Slot::B, row: (2 * k + 1) as usize }, 0usize)]
}

/// The chip that lays out one step of the recurrence per region.
pub struct FibChip {
    pub config: FibConfig,
}

impl FibChip {
    /// Allocates one selector, two advice columns and one instance column,
    /// lets the three columns take part in copy constraints, and registers
    /// the addition gate `s * (a + b - b_next)`.
    pub fn configure(meta: &mut ConstraintSystem) -> (r: FibConfig)
        requires
            old(meta).num_selectors < usize::MAX,
            old(meta).num_advice_columns < usize::MAX - 1,
            old(meta).num_instance_columns < usize::MAX,
        ensures
            r.selector == old(meta).num_selectors,
            r.a == old(meta).num_advice_columns,
            r.b == old(meta).num_advice_columns + 1,
            r.target == old(meta).num_instance_columns,
            final(meta).num_selectors == old(meta).num_selectors + 1,
            final(meta).num_advice_columns == old(meta).num_advice_columns + 2,
            final(meta).num_instance_columns == old(meta).num_instance_columns + 1,
            final(meta).equality@ == old(meta).equality@ + seq![
                Column::Advice(r.a),
                Column::Advice(r.b),
                Column::Instance(r.target),
            ],
            final(meta).gates@ == old(meta).gates@.push(AddGate { selector: r.selector, a: r.a, b: r.b }),
    {
        let selector = meta.selector();
        let a = meta.advice_column();
        let b = meta.advice_column();
        let target = meta.instance_column();
        let ghost e0 = meta.equality@;
        meta.enable_equality(Column::Advice(a));
        meta.enable_equality(Column::Advice(b));
        meta.enable_equality(Column::Instance(target));
        meta.create_gate(AddGate { selector, a, b });
        assert(meta.equality@ =~= e0 + seq![Column::Advice(a), Column::Advice(b), Column::Instance(target)]);
        FibConfig { selector, a, b, target }
    }

    /// Places the first region: the seeds `a` and `b` and their sum in the
    /// next row of `b`. Returns the cells of `b` and of the sum.
    pub fn assign_first_row(&self, layouter: &mut Trace, a: Option<Felt>, b: Option<Felt>) -> (r: Result<(AssignedCell, AssignedCell), Error>)
        requires
            old(layouter)@.wf(),
        ensures
            final(layouter)@.wf(),
            r is Err <==> old(layouter)@.len() + 2 > old(layouter)@.usable_rows,
            r is Err ==> final(layouter)@ == old(layouter)@,
            r matches Ok((x, y)) ==> {
                &&& final(layouter)@ == push_region(old(layouter)@, opt_val(a), opt_val(b), add_val(opt_val(a), opt_val(b)))
                &&& x == (AssignedCell { cell: Cell { slot: Slot::B, row: old(layouter)@.len() as usize }, value: b })
                &&& y.cell == (Cell { slot: Slot::B, row: (old(layouter)@.len() + 1) as usize })
                &&& y.val() == add_val(opt_val(a), opt_val(b))
            },
    {
        let ghost t0 = layouter@;
        let start = match layouter.place_region(2) {
            Ok(s) => s,
            Err(e) => return Err(e),
        };
        assert(layouter@.len() == start + 2 <= layouter@.usable_rows);
        layouter.enable_selector(start);
        layouter.assign_advice(Slot::A, start, a);
        let cur_b = layouter.assign_advice(Slot::B, start, b);
        let sum = add_values(a, b);
        let next_b = layouter.assign_advice(Slot::B, start + 1, sum);
        proof {
            let p = push_region(t0, opt_val(a), opt_val(b), add_val(opt_val(a), opt_val(b)));
            assert(layouter@.selector =~= p.selector);
            assert(layouter@.a =~= p.a);
            assert(layouter@.b =~= p.b);
        }
        Ok((cur_b, next_b))
    }

    /// Places the next region: copies `pre_b` into `a` and `pre_c` into
    /// `b`, and puts their sum in the next row of `b`. Returns the cells of
    /// the copied `b` and of the sum.
    pub fn assign_next_row(&self, layouter: &mut Trace, pre_b: &AssignedCell, pre_c: &AssignedCell) -> (r: Result<(AssignedCell, AssignedCell), Error>)
        requires
            old(layouter)@.wf(),
            old(layouter)@.in_range(pre_b.cell),
            old(layouter)@.in_range(pre_c.cell),
        ensures
            final(layouter)@.wf(),
            r is Err <==> old(layouter)@.len() + 2 > old(layouter)@.usable_rows,
            r is Err ==> final(layouter)@ == old(layouter)@,
            r matches Ok((x, y)) ==> {
                let s = old(layouter)@.len();
                &&& final(layouter)@ == (TraceModel {
                    copies: old(layouter)@.copies + seq![
                        (pre_b.cell, Cell { slot: Slot::A, row: s as usize }),
                        (pre_c.cell, Cell { slot: Slot::B, row: s as usize }),
                    ],
                    ..push_region(old(layouter)@, pre_b.val(), pre_c.val(), add_val(pre_b.val(), pre_c.val()))
                })
                &&& x == (AssignedCell { cell: Cell { slot: Slot::B, row: s as usize }, value: pre_c.value })
                &&& y.cell == (Cell { slot: Slot::B, row: (s + 1) as usize })
                &&& y.val() == add_val(pre_b.val(), pre_c.val())
            },
    {
        let ghost t0 = layouter@;
        let start = match layouter.place_region(2) {
            Ok(s) => s,
            Err(e) => return Err(e),
        };
        assert(layouter@.len() == start + 2 <= layouter@.usable_rows);
        layouter.enable_selector(start);
        let cur_a = layouter.copy_advice(pre_b, Slot::A, start);
        let cur_b = layouter.copy_advice(pre_c, Slot::B, start);
        let sum = add_values(cur_a.value, cur_b.value);
        let next_b = layouter.assign_advice(Slot::B, start + 1, sum);
        proof {
            let p = push_region(t0, pre_b.val(), pre_c.val(), add_val(pre_b.val(), pre_c.val()));
            assert(layouter@.selector =~= p.selector);
            assert(layouter@.a =~= p.a);
            assert(layouter@.b =~= p.b);
            assert(layouter@.copies =~= t0.copies + seq![
                (pre_b.cell, Cell { slot: Slot::A, row: start }),
                (pre_c.cell, Cell { slot: Slot::B, row: start }),
            ]);
        }
        Ok((cur_b, next_b))
    }

    /// Binds `cell` to row `row` of the public input.
    pub fn expose_public(&self, layouter: &mut Trace, cell: &AssignedCell, row: usize) -> (r: Result<(), Error>)
        requires
            old(layouter)@.wf(),
            old(layouter)@.in_range(cell.cell),
        ensures
            final(layouter)@.wf(),
            r is Err <==> row >= old(layouter)@.usable_rows,
            r is Err ==> final(layouter)@ == old(layouter)@,
            r is Ok ==> final(layouter)@ == (TraceModel {
                bindings: old(layouter)@.bindings.push((cell.cell, row)),
                ..old(layouter)@
            }),
    {
        layouter.constrain_instance(cell.cell, row)
    }
}

/// The recurrence circuit: the two seeds, unknown when only the shape is
/// wanted, and the number of steps after the first row.
#[derive(Clone, Copy, Debug)]
pub struct FibCircuit {
    pub a: Option<Felt>,
    pub b: Option<Felt>,
    pub steps: usize,
}

impl FibCircuit {
    /// The same circuit with both seeds unknown.
    pub fn without_witnesses(&self) -> (r: FibCircuit)
        ensures
            r.a is None,
            r.b is None,
            r.steps == self.steps,
    {
        FibCircuit { a: None, b: None, steps: self.steps }
    }

    /// The circuit's shape: that of `FibChip::configure`.
    pub fn configure(meta: &mut ConstraintSystem) -> (r: FibConfig)
        requires
            old(meta).num_selectors < usize::MAX,
            old(meta).num_advice_columns < usize::MAX - 1,
            old(meta).num_instance_columns < usize::MAX,
        ensures
            r.selector == old(meta).num_selectors,
            r.a == old(meta).num_advice_columns,
            r.b == old(meta).num_advice_columns + 1,
            r.target == old(meta).num_instance_columns,
            final(meta).num_selectors == old(meta).num_selectors + 1,
            final(meta).num_advice_columns == old(meta).num_advice_columns + 2,
            final(meta).num_instance_columns == old(meta).num_instance_columns + 1,
            final(meta).equality@ == old(meta).equality@ + seq![
                Column::Advice(r.a),
                Column::Advice(r.b),
                Column::Instance(r.target),
            ],
            final(meta).gates@ == old(meta).gates@.push(AddGate { selector: r.selector, a: r.a, b: r.b }),
    {
        FibChip::configure(meta)
    }

    /// Fills an empty trace: the first row from the seeds, `steps` chained
    /// rows, and the last computed term bound to row 0 of the public input.
    /// Fails, leaving the rest unplaced, when the trace has fewer than
    /// `2 * (steps + 1)` usable rows.
    pub fn synthesize(&self, config: FibConfig, layouter: &mut Trace) -> (r: Result<(), Error>)
        requires
            old(layouter)@.wf(),
            old(layouter)@.len() == 0,
            old(layouter)@.copies.len() == 0,
            old(layouter)@.bindings.len() == 0,
        ensures
            final(layouter)@.wf(),
            final(layouter)@.usable_rows == old(layouter)@.usable_rows,
            r is Ok <==> 2 * (self.steps + 1) <= old(layouter)@.usable_rows,
            r is Ok ==> fib_layout(final(layouter)@, opt_val(self.a), opt_val(self.b), self.steps as nat),
    {
        let fib = FibChip { config };
        let ghost sa = opt_val(self.a);
        let ghost sb = opt_val(self.b);
        let ghost t0 = layouter@;
        let (mut x, mut y) = match fib.assign_first_row(layouter, self.a, self.b) {
            Ok(p) => p,
            Err(e) => return Err(e),
        };
        proof {
            assert(term(sa, sb, 0) == sa);
            assert(term(sa, sb, 1) == sb);
            assert(term(sa, sb, 2) == add_val(sa, sb));
            let t = layouter@;
            assert(t.copies =~= t0.copies);
            assert forall|i: int| 0 <= i <= 0 implies #[trigger] region_ok(t, sa, sb, i) by {}
        }
        let mut i: usize = 0;
        while i < self.steps
            invariant
                layouter@.wf(),
                layouter@.usable_rows == t0.usable_rows,
                t0 == old(layouter)@,
                i <= self.steps,
                fib_rows(layouter@, sa, sb, i as nat),
                x.cell == (Cell { slot: Slot::B, row: (2 * i) as usize }),
                x.val() == term(sa, sb, (i + 1) as nat),
                y.cell == (Cell { slot: Slot::B, row: (2 * i + 1) as usize }),
                y.val() == term(sa, sb, (i + 2) as nat),
            decreases self.steps - i,
        {
            let ghost t = layouter@;
            let (nx, ny) = match fib.assign_next_row(layouter, &x, &y) {
                Ok(p) => p,
                Err(e) => return Err(e),
            };
            proof {
                let t1 = layouter@;
                let k = (i + 1) as int;
                assert(term(sa, sb, (k + 2) as nat) == add_val(term(sa, sb, k as nat), term(sa, sb, (k + 1) as nat)));
                assert forall|j: int| 0 <= j <= k implies #[trigger] region_ok(t1, sa, sb, j) by {
                    if j < k {
                        assert(region_ok(t, sa, sb, j));
                    }
                }
                assert forall|j: int| 1 <= j <= k implies #[trigger] region_copies_ok(t1, j) by {
                    if j < k {
                        assert(region_copies_ok(t, j));
                    }
                }
            }
            x = nx;
            y = ny;
            i = i + 1;
        }
        let ghost t = layouter@;
        match fib.expose_public(layouter, &y, 0) {
            Ok(()) => {},
            Err(e) => return Err(e),
        }
        proof {
            let t1 = layouter@;
            assert(TraceModel { bindings: Seq::empty(), ..t1 } == t) by {
                assert(t.bindings =~= Seq::<(Cell, usize)>::empty());
            }
            assert(t1.bindings =~= seq![(Cell { slot: Slot::B, row: (2 * self.steps + 1) as usize }, 0usize)]);
        }
        Ok(())
    }
}

} // verus!
