use vstd::prelude::*;
use crate::field::{modulus, Felt};

verus! {

/// One of the two advice columns of the recurrence chip.
#[derive(Clone, Copy, Debug, PartialEq, Eq, Structural)]
pub enum Slot {
    A,
    B,
}

/// A (column, row) coordinate of the trace.
#[derive(Clone, Copy, Debug, PartialEq, Eq, Structural)]
pub struct Cell {
    pub slot: Slot,
    pub row: usize,
}

/// A cell together with the value bound into it; `None` when the value is
/// not known (shape-only synthesis).
#[derive(Clone, Copy, Debug)]
pub struct AssignedCell {
    pub cell: Cell,
    pub value: Option<Felt>,
}

/// A construction error: the trace has no room for what was asked.
#[derive(Clone, Copy, Debug, PartialEq, Eq, Structural)]
pub enum Error {
    NotEnoughRowsAvailable,
}

/// A violated constraint, as reported by `Trace::verify`.
#[derive(Clone, Copy, Debug, PartialEq, Eq, Structural)]
pub enum Failure {
    /// More public inputs than usable rows.
    InstanceTooLarge,
    /// The addition gate does not vanish on this row.
    Gate { row: usize },
    /// The copy constraint at this index does not hold.
    Copy { index: usize },
    /// The public-input binding at this index does not hold; `row` is the
    /// instance row it names.
    Instance { index: usize, row: usize },
}

pub open spec fn opt_val(x: Option<Felt>) -> Option<int> {
    match x {
        Some(f) => Some(f.val()),
        None => None,
    }
}

/// Field addition lifted to possibly unknown values.
pub open spec fn add_val(x: Option<int>, y: Option<int>) -> Option<int> {
    match (x, y) {
        (Some(u), Some(v)) => Some((u + v) % modulus()),
        _ => None,
    }
}

/// The public input at `row`; rows past the end of the input are zero.
pub open spec fn instance_at(inst: Seq<int>, row: int) -> int {
    if 0 <= row < inst.len() {
        inst[row]
    } else {
        0
    }
}

/// The integers that a sequence of field elements stands for.
pub open spec fn vals(s: Seq<Felt>) -> Seq<int> {
    s.map_values(|f: Felt| f.val())
}

/// What a trace holds, with each known value as its integer.
pub struct TraceModel {
    pub usable_rows: nat,
    pub selector: Seq<bool>,
    pub a: Seq<Option<int>>,
    pub b: Seq<Option<int>>,
    pub copies: Seq<(Cell, Cell)>,
    pub bindings: Seq<(Cell, usize)>,
}

impl TraceModel {
    pub open spec fn len(self) -> int {
        self.selector.len() as int
    }

    pub open spec fn in_range(self, c: Cell) -> bool {
        c.row < self.len()
    }

    pub open spec fn value(self, c: Cell) -> Option<int> {
        match c.slot {
            Slot::A => self.a[c.row as int],
            Slot::B => self.b[c.row as int],
        }
    }

    pub open spec fn wf(self) -> bool {
        &&& self.a.len() == self.len()
        &&& self.b.len() == self.len()
        &&& self.len() <= self.usable_rows <= usize::MAX
        &&& forall|i: int|
            0 <= i < self.copies.len() ==> #[trigger] self.in_range(self.copies[i].0)
                && self.in_range(self.copies[i].1)
        &&& forall|i: int|
            0 <= i < self.bindings.len() ==> #[trigger] self.in_range(self.bindings[i].0)
    }

    /// `s * (a + b - b_next)` vanishes on row `r`.
    pub open spec fn gate_holds(self, r: int) -> bool {
        self.selector[r] ==> {
            &&& r + 1 < self.len()
            &&& match (self.a[r], self.b[r], self.b[r + 1]) {
                (Some(x), Some(y), Some(z)) => (x + y) % modulus() == z,
                _ => false,
            }
        }
    }

    /// Both ends of copy constraint `i` hold the same known value.
    pub open spec fn copy_holds(self, i: int) -> bool {
        &&& self.value(self.copies[i].0) is Some
        &&& self.value(self.copies[i].0) == self.value(self.copies[i].1)
    }

    /// The cell of binding `i` holds the public input at the row it names.
    pub open spec fn binding_holds(self, inst: Seq<int>, i: int) -> bool {
        self.value(self.bindings[i].0) == Some(instance_at(inst, self.bindings[i].1 as int))
    }

    pub open spec fn gates_hold(self) -> bool {
        forall|r: int| 0 <= r < self.len() ==> #[trigger] self.gate_holds(r)
    }

    pub open spec fn copies_hold(self) -> bool {
        forall|i: int| 0 <= i < self.copies.len() ==> #[trigger] self.copy_holds(i)
    }

    pub open spec fn bindings_hold(self, inst: Seq<int>) -> bool {
        forall|i: int| 0 <= i < self.bindings.len() ==> #[trigger] self.binding_holds(inst, i)
    }

    /// Every constraint of the trace holds against the public input `inst`.
    pub open spec fn satisfied(self, inst: Seq<int>) -> bool {
        &&& inst.len() <= self.usable_rows
        &&& self.gates_hold()
        &&& self.copies_hold()
        &&& self.bindings_hold(inst)
    }
}


/// Rewriting cells in place keeps a trace well formed.
proof fn lemma_wf_same_shape(s: TraceModel, t: TraceModel)
    requires
        s.wf(),
        t.len() == s.len(),
        t.a.len() == s.a.len(),
        t.b.len() == s.b.len(),
        t.usable_rows == s.usable_rows,
        t.copies == s.copies,
        t.bindings == s.bindings,
    ensures
        t.wf(),
{
    assert forall|i: int| 0 <= i < t.copies.len() implies #[trigger] t.in_range(t.copies[i].0)
        && t.in_range(t.copies[i].1) by {
        assert(s.in_range(s.copies[i].0));
    }
    assert forall|i: int| 0 <= i < t.bindings.len() implies #[trigger] t.in_range(
        t.bindings[i].0,
    ) by {
        assert(s.in_range(s.bindings[i].0));
    }
}

/// Addition of possibly unknown field elements: known only when both are.
pub fn add_values(x: Option<Felt>, y: Option<Felt>) -> (r: Option<Felt>)
    ensures
        opt_val(r) == add_val(opt_val(x), opt_val(y)),
{
    match (x, y) {
        (Some(u), Some(v)) => Some(u.add(&v)),
        _ => None,
    }
}

impl AssignedCell {
    pub open spec fn val(self) -> Option<int> {
        opt_val(self.value)
    }
}

/// The assignment that synthesis fills in: a selector and the two advice
/// columns of the chip, row by row, with the copy constraints between
/// cells and the bindings of cells to rows of the public input.
pub struct Trace {
    usable_rows: usize,
    selector: Vec<bool>,
    a: Vec<Option<Felt>>,
    b: Vec<Option<Felt>>,
    copies: Vec<(Cell, Cell)>,
    bindings: Vec<(Cell, usize)>,
}

impl View for Trace {
    type V = TraceModel;

    closed spec fn view(&self) -> TraceModel {
        TraceModel {
            usable_rows: self.usable_rows as nat,
            selector: self.selector@,
            a: self.a@.map_values(|x: Option<Felt>| opt_val(x)),
            b: self.b@.map_values(|x: Option<Felt>| opt_val(x)),
            copies: self.copies@,
            bindings: self.bindings@,
        }
    }
}

impl Trace {
    /// An empty trace with room for `usable_rows` rows.
    pub fn new(usable_rows: usize) -> (r: Trace)
        ensures
            r@.wf(),
            r@.usable_rows == usable_rows,
            r@.len() == 0,
            r@.copies.len() == 0,
            r@.bindings.len() == 0,
    {
        let r = Trace {
            usable_rows,
            selector: Vec::new(),
            a: Vec::new(),
            b: Vec::new(),
            copies: Vec::new(),
            bindings: Vec::new(),
        };
        proof {
            assert(r@.a.len() == 0);
            assert(r@.b.len() == 0);
        }
        r
    }

    /// The number of rows placed so far.
    pub fn rows(&self) -> (r: usize)
        requires
            self@.wf(),
        ensures
            r == self@.len(),
    {
        self.selector.len()
    }

    /// Appends a region of `height` fresh rows, selector off and cells
    /// unassigned; returns its first row.
    pub fn place_region(&mut self, height: usize) -> (r: Result<usize, Error>)
        requires
            old(self)@.wf(),
        ensures
            final(self)@.wf(),
            r is Err <==> old(self)@.len() + height > old(self)@.usable_rows,
            r is Err ==> final(self)@ == old(self)@,
            r matches Ok(start) ==> {
                &&& start == old(self)@.len()
                &&& final(self)@ == (TraceModel {
                    selector: old(self)@.selector + Seq::new(height as nat, |i: int| false),
                    a: old(self)@.a + Seq::new(height as nat, |i: int| None::<int>),
                    b: old(self)@.b + Seq::new(height as nat, |i: int| None::<int>),
                    ..old(self)@
                })
            },
    {
        let start = self.selector.len();
        if self.usable_rows - start < height {
            return Err(Error::NotEnoughRowsAvailable);
        }
        let ghost s0 = self@;
        let mut i: usize = 0;
        while i < height
            invariant
                0 <= i <= height,
                start + height <= self.usable_rows,
                self.usable_rows == s0.usable_rows,
                self.copies@ == s0.copies,
                self.bindings@ == s0.bindings,
                self.selector@ == s0.selector + Seq::new(i as nat, |j: int| false),
                self@.a == s0.a + Seq::new(i as nat, |j: int| None::<int>),
                self@.b == s0.b + Seq::new(i as nat, |j: int| None::<int>),
                self.a.len() == start + i,
                self.b.len() == start + i,
                s0.len() == start,
                s0.wf(),
            decreases height - i,
        {
            let ghost prev = self@;
            self.selector.push(false);
            self.a.push(None);
            self.b.push(None);
            i = i + 1;
            proof {
                assert(self@.a =~= prev.a.push(None));
                assert(self@.b =~= prev.b.push(None));
                assert(self.selector@ =~= s0.selector + Seq::new(i as nat, |j: int| false));
                assert(self@.a =~= s0.a + Seq::new(i as nat, |j: int| None::<int>));
                assert(self@.b =~= s0.b + Seq::new(i as nat, |j: int| None::<int>));
            }
        }
        proof {
            assert(self@ == (TraceModel {
                selector: s0.selector + Seq::new(height as nat, |i: int| false),
                a: s0.a + Seq::new(height as nat, |i: int| None::<int>),
                b: s0.b + Seq::new(height as nat, |i: int| None::<int>),
                ..s0
            }));
            assert forall|i: int| 0 <= i < self@.copies.len() implies #[trigger] self@.in_range(
                self@.copies[i].0,
            ) && self@.in_range(self@.copies[i].1) by {
                assert(s0.in_range(s0.copies[i].0));
            }
            assert forall|i: int| 0 <= i < self@.bindings.len() implies #[trigger] self@.in_range(
                self@.bindings[i].0,
            ) by {
                assert(s0.in_range(s0.bindings[i].0));
            }
        }
        Ok(start)
    }

    /// Turns the selector on at `row`.
    pub fn enable_selector(&mut self, row: usize)
        requires
            old(self)@.wf(),
            row < old(self)@.len(),
        ensures
            final(self)@.wf(),
            final(self)@ == (TraceModel {
                selector: old(self)@.selector.update(row as int, true),
                ..old(self)@
            }),
    {
        let ghost prev = self@;
        self.selector.set(row, true);
        proof {
            lemma_wf_same_shape(prev, self@);
        }
    }

    /// Binds `value` into the cell `(slot, row)`.
    pub fn assign_advice(&mut self, slot: Slot, row: usize, value: Option<Felt>) -> (r: AssignedCell)
        requires
            old(self)@.wf(),
            row < old(self)@.len(),
        ensures
            final(self)@.wf(),
            r == (AssignedCell { cell: Cell { slot, row }, value }),
            final(self)@ == (match slot {
                Slot::A => TraceModel { a: old(self)@.a.update(row as int, opt_val(value)), ..old(self)@ },
                Slot::B => TraceModel { b: old(self)@.b.update(row as int, opt_val(value)), ..old(self)@ },
            }),
    {
        let ghost prev = self@;
        match slot {
            Slot::A => {
                self.a.set(row, value);
                assert(self@.a =~= prev.a.update(row as int, opt_val(value)));
            },
            Slot::B => {
                self.b.set(row, value);
                assert(self@.b =~= prev.b.update(row as int, opt_val(value)));
            },
        }
        proof {
            lemma_wf_same_shape(prev, self@);
        }
        AssignedCell { cell: Cell { slot, row }, value }
    }

    /// Binds the value of `from` into `(slot, row)` and records the copy
    /// constraint between the two cells.
    pub fn copy_advice(&mut self, from: &AssignedCell, slot: Slot, row: usize) -> (r: AssignedCell)
        requires
            old(self)@.wf(),
            row < old(self)@.len(),
            old(self)@.in_range(from.cell),
        ensures
            final(self)@.wf(),
            r == (AssignedCell { cell: Cell { slot, row }, value: from.value }),
            final(self)@ == (match slot {
                Slot::A => TraceModel {
                    a: old(self)@.a.update(row as int, from.val()),
                    copies: old(self)@.copies.push((from.cell, Cell { slot, row })),
                    ..old(self)@
                },
                Slot::B => TraceModel {
                    b: old(self)@.b.update(row as int, from.val()),
                    copies: old(self)@.copies.push((from.cell, Cell { slot, row })),
                    ..old(self)@
                },
            }),
    {
        let ghost prev = self@;
        let r = self.assign_advice(slot, row, from.value);
        let ghost mid = self@;
        self.copies.push((from.cell, Cell { slot, row }));
        proof {
            assert forall|i: int| 0 <= i < self@.copies.len() implies #[trigger] self@.in_range(
                self@.copies[i].0,
            ) && self@.in_range(self@.copies[i].1) by {
                if i < prev.copies.len() {
                    assert(prev.in_range(prev.copies[i].0));
                }
            }
            assert forall|i: int| 0 <= i < self@.bindings.len() implies #[trigger] self@.in_range(
                self@.bindings[i].0,
            ) by {
                assert(mid.in_range(mid.bindings[i].0));
            }
        }
        r
    }

    /// Binds `cell` to row `row` of the public input.
    pub fn constrain_instance(&mut self, cell: Cell, row: usize) -> (r: Result<(), Error>)
        requires
            old(self)@.wf(),
            old(self)@.in_range(cell),
        ensures
            final(self)@.wf(),
            r is Err <==> row >= old(self)@.usable_rows,
            r is Err ==> final(self)@ == old(self)@,
            r is Ok ==> final(self)@ == (TraceModel {
                bindings: old(self)@.bindings.push((cell, row)),
                ..old(self)@
            }),
    {
        if row >= self.usable_rows {
            return Err(Error::NotEnoughRowsAvailable);
        }
        let ghost prev = self@;
        self.bindings.push((cell, row));
        proof {
            assert forall|i: int| 0 <= i < self@.bindings.len() implies #[trigger] self@.in_range(
                self@.bindings[i].0,
            ) by {
                if i < prev.bindings.len() {
                    assert(prev.in_range(prev.bindings[i].0));
                }
            }
            assert forall|i: int| 0 <= i < self@.copies.len() implies #[trigger] self@.in_range(
                self@.copies[i].0,
            ) && self@.in_range(self@.copies[i].1) by {
                assert(prev.in_range(prev.copies[i].0));
            }
        }
        Ok(())
    }

    /// Whether the addition gate holds on `row`.
    fn check_gate(&self, row: usize) -> (r: bool)
        requires
            self@.wf(),
            row < self@.len(),
        ensures
            r == self@.gate_holds(row as int),
    {
        if !self.selector[row] {
            return true;
        }
        if row + 1 >= self.selector.len() {
            return false;
        }
        match (self.a[row], self.b[row], self.b[row + 1]) {
            (Some(x), Some(y), Some(z)) => x.add(&y).equals(&z),
            _ => false,
        }
    }

    /// Checks every constraint of the trace against the public input
    /// `instance`, and reports the first that fails: input size first, then
    /// the addition gate row by row, then the copy constraints, then the bindings,
    /// each in the order they were recorded.
    pub fn verify(&self, instance: &Vec<Felt>) -> (r: Result<(), Failure>)
        requires
            self@.wf(),
        ensures
            r is Ok <==> self@.satisfied(vals(instance@)),
            r == Err::<(), Failure>(Failure::InstanceTooLarge) <==> instance@.len() > self@.usable_rows,
            r matches Err(Failure::Gate { row }) ==> {
                &&& instance@.len() <= self@.usable_rows
                &&& row < self@.len()
                &&& !self@.gate_holds(row as int)
                &&& forall|j: int| 0 <= j < row ==> #[trigger] self@.gate_holds(j)
            },
            r matches Err(Failure::Copy { index }) ==> {
                &&& instance@.len() <= self@.usable_rows
                &&& self@.gates_hold()
                &&& index < self@.copies.len()
                &&& !self@.copy_holds(index as int)
                &&& forall|j: int| 0 <= j < index ==> #[trigger] self@.copy_holds(j)
            },
            r matches Err(Failure::Instance { index, row }) ==> {
                &&& instance@.len() <= self@.usable_rows
                &&& self@.gates_hold()
                &&& self@.copies_hold()
                &&& index < self@.bindings.len()
                &&& row == self@.bindings[index as int].1
                &&& !self@.binding_holds(vals(instance@), index as int)
                &&& forall|j: int| 0 <= j < index ==> #[trigger] self@.binding_holds(vals(instance@), j)
            },
    {
        let ghost inst = vals(instance@);
        if instance.len() > self.usable_rows {
            return Err(Failure::InstanceTooLarge);
        }
        let n = self.selector.len();
        let mut row: usize = 0;
        while row < n
            invariant
                self@.wf(),
                n == self@.len(),
                row <= n,
                instance@.len() <= self@.usable_rows,
                forall|j: int| 0 <= j < row ==> #[trigger] self@.gate_holds(j),
            decreases n - row,
        {
            if !self.check_gate(row) {
                assert(!self@.gates_hold());
                return Err(Failure::Gate { row });
            }
            row = row + 1;
        }
        let mut index: usize = 0;
        while index < self.copies.len()
            invariant
                self@.wf(),
                self@.gates_hold(),
                instance@.len() <= self@.usable_rows,
                index <= self@.copies.len(),
                forall|j: int| 0 <= j < index ==> #[trigger] self@.copy_holds(j),
            decreases self@.copies.len() - index,
        {
            let (from, to) = self.copies[index];
            proof {
                assert(self@.in_range(self@.copies[index as int].0));
            }
            let u = self.value(from);
            let v = self.value(to);
            let holds = match (u, v) {
                (Some(x), Some(y)) => x.equals(&y),
                _ => false,
            };
            if !holds {
                assert(!self@.copy_holds(index as int));
                assert(!self@.copies_hold());
                return Err(Failure::Copy { index });
            }
            index = index + 1;
        }
        let mut index: usize = 0;
        while index < self.bindings.len()
            invariant
                self@.wf(),
                self@.gates_hold(),
                self@.copies_hold(),
                inst == vals(instance@),
                instance@.len() <= self@.usable_rows,
                index <= self@.bindings.len(),
                forall|j: int| 0 <= j < index ==> #[trigger] self@.binding_holds(inst, j),
            decreases self@.bindings.len() - index,
        {
            let (cell, row) = self.bindings[index];
            proof {
                assert(self@.in_range(self@.bindings[index as int].0));
            }
            let u = self.value(cell);
            let holds = match u {
                Some(x) => if row < instance.len() {
                    x.equals(&instance[row])
                } else {
                    x.equals(&Felt::zero())
                },
                None => false,
            };
            if !holds {
                assert(!self@.binding_holds(inst, index as int));
                assert(!self@.bindings_hold(inst));
                return Err(Failure::Instance { index, row });
            }
            index = index + 1;
        }
        Ok(())
    }

    /// Whether the selector is on at `row`.
    pub fn selector_at(&self, row: usize) -> (r: bool)
        requires
            self@.wf(),
            row < self@.len(),
        ensures
            r == self@.selector[row as int],
    {
        self.selector[row]
    }

    /// The number of copy constraints recorded.
    pub fn num_copies(&self) -> (r: usize)
        ensures
            r == self@.copies.len(),
    {
        self.copies.len()
    }

    /// Copy constraint `i`: source cell, then target cell.
    pub fn copy_at(&self, i: usize) -> (r: (Cell, Cell))
        requires
            i < self@.copies.len(),
        ensures
            r == self@.copies[i as int],
    {
        self.copies[i]
    }

    /// The number of bindings to the public input.
    pub fn num_bindings(&self) -> (r: usize)
        ensures
            r == self@.bindings.len(),
    {
        self.bindings.len()
    }

    /// Binding `i`: a cell and the row of the public input it must equal.
    pub fn binding_at(&self, i: usize) -> (r: (Cell, usize))
        requires
            i < self@.bindings.len(),
        ensures
            r == self@.bindings[i as int],
    {
        self.bindings[i]
    }

    /// The value bound into `c`.
    pub fn value(&self, c: Cell) -> (r: Option<Felt>)
        requires
            self@.wf(),
            self@.in_range(c),
        ensures
            opt_val(r) == self@.value(c),
    {
        match c.slot {
            Slot::A => self.a[c.row],
            Slot::B => self.b[c.row],
        }
    }
}

} // verus!
