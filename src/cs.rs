use vstd::prelude::*;

verus! {

/// A column of the circuit, by kind and index within its kind.
#[derive(Clone, Copy, Debug, PartialEq, Eq, Structural)]
pub enum Column {
    Advice(usize),
    Instance(usize),
}

/// The addition gate `s * (a + b - b_next)`: selector `s`, advice columns
/// `a` and `b` read at the current row, and `b` read at the next row.
#[derive(Clone, Copy, Debug, PartialEq, Eq, Structural)]
pub struct AddGate {
    pub selector: usize,
    pub a: usize,
    pub b: usize,
}

/// The shape of a circuit: its columns, the columns that take part in
/// copy constraints, and its gates.
pub struct ConstraintSystem {
    pub num_selectors: usize,
    pub num_advice_columns: usize,
    pub num_instance_columns: usize,
    pub equality: Vec<Column>,
    pub gates: Vec<AddGate>,
}

impl ConstraintSystem {
    /// A shape with no columns and no gates.
    pub fn new() -> (r: ConstraintSystem)
        ensures
            r.num_selectors == 0,
            r.num_advice_columns == 0,
            r.num_instance_columns == 0,
            r.equality@.len() == 0,
            r.gates@.len() == 0,
    {
        ConstraintSystem {
            num_selectors: 0,
            num_advice_columns: 0,
            num_instance_columns: 0,
            equality: Vec::new(),
            gates: Vec::new(),
        }
    }

    /// Allocates a fresh selector and returns its index.
    pub fn selector(&mut self) -> (r: usize)
        requires
            old(self).num_selectors < usize::MAX,
        ensures
            r == old(self).num_selectors,
            final(self).num_selectors == old(self).num_selectors + 1,
            final(self).num_advice_columns == old(self).num_advice_columns,
            final(self).num_instance_columns == old(self).num_instance_columns,
            final(self).equality@ == old(self).equality@,
            final(self).gates@ == old(self).gates@,
    {
        let r = self.num_selectors;
        self.num_selectors = r + 1;
        r
    }

    /// Allocates a fresh advice column and returns its index.
    pub fn advice_column(&mut self) -> (r: usize)
        requires
            old(self).num_advice_columns < usize::MAX,
        ensures
            r == old(self).num_advice_columns,
            final(self).num_selectors == old(self).num_selectors,
            final(self).num_advice_columns == old(self).num_advice_columns + 1,
            final(self).num_instance_columns == old(self).num_instance_columns,
            final(self).equality@ == old(self).equality@,
            final(self).gates@ == old(self).gates@,
    {
        let r = self.num_advice_columns;
        self.num_advice_columns = r + 1;
        r
    }

    /// Allocates a fresh instance column and returns its index.
    pub fn instance_column(&mut self) -> (r: usize)
        requires
            old(self).num_instance_columns < usize::MAX,
        ensures
            r == old(self).num_instance_columns,
            final(self).num_selectors == old(self).num_selectors,
            final(self).num_advice_columns == old(self).num_advice_columns,
            final(self).num_instance_columns == old(self).num_instance_columns + 1,
            final(self).equality@ == old(self).equality@,
            final(self).gates@ == old(self).gates@,
    {
        let r = self.num_instance_columns;
        self.num_instance_columns = r + 1;
        r
    }

    /// Lets `column` take part in copy constraints.
    pub fn enable_equality(&mut self, column: Column)
        ensures
            final(self).num_selectors == old(self).num_selectors,
            final(self).num_advice_columns == old(self).num_advice_columns,
            final(self).num_instance_columns == old(self).num_instance_columns,
            final(self).equality@ == old(self).equality@.push(column),
            final(self).gates@ == old(self).gates@,
    {
        self.equality.push(column);
    }

    /// Registers `gate`.
    pub fn create_gate(&mut self, gate: AddGate)
        ensures
            final(self).num_selectors == old(self).num_selectors,
            final(self).num_advice_columns == old(self).num_advice_columns,
            final(self).num_instance_columns == old(self).num_instance_columns,
            final(self).equality@ == old(self).equality@,
            final(self).gates@ == old(self).gates@.push(gate),
    {
        self.gates.push(gate);
    }
}

} // verus!
