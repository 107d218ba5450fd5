use vstd::prelude::*;
use crate::field::modulus;
use crate::fib::{fib_layout, region_copies_ok, region_ok, term};
use crate::layout::{add_val, instance_at, Cell, Slot, TraceModel};

verus! {

/// On a row whose selector is off, the addition gate holds whatever the cells hold.
pub proof fn lemma_disabled_row_holds(t: TraceModel, r: int)
    requires
        0 <= r < t.len(),
        !t.selector[r],
    ensures
        t.gate_holds(r),
{
}

/// On a row whose selector is on, known values with `a + b != b_next`
/// break the addition gate there, so the trace is satisfied by no public input.
pub proof fn lemma_enabled_row_mismatch(t: TraceModel, r: int, inst: Seq<int>, x: int, y: int, z: int)
    requires
        t.wf(),
        0 <= r,
        r + 1 < t.len(),
        t.selector[r],
        t.a[r] == Some(x),
        t.b[r] == Some(y),
        t.b[r + 1] == Some(z),
        (x + y) % modulus() != z,
    ensures
        !t.gate_holds(r),
        !t.satisfied(inst),
{
    assert(!t.gate_holds(r));
    assert(!t.gates_hold());
}

/// With known seeds every term of the recurrence is known.
pub proof fn lemma_term_known(a: int, b: int, n: nat)
    ensures
        term(Some(a), Some(b), n) is Some,
    decreases n,
{
    if n >= 2 {
        lemma_term_known(a, b, (n - 2) as nat);
        lemma_term_known(a, b, (n - 1) as nat);
    }
}

/// In the trace of the recurrence circuit, each copy constraint's target
/// holds exactly the value of its source.
pub proof fn lemma_copies_carry_values(t: TraceModel, a: Option<int>, b: Option<int>, k: nat)
    requires
        t.wf(),
        fib_layout(t, a, b, k),
    ensures
        forall|i: int| 0 <= i < t.copies.len() ==> #[trigger] t.value(t.copies[i].0) == t.value(t.copies[i].1),
{
    let u = TraceModel { bindings: Seq::empty(), ..t };
    assert forall|i: int| 0 <= i < t.copies.len() implies #[trigger] t.value(t.copies[i].0) == t.value(
        t.copies[i].1,
    ) by {
        let j = i / 2 + 1;
        assert(region_copies_ok(u, j));
        assert(region_ok(u, a, b, j - 1));
        assert(region_ok(u, a, b, j));
        if i == 2 * j - 2 {
            assert(t.value(t.copies[i].0) == t.b[2 * j - 2]);
            assert(t.value(t.copies[i].1) == t.a[2 * j]);
        } else {
            assert(t.value(t.copies[i].0) == t.b[2 * j - 1]);
            assert(t.value(t.copies[i].1) == t.b[2 * j]);
        }
    }
}

/// The trace of the recurrence circuit seeded with known `a` and `b` over
/// `k` steps satisfies every constraint against a public input exactly when
/// row 0 of that input holds term `k + 2` of the recurrence.
pub proof fn lemma_layout_satisfied(t: TraceModel, a: int, b: int, k: nat, inst: Seq<int>)
    requires
        t.wf(),
        fib_layout(t, Some(a), Some(b), k),
        inst.len() <= t.usable_rows,
    ensures
        t.satisfied(inst) <==> term(Some(a), Some(b), k + 2) == Some(instance_at(inst, 0)),
{
    let (sa, sb) = (Some(a), Some(b));
    let u = TraceModel { bindings: Seq::empty(), ..t };
    assert forall|r: int| 0 <= r < t.len() implies #[trigger] t.gate_holds(r) by {
        let i = r / 2;
        assert(region_ok(u, sa, sb, i));
        if r == 2 * i {
            lemma_term_known(a, b, i as nat);
            lemma_term_known(a, b, (i + 1) as nat);
            assert(term(sa, sb, (i + 2) as nat) == add_val(
                term(sa, sb, i as nat),
                term(sa, sb, (i + 1) as nat),
            ));
        }
    }
    lemma_copies_carry_values(t, sa, sb, k);
    assert forall|i: int| 0 <= i < t.copies.len() implies #[trigger] t.copy_holds(i) by {
        let j = i / 2 + 1;
        assert(region_copies_ok(u, j));
        assert(region_ok(u, sa, sb, j - 1));
        lemma_term_known(a, b, j as nat);
        lemma_term_known(a, b, (j + 1) as nat);
        assert(t.value(t.copies[i].0) == t.value(t.copies[i].1));
        if i == 2 * j - 2 {
            assert(t.value(t.copies[i].0) == t.b[2 * j - 2]);
        } else {
            assert(t.value(t.copies[i].0) == t.b[2 * j - 1]);
        }
    }
    assert(region_ok(u, sa, sb, k as int));
    assert(t.bindings[0].0 == Cell { slot: Slot::B, row: (2 * k + 1) as usize });
    assert(t.value(t.bindings[0].0) == t.b[2 * k + 1 as int]);
    assert(t.value(t.bindings[0].0) == term(sa, sb, k + 2));
    if t.satisfied(inst) {
        assert(t.binding_holds(inst, 0));
    }
}

/// Synthesis is deterministic: two traces of the recurrence circuit with the
/// same seeds, steps and room are the same trace.
pub proof fn lemma_layout_unique(t1: TraceModel, t2: TraceModel, a: Option<int>, b: Option<int>, k: nat)
    requires
        t1.wf(),
        t2.wf(),
        fib_layout(t1, a, b, k),
        fib_layout(t2, a, b, k),
        t1.usable_rows == t2.usable_rows,
    ensures
        t1 == t2,
{
    let u1 = TraceModel { bindings: Seq::empty(), ..t1 };
    let u2 = TraceModel { bindings: Seq::empty(), ..t2 };
    assert forall|r: int| 0 <= r < t1.len() implies t1.selector[r] == t2.selector[r] && t1.a[r] == t2.a[r]
        && t1.b[r] == t2.b[r] by {
        assert(region_ok(u1, a, b, r / 2));
        assert(region_ok(u2, a, b, r / 2));
    }
    assert forall|i: int| 0 <= i < t1.copies.len() implies t1.copies[i] == t2.copies[i] by {
        assert(region_copies_ok(u1, i / 2 + 1));
        assert(region_copies_ok(u2, i / 2 + 1));
    }
    assert(t1.selector =~= t2.selector);
    assert(t1.a =~= t2.a);
    assert(t1.b =~= t2.b);
    assert(t1.copies =~= t2.copies);
}

} // verus!
