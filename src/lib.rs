//! A two-term linear recurrence (`next = a + b`) laid out as an arithmetic
//! circuit over the Pallas base field: its shape, the rows that synthesis
//! assigns, the copy constraints that chain them, the binding of the last
//! term to the public input, and the check of all of these constraints.

pub mod cs;
pub mod fib;
pub mod field;
pub mod laws;
pub mod layout;
