//! An arithmetic expression evaluator for a desk calculator.
//!
//! A line of text such as `3 + 2^3*4/2 - 1` is read character by character and
//! folded through three precedence accumulators into a value: a scalar or a flat
//! vector. The library holds no machine arithmetic of its own. A scalar is an
//! expression over decimal literals and stored numbers, and the host that
//! displays results computes it.
//!
//! A host hands a line to [`calculator::calculate`] while it is typed, and to
//! [`calculator::calculate_assign`] once it is entered. Both give an
//! [`calculator::Answer`]: a line to show as it is, or a value. The host
//! computes each number of the value, writes it, and has
//! [`calculator::Answer::display`] put the line together. With
//! [`calculator::settle`] it stores the computed numbers in place of the
//! expressions that the line left in the session.
pub mod text;

pub mod calculator;
pub mod log;
