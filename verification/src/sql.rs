//! SQL text with positional parameters, built up piece by piece.
//!
//! A query is its text, in which each parameter stands as `?`, and the
//! parameter values in the order of their placeholders.

use vstd::prelude::*;

use crate::text::{decimal, decimal_int, push_i64, push_u64};

verus! {

/// An f64 carried by its bit pattern (`f64::to_bits`). The library passes
/// such values through to the database and never computes with them.
#[derive(Debug, Clone, Copy, PartialEq, Eq, Structural)]
pub struct Real {
    pub bits: u64,
}

/// A parameter value.
#[derive(Debug, Clone, Copy, PartialEq, Eq, Structural)]
pub enum Bind {
    Int(i64),
    Real(Real),
}

/// SQL text and its parameters.
pub struct SqlQuery {
    pub sql: String,
    pub binds: Vec<Bind>,
}

impl SqlQuery {
    /// An empty query, or one that starts with `EXPLAIN QUERY PLAN ` so the
    /// database describes the plan instead of running it.
    pub fn new(explain_query_plan: bool) -> (q: SqlQuery)
        ensures
            q.sql@ == (if explain_query_plan { "EXPLAIN QUERY PLAN "@ } else { Seq::empty() }),
            q.binds@ == Seq::<Bind>::empty(),
    {
        let mut q = SqlQuery { sql: String::new(), binds: Vec::new() };
        if explain_query_plan {
            q.push("EXPLAIN QUERY PLAN ");
        }
        q
    }

    /// Appends text.
    pub fn push(&mut self, s: &str)
        ensures
            final(self).sql@ == old(self).sql@ + s@,
            final(self).binds@ == old(self).binds@,
    {
        self.sql.append(s);
    }

    /// Appends an unsigned number in decimal.
    pub fn push_u64(&mut self, n: u64)
        ensures
            final(self).sql@ == old(self).sql@ + decimal(n as nat),
            final(self).binds@ == old(self).binds@,
    {
        push_u64(&mut self.sql, n);
    }

    /// Appends a signed number in decimal.
    pub fn push_i64(&mut self, n: i64)
        ensures
            final(self).sql@ == old(self).sql@ + decimal_int(n as int),
            final(self).binds@ == old(self).binds@,
    {
        push_i64(&mut self.sql, n);
    }

    /// Appends another query: its text, then its parameters.
    pub fn append(&mut self, other: SqlQuery)
        ensures
            final(self).sql@ == old(self).sql@ + other.sql@,
            final(self).binds@ == old(self).binds@ + other.binds@,
    {
        let mut other = other;
        self.sql.append(other.sql.as_str());
        self.binds.append(&mut other.binds);
    }

    /// Appends a placeholder and its value.
    pub fn push_bind(&mut self, b: Bind)
        ensures
            final(self).sql@ == old(self).sql@ + "?"@,
            final(self).binds@ == old(self).binds@.push(b),
    {
        self.sql.append("?");
        self.binds.push(b);
    }
}

} // verus!
