use vstd::prelude::*;

verus! {

/// The outcome of an escape-time evaluation: the step at which the orbit escaped, or
/// `Infinite` when it did not escape within the limit.
#[derive(Debug, Clone, Copy, PartialEq, Eq, Structural)]
pub enum Iteration {
    Finite(u32),
    Infinite,
}

impl Default for Iteration {
    /// A point that did not escape.
    fn default() -> (r: Self)
        ensures
            r == Iteration::Infinite,
    {
        Iteration::Infinite
    }
}

/// The escape step, if there was one.
pub open spec fn escape_step(i: Iteration) -> Option<u32> {
    match i {
        Iteration::Finite(n) => Some(n),
        Iteration::Infinite => None,
    }
}

impl From<Iteration> for Option<u32> {
    fn from(value: Iteration) -> (r: Option<u32>)
        ensures
            r == escape_step(value),
    {
        match value {
            Iteration::Finite(n) => Some(n),
            Iteration::Infinite => None,
        }
    }
}

impl vstd::std_specs::convert::FromSpecImpl<Iteration> for Option<u32> {
    open spec fn obeys_from_spec() -> bool {
        true
    }

    open spec fn from_spec(v: Iteration) -> Option<u32> {
        escape_step(v)
    }
}

} // verus!
