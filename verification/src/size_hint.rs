//! Bounds on the number of bytes that a body still has to yield.
use vstd::prelude::*;

verus! {

/// A lower bound and, where one is known, an upper bound on the number of
/// bytes left in a body.
#[derive(Clone, Copy, Debug)]
pub struct SizeHint {
    lower: u64,
    upper: Option<u64>,
}

impl SizeHint {
    /// The lower bound never exceeds the upper bound.
    #[verifier::type_invariant]
    spec fn ordered(self) -> bool {
        self.upper matches Some(u) ==> self.lower <= u
    }

    pub closed spec fn spec_lower(&self) -> u64 {
        self.lower
    }

    pub closed spec fn spec_upper(&self) -> Option<u64> {
        self.upper
    }

    /// Nothing is known: at least zero bytes, no upper bound.
    pub fn new() -> (hint: SizeHint)
        ensures
            hint.spec_lower() == 0,
            hint.spec_upper() is None,
    {
        SizeHint { lower: 0, upper: None }
    }

    /// Exactly `value` bytes are left.
    pub fn with_exact(value: u64) -> (hint: SizeHint)
        ensures
            hint.spec_lower() == value,
            hint.spec_upper() == Some(value),
    {
        SizeHint { lower: value, upper: Some(value) }
    }

    #[verifier::when_used_as_spec(spec_lower)]
    pub fn lower(&self) -> (lower: u64)
        ensures
            lower == self.spec_lower(),
            self.spec_upper() matches Some(u) ==> lower <= u,
    {
        proof {
            use_type_invariant(self);
        }
        self.lower
    }

    #[verifier::when_used_as_spec(spec_upper)]
    pub fn upper(&self) -> (upper: Option<u64>)
        ensures
            upper == self.spec_upper(),
            upper matches Some(u) ==> self.spec_lower() <= u,
    {
        proof {
            use_type_invariant(self);
        }
        self.upper
    }

    /// The number of bytes left, where both bounds agree on it.
    pub fn exact(&self) -> (exact: Option<u64>)
        ensures
            exact == (if self.spec_upper() == Some(self.spec_lower()) {
                self.spec_upper()
            } else {
                None
            }),
    {
        match self.upper {
            Some(u) => if u == self.lower {
                Some(u)
            } else {
                None
            },
            None => None,
        }
    }

    /// Replaces the lower bound, which must not exceed the upper bound.
    pub fn set_lower(&mut self, value: u64)
        requires
            old(self).spec_upper() matches Some(u) ==> value <= u,
        ensures
            final(self).spec_lower() == value,
            final(self).spec_upper() == old(self).spec_upper(),
    {
        self.lower = value;
    }

    /// Replaces the upper bound, which must not be less than the lower bound.
    pub fn set_upper(&mut self, value: u64)
        requires
            old(self).spec_lower() <= value,
        ensures
            final(self).spec_lower() == old(self).spec_lower(),
            final(self).spec_upper() == Some(value),
    {
        self.upper = Some(value);
    }
}

} // verus!
