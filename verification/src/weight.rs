//! Routing priorities and the bounded weights derived from them.

use vstd::prelude::*;

verus! {

/// Routing priority of an upstream provider endpoint, highest first.
#[derive(Clone, Copy, Debug, PartialEq, Eq, Structural)]
pub enum Priority {
    High,
    Normal,
    Low,
    Deprioritized,
}

/// Configuration error: a priority maps to a routing weight outside the
/// allowed range, so the endpoint would be listed yet never selectable.
#[derive(Clone, Copy, Debug, PartialEq, Eq, Structural)]
pub struct InvalidWeight;

/// Smallest weight an endpoint may carry and still take part in selection.
pub const MIN_WEIGHT: u64 = 1;

/// Largest weight an endpoint may carry.
pub const MAX_WEIGHT: u64 = 100;

/// The numeric routing weight each priority stands for.
pub open spec fn priority_weight(p: Priority) -> int {
    match p {
        Priority::High => 100,
        Priority::Normal => 50,
        Priority::Low => 10,
        Priority::Deprioritized => 0,
    }
}

/// Weights are never negative.
pub proof fn lemma_weight_nonneg(w: Weight)
    ensures
        w.spec_value() >= 0,
{
}

/// A bounded routing weight; an endpoint's probability of being selected is
/// proportional to it.
#[derive(Clone, Copy, Debug, PartialEq, Eq, Structural)]
pub struct Weight {
    value: u64,
}

impl Weight {
    /// Every weight lies within the allowed routing range.
    #[verifier::type_invariant]
    pub closed spec fn inv(self) -> bool {
        MIN_WEIGHT <= self.value <= MAX_WEIGHT
    }

    /// The numeric value of the weight.
    pub closed spec fn spec_value(self) -> int {
        self.value as int
    }

    /// Derives the weight for `priority`, rejecting a priority whose mapped
    /// weight falls outside the routing range.
    pub fn new(priority: Priority) -> (r: Result<Weight, InvalidWeight>)
        ensures
            r is Ok <==> MIN_WEIGHT <= priority_weight(priority) <= MAX_WEIGHT,
            r matches Ok(w) ==> w.spec_value() == priority_weight(priority),
    {
        let value: u64 = match priority {
            Priority::High => 100,
            Priority::Normal => 50,
            Priority::Low => 10,
            Priority::Deprioritized => 0,
        };
        if MIN_WEIGHT <= value && value <= MAX_WEIGHT {
            Ok(Weight { value })
        } else {
            Err(InvalidWeight)
        }
    }

    /// The weight's numeric value, always within the routing range.
    pub fn value(&self) -> (v: u64)
        ensures
            v == self.spec_value(),
            MIN_WEIGHT <= v <= MAX_WEIGHT,
    {
        proof {
            use_type_invariant(self);
        }
        self.value
    }
}

} // verus!
