use vstd::prelude::*;

verus! {

/// The status of a rule check.
#[derive(Debug, Clone, Copy, PartialEq, Eq, Structural)]
pub enum Status {
    /// Rule was satisfied
    Met,
    /// Rule was not satisfied
    NotMet,
    /// There was not enough information to evaluate
    Unknown,
}

/// Kleene conjunction: `NotMet` dominates, `Met` only when both are `Met`.
pub open spec fn spec_and(a: Status, b: Status) -> Status {
    if a == Status::Met && b == Status::Met {
        Status::Met
    } else if a == Status::NotMet || b == Status::NotMet {
        Status::NotMet
    } else {
        Status::Unknown
    }
}

/// Kleene disjunction: `Met` dominates, `NotMet` only when both are `NotMet`.
pub open spec fn spec_or(a: Status, b: Status) -> Status {
    if a == Status::NotMet && b == Status::NotMet {
        Status::NotMet
    } else if a == Status::Met || b == Status::Met {
        Status::Met
    } else {
        Status::Unknown
    }
}

/// Negation: swaps `Met` and `NotMet`, keeps `Unknown`.
pub open spec fn spec_not(a: Status) -> Status {
    match a {
        Status::Met => Status::NotMet,
        Status::NotMet => Status::Met,
        Status::Unknown => Status::Unknown,
    }
}

/// `Met` when `b` holds, `NotMet` otherwise.
pub open spec fn met_if(b: bool) -> Status {
    if b {
        Status::Met
    } else {
        Status::NotMet
    }
}

impl Status {
    pub fn bitand(self, rhs: Status) -> (r: Status)
        ensures
            r == spec_and(self, rhs),
    {
        match (self, rhs) {
            (Status::Met, Status::Met) => Status::Met,
            (Status::NotMet, _) | (_, Status::NotMet) => Status::NotMet,
            (_, _) => Status::Unknown,
        }
    }

    pub fn bitor(self, rhs: Status) -> (r: Status)
        ensures
            r == spec_or(self, rhs),
    {
        match (self, rhs) {
            (Status::NotMet, Status::NotMet) => Status::NotMet,
            (Status::Met, _) | (_, Status::Met) => Status::Met,
            (_, _) => Status::Unknown,
        }
    }

    pub fn not(self) -> (r: Status)
        ensures
            r == spec_not(self),
    {
        match self {
            Status::Met => Status::NotMet,
            Status::NotMet => Status::Met,
            Status::Unknown => Status::Unknown,
        }
    }

    /// Whether this status is `Met`.
    pub fn is_met(&self) -> (r: bool)
        ensures
            r == (*self == Status::Met),
    {
        match self {
            Status::Met => true,
            _ => false,
        }
    }
}

impl std::ops::BitAnd for Status {
    type Output = Status;

    fn bitand(self, rhs: Status) -> Status {
        Status::bitand(self, rhs)
    }
}

impl std::ops::BitOr for Status {
    type Output = Status;

    fn bitor(self, rhs: Status) -> Status {
        Status::bitor(self, rhs)
    }
}

impl std::ops::Not for Status {
    type Output = Status;

    fn not(self) -> Status {
        Status::not(self)
    }
}

impl vstd::std_specs::ops::BitAndSpecImpl for Status {
    open spec fn obeys_bitand_spec() -> bool {
        true
    }

    open spec fn bitand_req(self, rhs: Status) -> bool {
        true
    }

    open spec fn bitand_spec(self, rhs: Status) -> Status {
        spec_and(self, rhs)
    }
}

impl vstd::std_specs::ops::BitOrSpecImpl for Status {
    open spec fn obeys_bitor_spec() -> bool {
        true
    }

    open spec fn bitor_req(self, rhs: Status) -> bool {
        true
    }

    open spec fn bitor_spec(self, rhs: Status) -> Status {
        spec_or(self, rhs)
    }
}

impl vstd::std_specs::ops::NotSpecImpl for Status {
    open spec fn obeys_not_spec() -> bool {
        true
    }

    open spec fn not_req(self) -> bool {
        true
    }

    open spec fn not_spec(self) -> Status {
        spec_not(self)
    }
}

pub fn met_when(b: bool) -> (r: Status)
    ensures
        r == met_if(b),
{
    if b {
        Status::Met
    } else {
        Status::NotMet
    }
}

/// Conjunction and disjunction commute, and negation is its own inverse.
pub proof fn lemma_algebra_laws(a: Status, b: Status)
    ensures
        spec_and(a, b) == spec_and(b, a),
        spec_or(a, b) == spec_or(b, a),
        spec_not(spec_not(a)) == a,
{
}

/// Conjunction and disjunction are associative.
pub proof fn lemma_associative(a: Status, b: Status, c: Status)
    ensures
        spec_and(spec_and(a, b), c) == spec_and(a, spec_and(b, c)),
        spec_or(spec_or(a, b), c) == spec_or(a, spec_or(b, c)),
{
}

} // verus!
