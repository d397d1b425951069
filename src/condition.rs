use vstd::prelude::*;
use crate::builders::owned;
use crate::constraint::{Constraint, constraint_status, fits};
use crate::facts::{FactValue, field_value, resolve};
use crate::status::{Status, spec_and, spec_or, met_if, met_when};

verus! {

/// A node of a rules tree: a combinator over child conditions, or a test on
/// one field of the facts.
#[derive(Debug)]
pub enum Condition {
    And { and: Vec<Condition> },
    Or { or: Vec<Condition> },
    AtLeast { should_minimum_meet: usize, conditions: Vec<Condition> },
    Condition { field: String, constraint: Constraint },
}

/// Result of checking a rules tree: it mirrors the tree's shape.
#[derive(Debug)]
pub struct ConditionResult {
    /// Human-friendly description of the rule
    pub name: String,
    /// top-level status of this result
    pub status: Status,
    /// Results of any sub-rules
    pub children: Vec<ConditionResult>,
}

/// The status of a condition on the facts.
pub open spec fn status_of(c: Condition, facts: FactValue) -> Status
    decreases c,
{
    match c {
        Condition::And { and } => fold_and(and@, facts),
        Condition::Or { or } => fold_or(or@, facts),
        Condition::AtLeast { should_minimum_meet, conditions } => met_if(
            count_met(conditions@, facts) >= should_minimum_meet,
        ),
        Condition::Condition { field, constraint } => match field_value(facts, field@) {
            Some(v) => constraint_status(constraint, v),
            None => Status::Unknown,
        },
    }
}

/// Conjunction of the children's statuses, folded from `Met`.
pub open spec fn fold_and(cs: Seq<Condition>, facts: FactValue) -> Status
    decreases cs,
{
    if cs.len() == 0 {
        Status::Met
    } else {
        spec_and(fold_and(cs.drop_last(), facts), status_of(cs.last(), facts))
    }
}

/// Disjunction of the children's statuses, folded from `NotMet`.
pub open spec fn fold_or(cs: Seq<Condition>, facts: FactValue) -> Status
    decreases cs,
{
    if cs.len() == 0 {
        Status::NotMet
    } else {
        spec_or(fold_or(cs.drop_last(), facts), status_of(cs.last(), facts))
    }
}

/// How many children are exactly `Met`.
pub open spec fn count_met(cs: Seq<Condition>, facts: FactValue) -> nat
    decreases cs,
{
    if cs.len() == 0 {
        0
    } else {
        count_met(cs.drop_last(), facts) + if status_of(cs.last(), facts) == Status::Met {
            1nat
        } else {
            0nat
        }
    }
}

/// The decimal digit for `d < 10`.
pub open spec fn digit_char(d: nat) -> char {
    if d == 0 {
        '0'
    } else if d == 1 {
        '1'
    } else if d == 2 {
        '2'
    } else if d == 3 {
        '3'
    } else if d == 4 {
        '4'
    } else if d == 5 {
        '5'
    } else if d == 6 {
        '6'
    } else if d == 7 {
        '7'
    } else if d == 8 {
        '8'
    } else {
        '9'
    }
}

/// The decimal text of a number, without leading zeros.
pub open spec fn decimal_text(n: nat) -> Seq<char>
    decreases n,
{
    if n < 10 {
        seq![digit_char(n)]
    } else {
        decimal_text(n / 10).push(digit_char(n % 10))
    }
}

/// The name of a condition's result.
pub open spec fn name_of(c: Condition) -> Seq<char> {
    match c {
        Condition::And { .. } => "And"@,
        Condition::Or { .. } => "Or"@,
        Condition::AtLeast { should_minimum_meet, conditions } => "At least meet "@ + decimal_text(
            should_minimum_meet as nat,
        ) + " of "@ + decimal_text(conditions.len() as nat),
        Condition::Condition { field, .. } => field@,
    }
}

/// `r` is the complete result of checking `c` on the facts: its status, its
/// name, and one child result for each child condition, in order.
pub open spec fn explains(r: ConditionResult, c: Condition, facts: FactValue) -> bool
    decreases c,
{
    &&& r.status == status_of(c, facts)
    &&& r.name@ == name_of(c)
    &&& match c {
        Condition::And { and } => explains_all(r.children@, and@, facts),
        Condition::Or { or } => explains_all(r.children@, or@, facts),
        Condition::AtLeast { conditions, .. } => explains_all(r.children@, conditions@, facts),
        Condition::Condition { .. } => r.children@.len() == 0,
    }
}

/// Each result explains the condition at the same position.
pub open spec fn explains_all(rs: Seq<ConditionResult>, cs: Seq<Condition>, facts: FactValue) -> bool
    decreases cs,
{
    &&& rs.len() == cs.len()
    &&& (cs.len() == 0 || (explains_all(rs.drop_last(), cs.drop_last(), facts) && explains(
        rs.last(),
        cs.last(),
        facts,
    )))
}

proof fn lemma_count_met_bounded(cs: Seq<Condition>, facts: FactValue)
    ensures
        count_met(cs, facts) <= cs.len(),
    decreases cs.len(),
{
    if cs.len() > 0 {
        lemma_count_met_bounded(cs.drop_last(), facts);
    }
}

/// `AtLeast` with a minimum of zero is `Met`, whatever its children; with a
/// minimum above the number of children it is `NotMet`, whatever their
/// statuses.
pub proof fn lemma_at_least_bounds(c: Condition, facts: FactValue)
    requires
        c is AtLeast,
    ensures
        c->should_minimum_meet == 0 ==> status_of(c, facts) == Status::Met,
        c->should_minimum_meet > c->conditions@.len() ==> status_of(c, facts) == Status::NotMet,
{
    lemma_count_met_bounded(c->conditions@, facts);
}

/// A test on a field that the facts do not hold is `Unknown`, whatever the
/// constraint.
pub proof fn lemma_absent_field_unknown(field: String, constraint: Constraint, facts: FactValue)
    requires
        field_value(facts, field@) is None,
    ensures
        status_of(Condition::Condition { field, constraint }, facts) == Status::Unknown,
{
}

/// A test on a field that holds a value of the wrong shape for its operator is
/// `NotMet`; a test on a field that is present is never `Unknown`.
pub proof fn lemma_mismatch_not_met(field: String, constraint: Constraint, facts: FactValue)
    requires
        field_value(facts, field@) is Some,
    ensures
        status_of(Condition::Condition { field, constraint }, facts) != Status::Unknown,
        !fits(constraint, field_value(facts, field@)->0) ==> status_of(
            Condition::Condition { field, constraint },
            facts,
        ) == Status::NotMet,
{
    crate::constraint::lemma_never_unknown(constraint, field_value(facts, field@)->0);
}

/// Relies on `usize`'s `Display`: the decimal digits of the number.
#[verifier::external_body]
fn usize_text(n: usize) -> (r: String)
    ensures
        r@ == decimal_text(n as nat),
{
    n.to_string()
}

/// What the children of a combinator gave: their results in order, their
/// conjunction, their disjunction, and how many were `Met`.
struct Children {
    results: Vec<ConditionResult>,
    all: Status,
    any: Status,
    met: usize,
}

fn check_children(cs: &Vec<Condition>, info: &FactValue, Ghost(parent): Ghost<Condition>) -> (r: Children)
    requires
        forall|i: int| 0 <= i < cs@.len() ==> decreases_to!(parent => #[trigger] cs@[i]),
    ensures
        explains_all(r.results@, cs@, *info),
        r.all == fold_and(cs@, *info),
        r.any == fold_or(cs@, *info),
        r.met as nat == count_met(cs@, *info),
    decreases parent, 0nat,
{
    let mut results: Vec<ConditionResult> = Vec::new();
    let mut all = Status::Met;
    let mut any = Status::NotMet;
    let mut met: usize = 0;
    let mut i: usize = 0;
    assert(cs@.subrange(0, 0) =~= Seq::<Condition>::empty());
    while i < cs.len()
        invariant
            i <= cs.len(),
            forall|k: int| 0 <= k < cs@.len() ==> decreases_to!(parent => #[trigger] cs@[k]),
            explains_all(results@, cs@.subrange(0, i as int), *info),
            all == fold_and(cs@.subrange(0, i as int), *info),
            any == fold_or(cs@.subrange(0, i as int), *info),
            met as nat == count_met(cs@.subrange(0, i as int), *info),
            met <= i,
        decreases cs.len() - i,
    {
        let ghost pre = cs@.subrange(0, i as int);
        let ghost next = cs@.subrange(0, i + 1);
        assert(next.drop_last() =~= pre);
        assert(next.last() == cs@[i as int]);
        let child = cs[i].check_value(info);
        all = all & child.status;
        any = any | child.status;
        if child.status.is_met() {
            met = met + 1;
        }
        let ghost old_results = results@;
        results.push(child);
        assert(results@.drop_last() =~= old_results);
        i = i + 1;
    }
    assert(cs@.subrange(0, cs.len() as int) =~= cs@);
    Children { results, all, any, met }
}

impl Condition {
    /// Starting at this node, recursively check (depth-first) every child
    /// node, and aggregate the results; no child is skipped.
    pub fn check_value(&self, info: &FactValue) -> (r: ConditionResult)
        ensures
            explains(r, *self, *info),
            r.status == status_of(*self, *info),
        decreases *self, 1nat,
    {
        match self {
            Condition::And { and } => {
                let kids = check_children(and, info, Ghost(*self));
                ConditionResult { name: owned("And"), status: kids.all, children: kids.results }
            },
            Condition::Or { or } => {
                let kids = check_children(or, info, Ghost(*self));
                ConditionResult { name: owned("Or"), status: kids.any, children: kids.results }
            },
            Condition::AtLeast { should_minimum_meet, conditions } => {
                let kids = check_children(conditions, info, Ghost(*self));
                let mut name = owned("At least meet ");
                name.append(usize_text(*should_minimum_meet).as_str());
                name.append(" of ");
                name.append(usize_text(conditions.len()).as_str());
                let status = met_when(kids.met >= *should_minimum_meet);
                ConditionResult { name, status, children: kids.results }
            },
            Condition::Condition { field, constraint } => {
                let status = match resolve(info, field.as_str()) {
                    Some(v) => constraint.check_value(v),
                    None => Status::Unknown,
                };
                ConditionResult { name: field.clone(), status, children: Vec::new() }
            },
        }
    }
}

} // verus!
