use vstd::prelude::*;
use crate::condition::Condition;
use crate::constraint::Constraint;

verus! {

/// `c` tests the field `field`.
pub open spec fn tests_field(c: Condition, field: Seq<char>) -> bool {
    c is Condition && c->field@ == field
}

/// The constraint of a test on a field.
pub open spec fn constraint_of(c: Condition) -> Constraint {
    c->constraint
}

/// A list of owned texts that reads as the given texts.
pub open spec fn texts_match(ss: Seq<String>, val: Seq<&str>) -> bool {
    ss.len() == val.len() && forall|i: int| 0 <= i < ss.len() ==> (#[trigger] ss[i])@ == val[i]@
}

pub(crate) fn owned(s: &str) -> (r: String)
    ensures
        r@ == s@,
{
    s.to_owned()
}

fn owned_all(val: Vec<&str>) -> (r: Vec<String>)
    ensures
        texts_match(r@, val@),
{
    let mut r: Vec<String> = Vec::new();
    let mut i: usize = 0;
    while i < val.len()
        invariant
            i <= val.len(),
            r@.len() == i,
            forall|k: int| 0 <= k < i ==> (#[trigger] r@[k])@ == val@[k]@,
        decreases val.len() - i,
    {
        r.push(owned(val[i]));
        i = i + 1;
    }
    r
}

/// Creates a condition where all children must be `Met`: `NotMet` if any is
/// `NotMet`, `Unknown` if the others are `Met` and some `Unknown`.
pub fn and(children: Vec<Condition>) -> (r: Condition)
    ensures
        r == (Condition::And { and: children }),
{
    Condition::And { and: children }
}

/// Creates a condition where any child must be `Met`: `Met` if any is `Met`,
/// `Unknown` if the others are `NotMet` and some `Unknown`.
pub fn or(children: Vec<Condition>) -> (r: Condition)
    ensures
        r == (Condition::Or { or: children }),
{
    Condition::Or { or: children }
}

/// Creates a condition where at least `should_minimum_meet` children must be
/// `Met`; otherwise it is `NotMet`.
pub fn at_least(should_minimum_meet: usize, conditions: Vec<Condition>) -> (r: Condition)
    ensures
        r == (Condition::AtLeast { should_minimum_meet, conditions }),
{
    Condition::AtLeast { should_minimum_meet, conditions }
}

pub fn string_equals(field: &str, val: &str) -> (r: Condition)
    ensures
        tests_field(r, field@),
        constraint_of(r) is StringEquals && constraint_of(r)->StringEquals_0@ == val@,
{
    Condition::Condition { field: owned(field), constraint: Constraint::StringEquals(owned(val)) }
}

pub fn string_not_equals(field: &str, val: &str) -> (r: Condition)
    ensures
        tests_field(r, field@),
        constraint_of(r) is StringNotEquals && constraint_of(r)->StringNotEquals_0@ == val@,
{
    Condition::Condition { field: owned(field), constraint: Constraint::StringNotEquals(owned(val)) }
}

pub fn string_contains(field: &str, val: &str) -> (r: Condition)
    ensures
        tests_field(r, field@),
        constraint_of(r) is StringContains && constraint_of(r)->StringContains_0@ == val@,
{
    Condition::Condition { field: owned(field), constraint: Constraint::StringContains(owned(val)) }
}

pub fn string_does_not_contains(field: &str, val: &str) -> (r: Condition)
    ensures
        tests_field(r, field@),
        constraint_of(r) is StringDoesNotContain && constraint_of(r)->StringDoesNotContain_0@ == val@,
{
    Condition::Condition { field: owned(field), constraint: Constraint::StringDoesNotContain(owned(val)) }
}

pub fn string_in(field: &str, val: Vec<&str>) -> (r: Condition)
    ensures
        tests_field(r, field@),
        constraint_of(r) is StringIn && texts_match(constraint_of(r)->StringIn_0@, val@),
{
    Condition::Condition { field: owned(field), constraint: Constraint::StringIn(owned_all(val)) }
}

pub fn string_not_in(field: &str, val: Vec<&str>) -> (r: Condition)
    ensures
        tests_field(r, field@),
        constraint_of(r) is StringNotIn && texts_match(constraint_of(r)->StringNotIn_0@, val@),
{
    Condition::Condition { field: owned(field), constraint: Constraint::StringNotIn(owned_all(val)) }
}

pub fn int_equals(field: &str, val: i64) -> (r: Condition)
    ensures
        tests_field(r, field@),
        constraint_of(r) == Constraint::IntEquals(val),
{
    Condition::Condition { field: owned(field), constraint: Constraint::IntEquals(val) }
}

pub fn int_not_equals(field: &str, val: i64) -> (r: Condition)
    ensures
        tests_field(r, field@),
        constraint_of(r) == Constraint::IntNotEquals(val),
{
    Condition::Condition { field: owned(field), constraint: Constraint::IntNotEquals(val) }
}

pub fn int_contains(field: &str, val: i64) -> (r: Condition)
    ensures
        tests_field(r, field@),
        constraint_of(r) == Constraint::IntContains(val),
{
    Condition::Condition { field: owned(field), constraint: Constraint::IntContains(val) }
}

pub fn int_does_not_contain(field: &str, val: i64) -> (r: Condition)
    ensures
        tests_field(r, field@),
        constraint_of(r) == Constraint::IntDoesNotContain(val),
{
    Condition::Condition { field: owned(field), constraint: Constraint::IntDoesNotContain(val) }
}

pub fn int_less_than(field: &str, val: i64) -> (r: Condition)
    ensures
        tests_field(r, field@),
        constraint_of(r) == Constraint::IntLessThan(val),
{
    Condition::Condition { field: owned(field), constraint: Constraint::IntLessThan(val) }
}

pub fn int_less_than_inclusive(field: &str, val: i64) -> (r: Condition)
    ensures
        tests_field(r, field@),
        constraint_of(r) == Constraint::IntLessThanInclusive(val),
{
    Condition::Condition { field: owned(field), constraint: Constraint::IntLessThanInclusive(val) }
}

pub fn int_greater_than(field: &str, val: i64) -> (r: Condition)
    ensures
        tests_field(r, field@),
        constraint_of(r) == Constraint::IntGreaterThan(val),
{
    Condition::Condition { field: owned(field), constraint: Constraint::IntGreaterThan(val) }
}

pub fn int_greater_than_inclusive(field: &str, val: i64) -> (r: Condition)
    ensures
        tests_field(r, field@),
        constraint_of(r) == Constraint::IntGreaterThanInclusive(val),
{
    Condition::Condition { field: owned(field), constraint: Constraint::IntGreaterThanInclusive(val) }
}

pub fn int_in(field: &str, val: Vec<i64>) -> (r: Condition)
    ensures
        tests_field(r, field@),
        constraint_of(r) == Constraint::IntIn(val),
{
    Condition::Condition { field: owned(field), constraint: Constraint::IntIn(val) }
}

pub fn int_not_in(field: &str, val: Vec<i64>) -> (r: Condition)
    ensures
        tests_field(r, field@),
        constraint_of(r) == Constraint::IntNotIn(val),
{
    Condition::Condition { field: owned(field), constraint: Constraint::IntNotIn(val) }
}

pub fn int_in_range(field: &str, start: i64, end: i64) -> (r: Condition)
    ensures
        tests_field(r, field@),
        constraint_of(r) == Constraint::IntInRange(start, end),
{
    Condition::Condition { field: owned(field), constraint: Constraint::IntInRange(start, end) }
}

pub fn int_not_in_range(field: &str, start: i64, end: i64) -> (r: Condition)
    ensures
        tests_field(r, field@),
        constraint_of(r) == Constraint::IntNotInRange(start, end),
{
    Condition::Condition { field: owned(field), constraint: Constraint::IntNotInRange(start, end) }
}

pub fn bool_equals(field: &str, val: bool) -> (r: Condition)
    ensures
        tests_field(r, field@),
        constraint_of(r) == Constraint::BoolEquals(val),
{
    Condition::Condition { field: owned(field), constraint: Constraint::BoolEquals(val) }
}

} // verus!
