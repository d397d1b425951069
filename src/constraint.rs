use vstd::prelude::*;
use crate::facts::{FactValue, Number, str_of, int_of, bool_of};
use crate::status::{Status, met_if, met_when};

verus! {

/// A typed test on one fact value, with its literal operand(s).
#[derive(Debug, Clone)]
pub enum Constraint {
    StringEquals(String),
    StringNotEquals(String),
    StringContains(String),
    StringContainsAll(Vec<String>),
    StringContainsAny(Vec<String>),
    StringDoesNotContain(String),
    StringDoesNotContainAny(Vec<String>),
    StringIn(Vec<String>),
    StringNotIn(Vec<String>),
    IntEquals(i64),
    IntNotEquals(i64),
    IntContains(i64),
    IntContainsAll(Vec<i64>),
    IntContainsAny(Vec<i64>),
    IntDoesNotContain(i64),
    IntDoesNotContainAny(Vec<i64>),
    IntIn(Vec<i64>),
    IntNotIn(Vec<i64>),
    IntInRange(i64, i64),
    IntNotInRange(i64, i64),
    IntLessThan(i64),
    IntLessThanInclusive(i64),
    IntGreaterThan(i64),
    IntGreaterThanInclusive(i64),
    BoolEquals(bool),
}

/// Some string item of the array is `s`.
pub open spec fn has_str(a: Seq<FactValue>, s: Seq<char>) -> bool {
    exists|j: int| 0 <= j < a.len() && str_of(#[trigger] a[j]) == Some(s)
}

/// Some integer item of the array is `n`.
pub open spec fn has_int(a: Seq<FactValue>, n: i64) -> bool {
    exists|j: int| 0 <= j < a.len() && int_of(#[trigger] a[j]) == Some(n)
}

/// Some text of the list is `x`.
pub open spec fn str_listed(ss: Seq<String>, x: Seq<char>) -> bool {
    exists|i: int| 0 <= i < ss.len() && (#[trigger] ss[i])@ == x
}

/// Every text of the list is a string item of the array.
pub open spec fn has_all_strs(a: Seq<FactValue>, ss: Seq<String>) -> bool {
    forall|i: int| 0 <= i < ss.len() ==> has_str(a, (#[trigger] ss[i])@)
}

/// Some text of the list is a string item of the array.
pub open spec fn has_any_str(a: Seq<FactValue>, ss: Seq<String>) -> bool {
    exists|i: int| 0 <= i < ss.len() && has_str(a, (#[trigger] ss[i])@)
}

/// Every number of the list is an integer item of the array.
pub open spec fn has_all_ints(a: Seq<FactValue>, ns: Seq<i64>) -> bool {
    forall|i: int| 0 <= i < ns.len() ==> has_int(a, #[trigger] ns[i])
}

/// Some number of the list is an integer item of the array.
pub open spec fn has_any_int(a: Seq<FactValue>, ns: Seq<i64>) -> bool {
    exists|i: int| 0 <= i < ns.len() && has_int(a, #[trigger] ns[i])
}

/// The status of a test on a string value; `NotMet` for a value of another kind.
pub open spec fn on_str(v: FactValue, p: spec_fn(Seq<char>) -> bool) -> Status {
    match str_of(v) {
        Some(x) => met_if(p(x)),
        None => Status::NotMet,
    }
}

/// The status of a test on an integer value; `NotMet` for a value of another kind.
pub open spec fn on_int(v: FactValue, p: spec_fn(i64) -> bool) -> Status {
    match int_of(v) {
        Some(x) => met_if(p(x)),
        None => Status::NotMet,
    }
}

/// The status of a test on an array value; `NotMet` for a value of another kind.
pub open spec fn on_array(v: FactValue, p: spec_fn(Seq<FactValue>) -> bool) -> Status {
    match v {
        FactValue::Array(a) => met_if(p(a@)),
        _ => Status::NotMet,
    }
}

/// What a constraint gives on a fact value.
pub open spec fn constraint_status(k: Constraint, v: FactValue) -> Status {
    match k {
        Constraint::StringEquals(s) => on_str(v, |x: Seq<char>| x == s@),
        Constraint::StringNotEquals(s) => on_str(v, |x: Seq<char>| x != s@),
        Constraint::StringContains(s) => on_array(v, |a: Seq<FactValue>| has_str(a, s@)),
        Constraint::StringContainsAll(ss) => on_array(v, |a: Seq<FactValue>| has_all_strs(a, ss@)),
        Constraint::StringContainsAny(ss) => on_array(v, |a: Seq<FactValue>| has_any_str(a, ss@)),
        Constraint::StringDoesNotContain(s) => on_array(v, |a: Seq<FactValue>| !has_str(a, s@)),
        Constraint::StringDoesNotContainAny(ss) => on_array(
            v,
            |a: Seq<FactValue>| !has_any_str(a, ss@),
        ),
        Constraint::StringIn(ss) => on_str(v, |x: Seq<char>| str_listed(ss@, x)),
        Constraint::StringNotIn(ss) => on_str(v, |x: Seq<char>| !str_listed(ss@, x)),
        Constraint::IntEquals(n) => on_int(v, |x: i64| x == n),
        Constraint::IntNotEquals(n) => on_int(v, |x: i64| x != n),
        Constraint::IntContains(n) => on_array(v, |a: Seq<FactValue>| has_int(a, n)),
        Constraint::IntContainsAll(ns) => on_array(v, |a: Seq<FactValue>| has_all_ints(a, ns@)),
        Constraint::IntContainsAny(ns) => on_array(v, |a: Seq<FactValue>| has_any_int(a, ns@)),
        Constraint::IntDoesNotContain(n) => on_array(v, |a: Seq<FactValue>| !has_int(a, n)),
        Constraint::IntDoesNotContainAny(ns) => on_array(
            v,
            |a: Seq<FactValue>| !has_any_int(a, ns@),
        ),
        Constraint::IntIn(ns) => on_int(v, |x: i64| ns@.contains(x)),
        Constraint::IntNotIn(ns) => on_int(v, |x: i64| !ns@.contains(x)),
        Constraint::IntInRange(lo, hi) => on_int(v, |x: i64| lo <= x && x <= hi),
        Constraint::IntNotInRange(lo, hi) => on_int(v, |x: i64| !(lo <= x && x <= hi)),
        Constraint::IntLessThan(n) => on_int(v, |x: i64| x < n),
        Constraint::IntLessThanInclusive(n) => on_int(v, |x: i64| x <= n),
        Constraint::IntGreaterThan(n) => on_int(v, |x: i64| x > n),
        Constraint::IntGreaterThanInclusive(n) => on_int(v, |x: i64| x >= n),
        Constraint::BoolEquals(b) => match bool_of(v) {
            Some(x) => met_if(x == b),
            None => Status::NotMet,
        },
    }
}

/// Whether the value has the shape that the constraint's operator reads: a
/// string, an integer, a boolean, or (for the containment operators) an array.
pub open spec fn fits(k: Constraint, v: FactValue) -> bool {
    match k {
        Constraint::StringEquals(_) | Constraint::StringNotEquals(_) | Constraint::StringIn(_)
        | Constraint::StringNotIn(_) => str_of(v) is Some,
        Constraint::StringContains(_) | Constraint::StringContainsAll(_)
        | Constraint::StringContainsAny(_) | Constraint::StringDoesNotContain(_)
        | Constraint::StringDoesNotContainAny(_) | Constraint::IntContains(_)
        | Constraint::IntContainsAll(_) | Constraint::IntContainsAny(_)
        | Constraint::IntDoesNotContain(_) | Constraint::IntDoesNotContainAny(_) => v is Array,
        Constraint::BoolEquals(_) => bool_of(v) is Some,
        _ => int_of(v) is Some,
    }
}

/// A constraint never gives `Unknown`; on a value of the wrong shape it gives
/// `NotMet`.
pub proof fn lemma_never_unknown(k: Constraint, v: FactValue)
    ensures
        constraint_status(k, v) != Status::Unknown,
        !fits(k, v) ==> constraint_status(k, v) == Status::NotMet,
{
}

fn holds_str(a: &Vec<FactValue>, s: &String) -> (r: bool)
    ensures
        r == has_str(a@, s@),
{
    let mut j: usize = 0;
    while j < a.len()
        invariant
            j <= a.len(),
            forall|k: int| 0 <= k < j ==> str_of(#[trigger] a@[k]) != Some(s@),
        decreases a.len() - j,
    {
        if let FactValue::String(x) = &a[j] {
            if x.eq(s) {
                assert(str_of(a@[j as int]) == Some(s@));
                return true;
            }
        }
        j = j + 1;
    }
    false
}

fn holds_int(a: &Vec<FactValue>, n: i64) -> (r: bool)
    ensures
        r == has_int(a@, n),
{
    let mut j: usize = 0;
    while j < a.len()
        invariant
            j <= a.len(),
            forall|k: int| 0 <= k < j ==> int_of(#[trigger] a@[k]) != Some(n),
        decreases a.len() - j,
    {
        if let FactValue::Number(Number::Int(x)) = &a[j] {
            if *x == n {
                assert(int_of(a@[j as int]) == Some(n));
                return true;
            }
        }
        j = j + 1;
    }
    false
}

fn holds_all_strs(a: &Vec<FactValue>, ss: &Vec<String>) -> (r: bool)
    ensures
        r == has_all_strs(a@, ss@),
{
    let mut i: usize = 0;
    while i < ss.len()
        invariant
            i <= ss.len(),
            forall|k: int| 0 <= k < i ==> has_str(a@, (#[trigger] ss@[k])@),
        decreases ss.len() - i,
    {
        if !holds_str(a, &ss[i]) {
            return false;
        }
        i = i + 1;
    }
    true
}

fn holds_any_str(a: &Vec<FactValue>, ss: &Vec<String>) -> (r: bool)
    ensures
        r == has_any_str(a@, ss@),
{
    let mut i: usize = 0;
    while i < ss.len()
        invariant
            i <= ss.len(),
            forall|k: int| 0 <= k < i ==> !has_str(a@, (#[trigger] ss@[k])@),
        decreases ss.len() - i,
    {
        if holds_str(a, &ss[i]) {
            return true;
        }
        i = i + 1;
    }
    false
}

fn holds_all_ints(a: &Vec<FactValue>, ns: &Vec<i64>) -> (r: bool)
    ensures
        r == has_all_ints(a@, ns@),
{
    let mut i: usize = 0;
    while i < ns.len()
        invariant
            i <= ns.len(),
            forall|k: int| 0 <= k < i ==> has_int(a@, #[trigger] ns@[k]),
        decreases ns.len() - i,
    {
        if !holds_int(a, ns[i]) {
            return false;
        }
        i = i + 1;
    }
    true
}

fn holds_any_int(a: &Vec<FactValue>, ns: &Vec<i64>) -> (r: bool)
    ensures
        r == has_any_int(a@, ns@),
{
    let mut i: usize = 0;
    while i < ns.len()
        invariant
            i <= ns.len(),
            forall|k: int| 0 <= k < i ==> !has_int(a@, #[trigger] ns@[k]),
        decreases ns.len() - i,
    {
        if holds_int(a, ns[i]) {
            return true;
        }
        i = i + 1;
    }
    false
}

fn listed_str(ss: &Vec<String>, x: &String) -> (r: bool)
    ensures
        r == str_listed(ss@, x@),
{
    let mut i: usize = 0;
    while i < ss.len()
        invariant
            i <= ss.len(),
            forall|k: int| 0 <= k < i ==> (#[trigger] ss@[k])@ != x@,
        decreases ss.len() - i,
    {
        if ss[i].eq(x) {
            return true;
        }
        i = i + 1;
    }
    false
}

fn listed_int(ns: &Vec<i64>, x: i64) -> (r: bool)
    ensures
        r == ns@.contains(x),
{
    let mut i: usize = 0;
    while i < ns.len()
        invariant
            i <= ns.len(),
            forall|k: int| 0 <= k < i ==> ns@[k] != x,
        decreases ns.len() - i,
    {
        if ns[i] == x {
            assert(ns@[i as int] == x);
            return true;
        }
        i = i + 1;
    }
    false
}

impl Constraint {
    /// Tests the constraint on a fact value: `Met` or `NotMet`, and `NotMet`
    /// whenever the value is not of the kind the operator reads.
    pub fn check_value(&self, v: &FactValue) -> (r: Status)
        ensures
            r == constraint_status(*self, *v),
    {
        match self {
            Constraint::StringEquals(s) => match v {
                FactValue::String(x) => met_when(x.eq(s)),
                _ => Status::NotMet,
            },
            Constraint::StringNotEquals(s) => match v {
                FactValue::String(x) => met_when(!x.eq(s)),
                _ => Status::NotMet,
            },
            Constraint::StringContains(s) => match v {
                FactValue::Array(a) => met_when(holds_str(a, s)),
                _ => Status::NotMet,
            },
            Constraint::StringContainsAll(ss) => match v {
                FactValue::Array(a) => met_when(holds_all_strs(a, ss)),
                _ => Status::NotMet,
            },
            Constraint::StringContainsAny(ss) => match v {
                FactValue::Array(a) => met_when(holds_any_str(a, ss)),
                _ => Status::NotMet,
            },
            Constraint::StringDoesNotContain(s) => match v {
                FactValue::Array(a) => met_when(!holds_str(a, s)),
                _ => Status::NotMet,
            },
            Constraint::StringDoesNotContainAny(ss) => match v {
                FactValue::Array(a) => met_when(!holds_any_str(a, ss)),
                _ => Status::NotMet,
            },
            Constraint::StringIn(ss) => match v {
                FactValue::String(x) => met_when(listed_str(ss, x)),
                _ => Status::NotMet,
            },
            Constraint::StringNotIn(ss) => match v {
                FactValue::String(x) => met_when(!listed_str(ss, x)),
                _ => Status::NotMet,
            },
            Constraint::IntEquals(n) => match v {
                FactValue::Number(Number::Int(x)) => met_when(*x == *n),
                _ => Status::NotMet,
            },
            Constraint::IntNotEquals(n) => match v {
                FactValue::Number(Number::Int(x)) => met_when(*x != *n),
                _ => Status::NotMet,
            },
            Constraint::IntContains(n) => match v {
                FactValue::Array(a) => met_when(holds_int(a, *n)),
                _ => Status::NotMet,
            },
            Constraint::IntContainsAll(ns) => match v {
                FactValue::Array(a) => met_when(holds_all_ints(a, ns)),
                _ => Status::NotMet,
            },
            Constraint::IntContainsAny(ns) => match v {
                FactValue::Array(a) => met_when(holds_any_int(a, ns)),
                _ => Status::NotMet,
            },
            Constraint::IntDoesNotContain(n) => match v {
                FactValue::Array(a) => met_when(!holds_int(a, *n)),
                _ => Status::NotMet,
            },
            Constraint::IntDoesNotContainAny(ns) => match v {
                FactValue::Array(a) => met_when(!holds_any_int(a, ns)),
                _ => Status::NotMet,
            },
            Constraint::IntIn(ns) => match v {
                FactValue::Number(Number::Int(x)) => met_when(listed_int(ns, *x)),
                _ => Status::NotMet,
            },
            Constraint::IntNotIn(ns) => match v {
                FactValue::Number(Number::Int(x)) => met_when(!listed_int(ns, *x)),
                _ => Status::NotMet,
            },
            Constraint::IntInRange(lo, hi) => match v {
                FactValue::Number(Number::Int(x)) => met_when(*lo <= *x && *x <= *hi),
                _ => Status::NotMet,
            },
            Constraint::IntNotInRange(lo, hi) => match v {
                FactValue::Number(Number::Int(x)) => met_when(!(*lo <= *x && *x <= *hi)),
                _ => Status::NotMet,
            },
            Constraint::IntLessThan(n) => match v {
                FactValue::Number(Number::Int(x)) => met_when(*x < *n),
                _ => Status::NotMet,
            },
            Constraint::IntLessThanInclusive(n) => match v {
                FactValue::Number(Number::Int(x)) => met_when(*x <= *n),
                _ => Status::NotMet,
            },
            Constraint::IntGreaterThan(n) => match v {
                FactValue::Number(Number::Int(x)) => met_when(*x > *n),
                _ => Status::NotMet,
            },
            Constraint::IntGreaterThanInclusive(n) => match v {
                FactValue::Number(Number::Int(x)) => met_when(*x >= *n),
                _ => Status::NotMet,
            },
            Constraint::BoolEquals(b) => match v {
                FactValue::Bool(x) => met_when(*x == *b),
                _ => Status::NotMet,
            },
        }
    }
}

} // verus!
