//! A rules engine: condition trees over a tree of facts, evaluated in
//! three-valued logic, with notification events that fire for satisfied rules
//! and are coalesced by group within a time window.

pub mod builders;
pub mod coalescence;
pub mod condition;
pub mod constraint;
pub mod engine;
pub mod event;
pub mod facts;
pub mod status;
pub mod template;

pub use builders::{
    and,
    or,
    at_least,
    string_equals,
    string_not_equals,
    string_contains,
    string_does_not_contains,
    string_in,
    string_not_in,
    int_equals,
    int_not_equals,
    int_contains,
    int_does_not_contain,
    int_less_than,
    int_less_than_inclusive,
    int_greater_than,
    int_greater_than_inclusive,
    int_in,
    int_not_in,
    int_in_range,
    int_not_in_range,
    bool_equals,
};
pub use coalescence::{CoalescenceEntry, Coalescences};
pub use condition::{Condition, ConditionResult};
pub use constraint::Constraint;
pub use engine::{Engine, Rule, RuleResult};
pub use event::{CoalescenceEvent, Event, EventParams};
pub use facts::{FactValue, Number};
pub use status::Status;
