use json_rules_engine::{
    int_contains, int_does_not_contain, int_equals, int_greater_than, int_greater_than_inclusive,
    int_in, int_less_than, int_less_than_inclusive, int_not_equals, int_not_in,
    int_not_in_range, string_contains, string_does_not_contains, string_equals, string_in,
    string_not_equals, string_not_in, Condition, Constraint, FactValue, Number, Status,
};
use json_rules_engine::facts::{parse_index, resolve};

fn text(s: &str) -> FactValue {
    FactValue::String(s.to_string())
}

fn num(n: i64) -> FactValue {
    FactValue::Number(Number::Int(n))
}

fn object(entries: Vec<(&str, FactValue)>) -> FactValue {
    FactValue::Object(entries.into_iter().map(|(k, v)| (k.to_string(), v)).collect())
}

fn chars(s: &str) -> Vec<char> {
    s.chars().collect()
}

fn facts() -> FactValue {
    object(vec![
        ("name", text("A")),
        ("age", num(24)),
        ("big", FactValue::Number(Number::Text("18446744073709551615".to_string()))),
        ("ratio", FactValue::Number(Number::Text("1.5".to_string()))),
        ("tags", FactValue::Array(vec![text("x"), num(3), text("y")])),
        ("nums", FactValue::Array(vec![num(1), num(2), text("3")])),
        ("flag", FactValue::Bool(false)),
        ("none", FactValue::Null),
        (
            "person",
            object(vec![
                ("name", text("B")),
                ("a/b", text("slash")),
                ("m~n", text("tilde")),
                ("list", FactValue::Array(vec![num(10), num(20)])),
            ]),
        ),
    ])
}

fn status(c: Condition) -> Status {
    c.check_value(&facts()).status
}

fn leaf(field: &str, k: Constraint) -> Condition {
    Condition::Condition { field: field.to_string(), constraint: k }
}

#[test]
fn string_operators() {
    assert_eq!(status(string_equals("name", "A")), Status::Met);
    assert_eq!(status(string_not_equals("name", "A")), Status::NotMet);
    assert_eq!(status(string_not_equals("name", "B")), Status::Met);
    assert_eq!(status(string_in("name", vec!["B", "A"])), Status::Met);
    assert_eq!(status(string_in("name", vec![])), Status::NotMet);
    assert_eq!(status(string_not_in("name", vec!["B", "C"])), Status::Met);
    assert_eq!(status(string_not_in("name", vec!["A"])), Status::NotMet);
    assert_eq!(status(string_contains("tags", "y")), Status::Met);
    assert_eq!(status(string_contains("tags", "3")), Status::NotMet);
    assert_eq!(status(string_does_not_contains("tags", "z")), Status::Met);
    assert_eq!(status(string_does_not_contains("tags", "x")), Status::NotMet);
    let all = |v: Vec<&str>| Constraint::StringContainsAll(v.into_iter().map(String::from).collect());
    let any = |v: Vec<&str>| Constraint::StringContainsAny(v.into_iter().map(String::from).collect());
    let none = |v: Vec<&str>| {
        Constraint::StringDoesNotContainAny(v.into_iter().map(String::from).collect())
    };
    assert_eq!(status(leaf("tags", all(vec!["x", "y"]))), Status::Met);
    assert_eq!(status(leaf("tags", all(vec!["x", "z"]))), Status::NotMet);
    assert_eq!(status(leaf("tags", all(vec![]))), Status::Met);
    assert_eq!(status(leaf("tags", any(vec!["z", "y"]))), Status::Met);
    assert_eq!(status(leaf("tags", any(vec![]))), Status::NotMet);
    assert_eq!(status(leaf("tags", none(vec!["z", "w"]))), Status::Met);
    assert_eq!(status(leaf("tags", none(vec!["z", "x"]))), Status::NotMet);
}

#[test]
fn int_operators() {
    assert_eq!(status(int_equals("age", 24)), Status::Met);
    assert_eq!(status(int_not_equals("age", 24)), Status::NotMet);
    assert_eq!(status(int_in("age", vec![1, 24])), Status::Met);
    assert_eq!(status(int_not_in("age", vec![1, 24])), Status::NotMet);
    assert_eq!(status(int_not_in_range("age", 20, 25)), Status::NotMet);
    assert_eq!(status(int_not_in_range("age", 25, 30)), Status::Met);
    assert_eq!(status(int_less_than("age", 24)), Status::NotMet);
    assert_eq!(status(int_less_than_inclusive("age", 24)), Status::Met);
    assert_eq!(status(int_greater_than("age", 23)), Status::Met);
    assert_eq!(status(int_greater_than_inclusive("age", 25)), Status::NotMet);
    assert_eq!(status(int_contains("nums", 2)), Status::Met);
    assert_eq!(status(int_contains("nums", 3)), Status::NotMet);
    assert_eq!(status(int_does_not_contain("nums", 3)), Status::Met);
    assert_eq!(status(leaf("nums", Constraint::IntContainsAll(vec![1, 2]))), Status::Met);
    assert_eq!(status(leaf("nums", Constraint::IntContainsAll(vec![1, 3]))), Status::NotMet);
    assert_eq!(status(leaf("nums", Constraint::IntContainsAny(vec![7, 2]))), Status::Met);
    assert_eq!(status(leaf("nums", Constraint::IntDoesNotContainAny(vec![7, 8]))), Status::Met);
    assert_eq!(status(leaf("nums", Constraint::IntDoesNotContainAny(vec![7, 1]))), Status::NotMet);
}

#[test]
fn absent_field_is_unknown() {
    assert_eq!(status(string_equals("nobody", "A")), Status::Unknown);
    assert_eq!(status(int_less_than("person/age", 3)), Status::Unknown);
    assert_eq!(status(string_does_not_contains("missing", "x")), Status::Unknown);
    assert_eq!(status(int_not_in("person/list/2", vec![])), Status::Unknown);
}

#[test]
fn wrong_shape_is_not_met() {
    assert_eq!(status(string_equals("age", "24")), Status::NotMet);
    assert_eq!(status(string_not_equals("age", "24")), Status::NotMet);
    assert_eq!(status(int_equals("name", 1)), Status::NotMet);
    assert_eq!(status(int_not_equals("name", 1)), Status::NotMet);
    assert_eq!(status(int_equals("big", 1)), Status::NotMet);
    assert_eq!(status(int_not_in_range("ratio", 0, 1)), Status::NotMet);
    assert_eq!(status(string_contains("name", "A")), Status::NotMet);
    assert_eq!(status(string_does_not_contains("name", "Z")), Status::NotMet);
    assert_eq!(status(int_does_not_contain("age", 3)), Status::NotMet);
    assert_eq!(status(int_equals("tags", 3)), Status::NotMet);
    assert_eq!(status(int_equals("none", 0)), Status::NotMet);
    assert_eq!(status(leaf("flag", Constraint::BoolEquals(false))), Status::Met);
    assert_eq!(status(leaf("age", Constraint::BoolEquals(false))), Status::NotMet);
}

#[test]
fn pointer_paths() {
    let f = facts();
    assert_eq!(status(string_equals("person/name", "B")), Status::Met);
    assert_eq!(status(string_equals("/person/name", "B")), Status::Met);
    assert_eq!(status(string_equals("person/a~1b", "slash")), Status::Met);
    assert_eq!(status(string_equals("person/m~0n", "tilde")), Status::Met);
    assert_eq!(status(int_equals("person/list/1", 20)), Status::Met);
    assert_eq!(status(int_equals("person/list/01", 20)), Status::Unknown);
    assert_eq!(status(int_equals("person/list/+1", 20)), Status::Unknown);
    assert!(resolve(&f, "").is_none());
    assert!(resolve(&f, "/").is_none());
    assert!(matches!(resolve(&f, "age"), Some(FactValue::Number(Number::Int(24)))));
    assert!(resolve(&f, "age/0").is_none());
}

#[test]
fn array_index_tokens() {
    assert_eq!(parse_index(&chars("0")), Some(0));
    assert_eq!(parse_index(&chars("12")), Some(12));
    assert_eq!(parse_index(&chars("01")), None);
    assert_eq!(parse_index(&chars("+1")), None);
    assert_eq!(parse_index(&chars("-1")), None);
    assert_eq!(parse_index(&chars("")), None);
    assert_eq!(parse_index(&chars("1a")), None);
    assert_eq!(parse_index(&chars("99999999999999999999999")), None);
}
