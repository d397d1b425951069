use json_rules_engine::{
    and, at_least, bool_equals, int_equals, int_in_range, or, string_equals, FactValue, Number,
    Status,
};

fn text(s: &str) -> FactValue {
    FactValue::String(s.to_string())
}

fn num(n: i64) -> FactValue {
    FactValue::Number(Number::Int(n))
}

fn object(entries: Vec<(&str, FactValue)>) -> FactValue {
    FactValue::Object(entries.into_iter().map(|(k, v)| (k.to_string(), v)).collect())
}

fn get_test_data() -> FactValue {
    object(vec![("foo", num(1)), ("bar", text("bar")), ("baz", FactValue::Bool(true))])
}

#[test]
fn and_rules() {
    let map = get_test_data();
    // Met & Met == Met
    let mut root = and(vec![int_equals("foo", 1), string_equals("bar", "bar")]);
    let mut res = root.check_value(&map);
    assert!(res.status == Status::Met);

    // Met & NotMet == NotMet
    root = and(vec![int_equals("foo", 2), string_equals("bar", "bar")]);
    res = root.check_value(&map);
    assert!(res.status == Status::NotMet);

    // Met & Unknown == Unknown
    root = and(vec![int_equals("quux", 2), string_equals("bar", "bar")]);
    res = root.check_value(&map);
    assert!(res.status == Status::Unknown);

    // NotMet & Unknown == NotMet
    root = and(vec![int_equals("quux", 2), string_equals("bar", "baz")]);
    res = root.check_value(&map);
    assert!(res.status == Status::NotMet);

    // Unknown & Unknown == Unknown
    root = and(vec![int_equals("quux", 2), string_equals("fizz", "bar")]);
    res = root.check_value(&map);
    assert!(res.status == Status::Unknown);
}

#[test]
fn or_rules() {
    let map = get_test_data();
    // Met | Met == Met
    let mut root = or(vec![int_equals("foo", 1), string_equals("bar", "bar")]);
    let mut res = root.check_value(&map);
    assert!(res.status == Status::Met);

    // Met | NotMet == Met
    root = or(vec![int_equals("foo", 2), string_equals("bar", "bar")]);
    res = root.check_value(&map);
    assert!(res.status == Status::Met);

    // Met | Unknown == Met
    root = or(vec![int_equals("quux", 2), string_equals("bar", "bar")]);
    res = root.check_value(&map);
    assert!(res.status == Status::Met);

    // NotMet | Unknown == Unknown
    root = or(vec![int_equals("quux", 2), string_equals("bar", "baz")]);
    res = root.check_value(&map);
    assert!(res.status == Status::Unknown);

    // Unknown | Unknown == Unknown
    root = or(vec![int_equals("quux", 2), string_equals("fizz", "bar")]);
    res = root.check_value(&map);
    assert!(res.status == Status::Unknown);
}

#[test]
fn n_of_rules() {
    let map = get_test_data();
    // 2 Met, 1 NotMet == Met
    let mut root = at_least(
        2,
        vec![int_equals("foo", 1), string_equals("bar", "bar"), bool_equals("baz", false)],
    );
    let mut res = root.check_value(&map);
    assert!(res.status == Status::Met);

    // 1 Met, 1 NotMet, 1 Unknown == NotMet
    root = at_least(
        2,
        vec![int_equals("foo", 1), string_equals("quux", "bar"), bool_equals("baz", false)],
    );
    res = root.check_value(&map);
    assert!(res.status == Status::NotMet);

    // 2 NotMet, 1 Unknown == Unknown
    root = at_least(
        2,
        vec![int_equals("foo", 2), string_equals("quux", "baz"), bool_equals("baz", false)],
    );
    res = root.check_value(&map);
    assert!(res.status == Status::NotMet);
}

#[test]
fn string_equals_rule() {
    let map = get_test_data();
    let mut rule = string_equals("bar", "bar");
    let mut res = rule.check_value(&map);
    assert!(res.status == Status::Met);

    rule = string_equals("bar", "baz");
    res = rule.check_value(&map);
    assert!(res.status == Status::NotMet);
}

#[test]
fn int_equals_rule() {
    let map = get_test_data();
    let mut rule = int_equals("foo", 1);
    let mut res = rule.check_value(&map);
    assert!(res.status == Status::Met);

    rule = int_equals("foo", 2);
    res = rule.check_value(&map);
    assert!(res.status == Status::NotMet);

    // Values not convertible to int should be NotMet
    rule = int_equals("bar", 2);
    res = rule.check_value(&map);
    assert!(res.status == Status::NotMet);
}

#[test]
fn int_range_rule() {
    let map = get_test_data();
    let mut rule = int_in_range("foo", 1, 3);
    let mut res = rule.check_value(&map);
    assert!(res.status == Status::Met);

    rule = int_in_range("foo", 2, 3);
    res = rule.check_value(&map);
    assert!(res.status == Status::NotMet);

    // Values not convertible to int should be NotMet
    rule = int_in_range("bar", 1, 3);
    res = rule.check_value(&map);
    assert!(res.status == Status::NotMet);
}

#[test]
fn boolean_rule() {
    let map = get_test_data();
    let mut rule = bool_equals("baz", true);
    let mut res = rule.check_value(&map);
    assert!(res.status == Status::Met);

    rule = bool_equals("baz", false);
    res = rule.check_value(&map);
    assert!(res.status == Status::NotMet);

    rule = bool_equals("bar", true);
    res = rule.check_value(&map);
    assert!(res.status == Status::NotMet);

    rule = bool_equals("bar", false);
    res = rule.check_value(&map);
    assert!(res.status == Status::NotMet);

    let map = object(vec![
        ("foo", num(1)),
        ("bar", text("bar")),
        ("baz", FactValue::Bool(true)),
        ("quux", text("tRuE")),
    ]);
    rule = bool_equals("quux", true);
    res = rule.check_value(&map);
    assert!(res.status == Status::NotMet);
}

#[test]
fn algebra_concrete_cases() {
    assert_eq!(Status::Met.bitand(Status::Met), Status::Met);
    assert_eq!(Status::NotMet.bitand(Status::Unknown), Status::NotMet);
    assert_eq!(Status::Met.bitand(Status::Unknown), Status::Unknown);
    assert_eq!(Status::NotMet.bitor(Status::Unknown), Status::Unknown);
    assert_eq!(Status::Met.bitor(Status::NotMet), Status::Met);
    let all = [Status::Met, Status::NotMet, Status::Unknown];
    for a in all {
        assert_eq!(a.not().not(), a);
        for b in all {
            assert_eq!(a.bitand(b), b.bitand(a));
            assert_eq!(a.bitor(b), b.bitor(a));
        }
    }
    assert_eq!(Status::Unknown.not(), Status::Unknown);
    assert_eq!(Status::Met.not(), Status::NotMet);
}

#[test]
fn algebra_operators() {
    assert_eq!(Status::Met & Status::Met, Status::Met);
    assert_eq!(Status::NotMet & Status::Unknown, Status::NotMet);
    assert_eq!(Status::Met & Status::Unknown, Status::Unknown);
    assert_eq!(Status::NotMet | Status::Unknown, Status::Unknown);
    assert_eq!(Status::Met | Status::NotMet, Status::Met);
    assert_eq!(Status::NotMet | Status::NotMet, Status::NotMet);
    assert_eq!(!Status::NotMet, Status::Met);
    assert_eq!(!!Status::Unknown, Status::Unknown);
}

#[test]
fn at_least_edges() {
    let map = get_test_data();
    let res = at_least(0, vec![]).check_value(&map);
    assert_eq!(res.status, Status::Met);
    assert!(res.children.is_empty());
    assert_eq!(res.name, "At least meet 0 of 0");

    let res = at_least(3, vec![int_equals("foo", 1), string_equals("bar", "bar")]).check_value(&map);
    assert_eq!(res.status, Status::NotMet);
    assert_eq!(res.name, "At least meet 3 of 2");
    assert_eq!(res.children.len(), 2);
    assert_eq!(res.children[0].status, Status::Met);

    let res = at_least(12, vec![]).check_value(&map);
    assert_eq!(res.name, "At least meet 12 of 0");
    assert_eq!(res.status, Status::NotMet);
}

#[test]
fn result_tree_is_complete() {
    let map = get_test_data();
    let root = and(vec![
        int_equals("foo", 2),
        or(vec![string_equals("bar", "bar"), int_equals("missing", 1)]),
    ]);
    let res = root.check_value(&map);
    assert_eq!(res.name, "And");
    assert_eq!(res.status, Status::NotMet);
    assert_eq!(res.children.len(), 2);
    assert_eq!(res.children[0].name, "foo");
    assert_eq!(res.children[0].status, Status::NotMet);
    let inner = &res.children[1];
    assert_eq!(inner.name, "Or");
    assert_eq!(inner.status, Status::Met);
    assert_eq!(inner.children.len(), 2);
    assert_eq!(inner.children[1].name, "missing");
    assert_eq!(inner.children[1].status, Status::Unknown);
}

#[test]
fn empty_and_or() {
    let map = get_test_data();
    assert_eq!(and(vec![]).check_value(&map).status, Status::Met);
    assert_eq!(or(vec![]).check_value(&map).status, Status::NotMet);
}
