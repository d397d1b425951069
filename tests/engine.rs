use json_rules_engine::event::{render_text, rendered_or};
use json_rules_engine::template::template_is_safe;
use json_rules_engine::{
    and, int_in_range, string_equals, CoalescenceEvent, Coalescences, Engine, Event,
    EventParams, FactValue, Number, Rule, Status,
};

fn text(s: &str) -> FactValue {
    FactValue::String(s.to_string())
}

fn num(n: i64) -> FactValue {
    FactValue::Number(Number::Int(n))
}

fn object(entries: Vec<(&str, FactValue)>) -> FactValue {
    FactValue::Object(entries.into_iter().map(|(k, v)| (k.to_string(), v)).collect())
}

fn message(text: &str) -> Event {
    Event::Message(EventParams {
        ty: "info".to_string(),
        title: "title".to_string(),
        message: text.to_string(),
    })
}

fn event(text: &str, group: Option<&str>, secs: Option<u64>) -> CoalescenceEvent {
    CoalescenceEvent {
        coalescence: secs,
        coalescence_group: group.map(|g| g.to_string()),
        event: message(text),
    }
}

fn message_text(e: &CoalescenceEvent) -> &str {
    match &e.event {
        Event::Message(p) => &p.message,
        Event::PostToCallbackUrl { params, .. } => &params.message,
        Event::EmailNotification { params, .. } => &params.message,
    }
}

fn person_rule(events: Vec<CoalescenceEvent>) -> Rule {
    Rule {
        conditions: and(vec![string_equals("name", "A"), int_in_range("age", 20, 25)]),
        events,
    }
}

#[test]
fn basic_met() {
    let mut engine = Engine::new();
    engine.add_rule(Rule {
        conditions: and(vec![
            string_equals("name", "Cheng JIANG"),
            int_in_range("age", 20, 25),
            string_equals("action", "coding in rust"),
        ]),
        events: vec![],
    });
    let facts = object(vec![
        ("name", text("Cheng JIANG")),
        ("age", num(24)),
        ("action", text("coding in rust")),
    ]);
    let rule_results = engine.run(&facts, 0);
    assert_eq!(rule_results[0].condition_result.status, Status::Met)
}

#[test]
fn basic_not_met() {
    let mut engine = Engine::new();
    engine.add_rule(Rule { conditions: and(vec![int_in_range("age", 20, 25)]), events: vec![] });
    let facts = object(vec![
        ("name", text("Cheng JIANG")),
        ("age", num(18)),
        ("action", text("coding in rust")),
    ]);
    let rule_results = engine.run(&facts, 0);
    assert_eq!(rule_results.len(), 0);
}

#[test]
fn test_a_pointer() {
    let mut engine = Engine::new();
    engine.add_rule(Rule {
        conditions: and(vec![
            string_equals("person/name", "Cheng JIANG"),
            int_in_range("person/age", 20, 25),
        ]),
        events: vec![],
    });
    let facts = object(vec![(
        "person",
        object(vec![("name", text("Cheng JIANG")), ("age", num(24))]),
    )]);
    let rule_results = engine.run(&facts, 0);
    assert_eq!(rule_results[0].condition_result.status, Status::Met)
}

#[test]
fn end_to_end_met_fires_event() {
    let mut engine = Engine::new();
    engine.add_rule(person_rule(vec![event("hello", None, None)]));
    let facts = object(vec![("name", text("A")), ("age", num(24))]);
    let results = engine.run(&facts, 0);
    assert_eq!(results.len(), 1);
    assert_eq!(results[0].condition_result.status, Status::Met);
    assert_eq!(results[0].events.len(), 1);
    assert_eq!(message_text(&results[0].events[0]), "hello");
}

#[test]
fn end_to_end_not_met_is_dropped() {
    let mut engine = Engine::new();
    engine.add_rule(person_rule(vec![event("hello", None, None)]));
    let facts = object(vec![("age", num(18))]);
    assert_eq!(engine.run(&facts, 0).len(), 0);
    // Unknown roots are dropped as well.
    let facts = object(vec![("age", num(24))]);
    assert_eq!(engine.run(&facts, 0).len(), 0);
}

#[test]
fn results_keep_registration_order() {
    let mut engine = Engine::new();
    engine.add_rules(vec![
        Rule { conditions: string_equals("name", "A"), events: vec![event("first", None, None)] },
        Rule { conditions: string_equals("name", "B"), events: vec![event("never", None, None)] },
        Rule { conditions: int_in_range("age", 0, 99), events: vec![event("third", None, None)] },
    ]);
    assert_eq!(engine.rules().len(), 3);
    let facts = object(vec![("name", text("A")), ("age", num(24))]);
    let results = engine.run(&facts, 0);
    assert_eq!(results.len(), 2);
    assert_eq!(message_text(&results[0].events[0]), "first");
    assert_eq!(message_text(&results[1].events[0]), "third");
    engine.load_rules(vec![person_rule(vec![])]);
    assert_eq!(engine.rules().len(), 1);
    engine.clear();
    assert_eq!(engine.rules().len(), 0);
    assert_eq!(engine.run(&facts, 0).len(), 0);
}

#[test]
fn coalescence_window() {
    let mut engine = Engine::new();
    engine.add_rule(person_rule(vec![event("once", Some("g"), Some(5))]));
    let facts = object(vec![("name", text("A")), ("age", num(24))]);
    let fired = |results: &Vec<json_rules_engine::RuleResult>| results[0].events.len();
    assert_eq!(fired(&engine.run(&facts, 0)), 1);
    assert_eq!(fired(&engine.run(&facts, 3_000)), 0);
    assert_eq!(fired(&engine.run(&facts, 4_999)), 0);
    // The window is over only once the elapsed time exceeds it.
    assert_eq!(fired(&engine.run(&facts, 5_000)), 0);
    assert_eq!(fired(&engine.run(&facts, 5_001)), 1);
    assert_eq!(fired(&engine.run(&facts, 6_000)), 0);
    assert_eq!(engine.coalescences().entries().len(), 1);
    assert_eq!(engine.coalescences().entries()[0].start, 5_001);
    assert_eq!(engine.coalescences().entries()[0].ttl, 5);
    assert_eq!(engine.coalescences().entries()[0].group, "g");
}

#[test]
fn events_without_group_always_fire() {
    let mut engine = Engine::new();
    engine.add_rule(person_rule(vec![
        event("a", None, Some(5)),
        event("b", Some("g"), None),
        event("c", Some("h"), Some(60)),
        event("d", Some("h"), Some(60)),
    ]));
    let facts = object(vec![("name", text("A")), ("age", num(24))]);
    let results = engine.run(&facts, 0);
    let texts: Vec<&str> = results[0].events.iter().map(message_text).collect();
    assert_eq!(texts, vec!["a", "b", "c"]);
    let results = engine.run(&facts, 1_000);
    let texts: Vec<&str> = results[0].events.iter().map(message_text).collect();
    assert_eq!(texts, vec!["a", "b"]);
    // The first event of the shared group made the entry, with its own window.
    let entries = engine.coalescences().entries();
    assert_eq!(entries.len(), 1);
    assert_eq!((entries[0].group.as_str(), entries[0].start, entries[0].ttl), ("h", 0, 60));
}

#[test]
fn cache_sieve_and_prune() {
    let mut cache = Coalescences::new();
    let kept = cache.sieve(
        vec![event("1", Some("x"), Some(2)), event("2", Some("x"), Some(2)), event("3", None, None)],
        10_000,
    );
    assert_eq!(kept.len(), 2);
    assert_eq!(message_text(&kept[0]), "1");
    assert_eq!(message_text(&kept[1]), "3");
    assert!(cache.contains_group(&"x".to_string()));
    cache.prune(11_999);
    assert!(cache.contains_group(&"x".to_string()));
    cache.prune(12_000);
    assert!(cache.contains_group(&"x".to_string()));
    cache.prune(12_001);
    assert!(!cache.contains_group(&"x".to_string()));
    assert!(cache.let_through(&event("4", Some("x"), Some(2)), 12_001));
    assert!(!cache.let_through(&event("5", Some("x"), Some(2)), 12_002));
    assert_eq!(cache.entries().len(), 1);
    assert_eq!(cache.entries()[0].start, 12_001);
}

#[test]
fn rendering_substitutes_facts() {
    let mut engine = Engine::new();
    let mut callback = CoalescenceEvent {
        coalescence: Some(30),
        coalescence_group: Some("user-{{ name }}".to_string()),
        event: Event::PostToCallbackUrl {
            callback_url: "https://example.com/{{ name }}".to_string(),
            params: EventParams {
                ty: "info".to_string(),
                title: "Another person".to_string(),
                message: "Name: {{ name }}, Age: {{ age }}".to_string(),
            },
            app_data: "{}".to_string(),
        },
    };
    engine.add_rule(person_rule(vec![callback.clone()]));
    let facts = object(vec![("name", text("A")), ("age", num(24))]);
    let results = engine.run(&facts, 0);
    let fired = &results[0].events[0];
    assert_eq!(message_text(fired), "Name: A, Age: 24");
    assert_eq!(fired.coalescence_group.as_deref(), Some("user-A"));
    match &fired.event {
        Event::PostToCallbackUrl { callback_url, params, app_data } => {
            assert_eq!(callback_url, "https://example.com/A");
            assert_eq!(params.title, "Another person");
            assert_eq!(app_data, "{}");
        }
        _ => panic!("event kind changed"),
    }
    callback.coalescence_group = None;
    let rendered = callback.render(&facts);
    assert_eq!(rendered.coalescence_group, None);
    assert_eq!(rendered.coalescence, Some(30));
}

#[test]
fn rendering_failure_keeps_template() {
    let mut engine = Engine::new();
    engine.add_rule(person_rule(vec![event("Hi {{ name", None, None), event("{{#open}}x", None, None)]));
    let facts = object(vec![("name", text("A")), ("age", num(24))]);
    let results = engine.run(&facts, 0);
    assert_eq!(message_text(&results[0].events[0]), "Hi {{ name");
    assert_eq!(message_text(&results[0].events[1]), "{{#open}}x");
    assert_eq!(rendered_or(&"t".to_string(), None), "t");
    assert_eq!(rendered_or(&"t".to_string(), Some("u".to_string())), "u");
}

#[test]
fn rendering_never_panics_on_containers() {
    let facts = object(vec![
        ("name", text("A")),
        ("baz", FactValue::Bool(true)),
        ("list", FactValue::Array(vec![num(1)])),
        ("nested", object(vec![("x", num(1))])),
        ("nothing", FactValue::Null),
    ]);
    for template in ["{{ baz }}", "{{.}}", "{{list}}", "{{{nested}}}", "{{&baz}}", "{{ nested.x }}"] {
        assert_eq!(render_text(&template.to_string(), &facts), None);
    }
    assert_eq!(render_text(&"{{ nothing }}!".to_string(), &facts), Some("!".to_string()));
    assert_eq!(render_text(&"{{missing}}-{{name}}".to_string(), &facts), Some("-A".to_string()));

    let mut engine = Engine::new();
    engine.add_rule(Rule {
        conditions: string_equals("name", "A"),
        events: vec![event("flag {{ baz }}", None, None), event("{{.}}", None, None)],
    });
    let results = engine.run(&facts, 0);
    assert_eq!(message_text(&results[0].events[0]), "flag {{ baz }}");
    assert_eq!(message_text(&results[0].events[1]), "{{.}}");
}

#[test]
fn template_scan() {
    let facts = object(vec![("name", text("A")), ("flag", FactValue::Bool(false))]);
    assert!(template_is_safe("plain { text } without tags", &facts));
    assert!(template_is_safe("Name: {{ name }} and {{other-key_2}}", &facts));
    assert!(!template_is_safe("{{ flag }}", &facts));
    assert!(!template_is_safe("{{#name}}x{{/name}}", &facts));
    assert!(!template_is_safe("{{> partial}}", &facts));
    assert!(!template_is_safe("{{! comment }}", &facts));
    assert!(!template_is_safe("{{=<% %>=}}", &facts));
    assert!(!template_is_safe("{{ name", &facts));
    assert!(!template_is_safe("{{ na me }}", &facts));
    assert!(!template_is_safe("{{}}", &facts));
    assert!(!template_is_safe("{{ name }x", &facts));
    // A fact tree that is not an object gives every name nothing to show.
    assert!(template_is_safe("{{ flag }}", &FactValue::Bool(true)));
}
