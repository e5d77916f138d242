use env_source::env::{Environment, RawEntry};
use env_source::result_map::ResultMap;
use env_source::text::parse_boolean;
use env_source::value::{Value, ValueKind};

fn entry(name: &str, value: &str) -> RawEntry {
    RawEntry {
        name: name.to_string(),
        value: value.to_string(),
        float_bits: value.parse::<f64>().ok().map(|x| x.to_bits()),
    }
}

fn collect(env: &Environment, vars: &[(&str, &str)]) -> ResultMap {
    let snapshot: Vec<RawEntry> = vars.iter().map(|(n, v)| entry(n, v)).collect();
    match env.collect_from(&snapshot) {
        Ok(m) => m,
        Err(e) => panic!("collecting failed: {:?}", e),
    }
}

fn sorted(m: ResultMap) -> Vec<(String, ValueKind)> {
    let mut v: Vec<(String, ValueKind)> =
        m.into_bindings().into_iter().map(|(k, v)| (k, v.kind)).collect();
    v.sort_by(|a, b| a.0.cmp(&b.0));
    v
}

fn text(s: &str) -> ValueKind {
    ValueKind::String(s.to_string())
}

#[test]
fn scenario_prefix_separator_and_parsing() {
    let env = Environment::with_prefix("config").separator("_").try_parsing(true);
    let m = collect(
        &env,
        &[("CONFIG_DEBUG", "true"), ("CONFIG_PORT", "8080"), ("OTHER", "ignored")],
    );
    assert_eq!(m.len(), 2);
    assert_eq!(m.get("debug").map(|v| &v.kind), Some(&ValueKind::Boolean(true)));
    assert_eq!(m.get("port").map(|v| &v.kind), Some(&ValueKind::Integer(8080)));
    assert!(!m.contains_key("other"));
    assert!(!m.contains_key("OTHER"));
    assert_eq!(
        sorted(m),
        vec![
            ("debug".to_string(), ValueKind::Boolean(true)),
            ("port".to_string(), ValueKind::Integer(8080)),
        ]
    );
}

#[test]
fn every_value_is_tagged_with_the_environment() {
    let m = collect(&Environment::new(), &[("A", "1"), ("B", "")]);
    assert_eq!(
        m.get("a"),
        Some(&Value { origin: Some("the environment".to_string()), kind: text("1") })
    );
    assert_eq!(m.get("b").and_then(|v| v.origin.clone()), Some("the environment".to_string()));
}

#[test]
fn no_prefix_reads_everything_as_strings() {
    let m = collect(&Environment::new(), &[("HOME", "/root"), ("Port", "80"), ("flag", "true")]);
    assert_eq!(
        sorted(m),
        vec![
            ("flag".to_string(), text("true")),
            ("home".to_string(), text("/root")),
            ("port".to_string(), text("80")),
        ]
    );
}

#[test]
fn prefix_keeps_matching_names_in_any_case() {
    let env = Environment::with_prefix("P");
    let m = collect(&env, &[("P_FOO", "a"), ("OTHERVAR", "b")]);
    assert_eq!(sorted(m), vec![("foo".to_string(), text("a"))]);
    let m = collect(&env, &[("p_Foo", "a"), ("OTHERVAR", "b")]);
    assert_eq!(sorted(m), vec![("foo".to_string(), text("a"))]);
}

#[test]
fn collecting_twice_gives_the_same_map() {
    let env = Environment::with_prefix("app").separator("_").try_parsing(true);
    let vars = [("APP_A_B", "1"), ("APP_C", "x"), ("APP_D", "2.5"), ("E", "f")];
    let first = sorted(collect(&env, &vars));
    let second = sorted(collect(&env, &vars));
    assert_eq!(first, second);
    assert_eq!(first.len(), 3);
}

#[test]
fn empty_values_are_left_out_when_asked() {
    let vars = [("A", ""), ("B", "x"), ("P_C", ""), ("P_D", "1")];
    let m = collect(&Environment::new().ignore_empty(true), &vars);
    assert_eq!(
        sorted(m),
        vec![("b".to_string(), text("x")), ("p_d".to_string(), text("1"))]
    );
}

#[test]
fn empty_values_are_kept_by_default() {
    let m = collect(&Environment::new(), &[("A", ""), ("B", "x")]);
    assert_eq!(sorted(m), vec![("a".to_string(), text("")), ("b".to_string(), text("x"))]);
    let m = collect(&Environment::new().try_parsing(true), &[("A", "")]);
    assert_eq!(sorted(m), vec![("a".to_string(), text(""))]);
}

#[test]
fn empty_filter_holds_with_prefix_and_parsing() {
    let env = Environment::with_prefix("p").separator("_").try_parsing(true).ignore_empty(true);
    let m = collect(&env, &[("P_A", ""), ("P_B", "7"), ("Q_C", ""), ("Q_D", "8")]);
    assert_eq!(sorted(m), vec![("b".to_string(), ValueKind::Integer(7))]);
}

#[test]
fn both_filters_apply_whatever_the_other_decides() {
    let with = Environment::with_prefix("p").ignore_empty(true);
    let without = Environment::with_prefix("p");
    let vars = [("OUTSIDE", ""), ("OUTSIDE2", "x"), ("P_IN", ""), ("P_IN2", "y")];
    assert_eq!(sorted(collect(&with, &vars)), vec![("in2".to_string(), text("y"))]);
    assert_eq!(
        sorted(collect(&without, &vars)),
        vec![("in".to_string(), text("")), ("in2".to_string(), text("y"))]
    );
}

#[test]
fn later_variable_wins_under_the_same_key() {
    let m = collect(&Environment::new(), &[("Key", "first"), ("KEY", "second"), ("X", "y")]);
    assert_eq!(m.len(), 2);
    assert_eq!(m.get("key").map(|v| &v.kind), Some(&text("second")));
}

#[test]
fn name_equal_to_the_pattern_is_kept_under_the_empty_key() {
    let m = collect(&Environment::with_prefix("config"), &[("CONFIG_", "v")]);
    assert_eq!(sorted(m), vec![(String::new(), text("v"))]);
}

#[test]
fn empty_snapshot_gives_the_empty_map() {
    let m = collect(&Environment::with_prefix("x").try_parsing(true), &[]);
    assert!(m.is_empty());
    assert_eq!(m.len(), 0);
}

#[test]
fn floats_come_through_collection() {
    let env = Environment::new().try_parsing(true);
    let m = collect(&env, &[("PI", "3.14"), ("N", "5")]);
    assert_eq!(m.get("pi").map(|v| &v.kind), Some(&ValueKind::Float(3.14f64.to_bits())));
    assert_eq!(m.get("n").map(|v| &v.kind), Some(&ValueKind::Integer(5)));
}

#[test]
fn result_map_binds_each_key_once() {
    let mut m = ResultMap::new();
    assert!(m.is_empty());
    m.insert("a".to_string(), Value::new(None, ValueKind::Integer(1)));
    m.insert("b".to_string(), Value::new(None, ValueKind::Integer(2)));
    m.insert("a".to_string(), Value::new(None, ValueKind::Integer(3)));
    assert_eq!(m.len(), 2);
    assert!(!m.is_empty());
    assert!(m.contains_key("a"));
    assert!(!m.contains_key("c"));
    assert_eq!(m.get("a").map(|v| &v.kind), Some(&ValueKind::Integer(3)));
    assert_eq!(m.get("b").map(|v| &v.kind), Some(&ValueKind::Integer(2)));
    assert_eq!(m.get("c"), None);
    assert_eq!(
        sorted(m),
        vec![("a".to_string(), ValueKind::Integer(3)), ("b".to_string(), ValueKind::Integer(2))]
    );
}

#[test]
fn boolean_literals_are_exact() {
    assert_eq!(parse_boolean("true"), Some(true));
    assert_eq!(parse_boolean("false"), Some(false));
    assert_eq!(parse_boolean("True"), None);
    assert_eq!(parse_boolean(""), None);
    assert_eq!(parse_boolean("1"), None);
}
