use pencil::config::{Config, ConfigError};
use serde_json::{Number, Value};

#[test]
fn config_starts_empty() {
    let c = Config::new();
    assert_eq!(c.len(), 0);
    assert_eq!(c.get("DEBUG"), None);
}

#[test]
fn config_set_then_get() {
    let mut c = Config::new();
    c.set("DEBUG", Value::Bool(true));
    c.set("NAME", Value::String("app".to_string()));
    assert_eq!(c.get("DEBUG"), Some(&Value::Bool(true)));
    assert_eq!(c.get("NAME"), Some(&Value::String("app".to_string())));
    assert_eq!(c.get("debug"), None);
    assert_eq!(c.len(), 2);
}

#[test]
fn config_set_replaces() {
    let mut c = Config::new();
    c.set("PORT", Value::Number(Number::from(80)));
    c.set("HOST", Value::String("h".to_string()));
    c.set("PORT", Value::Number(Number::from(8080)));
    assert_eq!(c.len(), 2);
    assert_eq!(c.get("PORT"), Some(&Value::Number(Number::from(8080))));
    assert_eq!(c.get("HOST"), Some(&Value::String("h".to_string())));
}

#[test]
fn config_set_all_later_pairs_win() {
    let mut c = Config::new();
    c.set("A", Value::Null);
    c.set_all(&vec![
        ("B".to_string(), Value::Bool(false)),
        ("A".to_string(), Value::Bool(true)),
        ("B".to_string(), Value::Number(Number::from(3))),
    ]);
    assert_eq!(c.len(), 2);
    assert_eq!(c.get("A"), Some(&Value::Bool(true)));
    assert_eq!(c.get("B"), Some(&Value::Number(Number::from(3))));
}

#[test]
fn config_from_object_sets_each_member() {
    let mut object = serde_json::Map::new();
    object.insert("DEBUG".to_string(), Value::Bool(true));
    object.insert("NAME".to_string(), Value::String("app".to_string()));
    let mut c = Config::new();
    c.set("NAME", Value::Null);
    c.set("KEPT", Value::Number(Number::from(1)));
    c.from_object(object);
    assert_eq!(c.len(), 3);
    assert_eq!(c.get("DEBUG"), Some(&Value::Bool(true)));
    assert_eq!(c.get("NAME"), Some(&Value::String("app".to_string())));
    assert_eq!(c.get("KEPT"), Some(&Value::Number(Number::from(1))));
}

#[test]
fn config_from_json_reads_an_object() {
    let mut c = Config::new();
    c.set("KEPT", Value::Null);
    assert_eq!(c.from_json("{\"DEBUG\": true, \"LEVELS\": [1, 2], \"N\": {\"a\": null}}"), Ok(()));
    assert_eq!(c.len(), 4);
    assert_eq!(c.get("DEBUG"), Some(&Value::Bool(true)));
    assert_eq!(
        c.get("LEVELS"),
        Some(&Value::Array(vec![
            Value::Number(Number::from(1)),
            Value::Number(Number::from(2)),
        ]))
    );
    let mut inner = serde_json::Map::new();
    inner.insert("a".to_string(), Value::Null);
    assert_eq!(c.get("N"), Some(&Value::Object(inner)));
    assert_eq!(c.get("KEPT"), Some(&Value::Null));
}

#[test]
fn config_from_json_refuses_other_roots() {
    let mut c = Config::new();
    c.set("KEPT", Value::Bool(true));
    assert_eq!(c.from_json("[1, 2]"), Err(ConfigError::NotAnObject));
    assert_eq!(c.from_json("\"text\""), Err(ConfigError::NotAnObject));
    assert_eq!(c.from_json("null"), Err(ConfigError::NotAnObject));
    assert_eq!(c.len(), 1);
    assert_eq!(c.get("KEPT"), Some(&Value::Bool(true)));
}

#[test]
fn config_from_json_refuses_what_is_no_json() {
    let mut c = Config::new();
    c.set("KEPT", Value::Bool(true));
    assert_eq!(c.from_json("{\"a\": "), Err(ConfigError::NotJson));
    assert_eq!(c.from_json(""), Err(ConfigError::NotJson));
    assert_eq!(c.from_json("{a: 1}"), Err(ConfigError::NotJson));
    assert_eq!(c.len(), 1);
}
