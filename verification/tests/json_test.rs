//! JSON values: reading, writing, writing into by key, and the IDE files.

use sinter::ide::bsp::{connection_file, dependency_options, environment_file};
use sinter::toolkit::json::{read_value, string_array, take_value, with_field, write_value, write_value_pretty, JsonValue};

fn text(s: &str) -> JsonValue {
    JsonValue::Str(s.to_string())
}

fn field<'a>(v: &'a JsonValue, key: &str) -> Option<&'a JsonValue> {
    match v {
        JsonValue::Object(fields) => fields.iter().find(|(k, _)| k == key).map(|(_, x)| x),
        _ => None,
    }
}

fn strings(v: &JsonValue) -> Vec<String> {
    match v {
        JsonValue::Array(items) => items
            .iter()
            .map(|x| match x {
                JsonValue::Str(s) => s.clone(),
                _ => panic!("not a string"),
            })
            .collect(),
        _ => panic!("not an array"),
    }
}

#[test]
fn read_and_write_round_trip() {
    let v = read_value("{\"b\": 1, \"a\": [true, null, \"x\", -2.5]}").unwrap();
    assert_eq!(write_value(&v).unwrap(), "{\"a\":[true,null,\"x\",-2.5],\"b\":1}");
    match &v {
        JsonValue::Object(fields) => {
            assert_eq!(fields.len(), 2);
            assert_eq!(fields[0].0, "a");
            assert!(matches!(&fields[1].1, JsonValue::Number(n) if n == "1"));
        }
        _ => panic!("expected an object"),
    }
}

#[test]
fn read_refuses_what_is_no_json() {
    assert!(read_value("{\"a\": ").is_err());
    assert!(read_value("").is_err());
}

#[test]
fn write_refuses_a_bad_number() {
    assert!(write_value(&JsonValue::Number("1.2.3".to_string())).is_err());
}

#[test]
fn pretty_text_is_indented() {
    let v = JsonValue::Object(vec![("k".to_string(), JsonValue::Array(vec![text("a"), JsonValue::Bool(false)]))]);
    assert_eq!(write_value_pretty(&v).unwrap(), "{\n  \"k\": [\n    \"a\",\n    false\n  ]\n}");
}

#[test]
fn with_field_writes_by_key() {
    let v = with_field(JsonValue::Null, "k", text("v"));
    assert_eq!(write_value(&v).unwrap(), "{\"k\":\"v\"}");
    let v = with_field(v, "j", JsonValue::Bool(true));
    let v = with_field(v, "k", text("w"));
    match &v {
        JsonValue::Object(fields) => {
            assert_eq!(fields.len(), 2);
            assert_eq!(fields[0].0, "k");
            assert!(matches!(&fields[0].1, JsonValue::Str(s) if s == "w"));
        }
        _ => panic!("expected an object"),
    }
}

#[test]
fn take_value_leaves_null() {
    let v = read_value("{\"a\": 1, \"b\": \"x\"}").unwrap();
    let (rest, taken) = take_value(v, "b");
    assert!(matches!(&taken, JsonValue::Str(s) if s == "x"));
    assert_eq!(write_value(&rest).unwrap(), "{\"a\":1,\"b\":null}");
    let (_, missing) = take_value(rest, "c");
    assert!(matches!(missing, JsonValue::Null));
}

#[test]
fn dependency_options_replace_the_list() {
    let options = read_value("{\"dependencies\": {\"dependency\": [\"old:x:1\"], \"other\": 1}, \"scalac\": {}}").unwrap();
    let out = dependency_options(options, vec!["a:b:1".to_string(), "c:d:2".to_string()]).unwrap();
    let deps = field(&out, "dependencies").unwrap();
    assert_eq!(strings(field(deps, "dependency").unwrap()), vec!["a:b:1", "c:d:2"]);
    assert!(field(deps, "other").is_some());
    assert!(field(&out, "scalac").is_some());
}

#[test]
fn dependency_options_made_where_missing() {
    let out = dependency_options(JsonValue::Null, vec!["g:a:1".to_string()]).unwrap();
    assert_eq!(write_value(&out).unwrap(), "{\"dependencies\":{\"dependency\":[\"g:a:1\"]}}");
    let out = dependency_options(read_value("{\"dependencies\": null}").unwrap(), vec![]).unwrap();
    assert_eq!(write_value(&out).unwrap(), "{\"dependencies\":{\"dependency\":[]}}");
}

#[test]
fn dependency_options_refused_on_other_values() {
    assert!(dependency_options(read_value("[1]").unwrap(), vec![]).is_none());
    assert!(dependency_options(read_value("{\"dependencies\": 3}").unwrap(), vec![]).is_none());
}

#[test]
fn connection_file_text() {
    let argv = vec!["/bin/scala-cli".to_string(), "bsp".to_string()];
    let text = write_value_pretty(&connection_file(argv, "1.5.0".to_string())).unwrap();
    assert_eq!(
        text,
        "{\n  \"argv\": [\n    \"/bin/scala-cli\",\n    \"bsp\"\n  ],\n  \"bspVersion\": \"2.1.1\",\n  \"languages\": [\n    \"scala\",\n    \"java\"\n  ],\n  \"name\": \"scala-cli\",\n  \"version\": \"1.5.0\"\n}"
    );
}

#[test]
fn environment_file_text() {
    let vars = vec![("PATH".to_string(), "/bin".to_string()), ("HOME".to_string(), "/root".to_string())];
    assert_eq!(write_value(&environment_file(vars)).unwrap(), "{\"HOME\":\"/root\",\"PATH\":\"/bin\"}");
}

#[test]
fn string_array_keeps_order() {
    let v = string_array(vec!["x".to_string(), "y".to_string()]);
    assert_eq!(write_value(&v).unwrap(), "[\"x\",\"y\"]");
}
