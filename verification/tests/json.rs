use spire_kernel::io::json::{canonicalize_value, key_less, JsonValue};

/// Compact JSON text of a value, objects in the order their entries stand.
fn encode(v: &JsonValue) -> String {
    match v {
        JsonValue::Null => "null".to_string(),
        JsonValue::Bool(b) => b.to_string(),
        JsonValue::Number(s) => s.clone(),
        JsonValue::Text(s) => format!("\"{}\"", s),
        JsonValue::Array(xs) => {
            let parts: Vec<String> = xs.iter().map(encode).collect();
            format!("[{}]", parts.join(","))
        }
        JsonValue::Object(es) => {
            let parts: Vec<String> = es.iter().map(|(k, x)| format!("\"{}\":{}", k, encode(x))).collect();
            format!("{{{}}}", parts.join(","))
        }
    }
}

fn num(s: &str) -> JsonValue {
    JsonValue::Number(s.to_string())
}

fn obj(entries: Vec<(&str, JsonValue)>) -> JsonValue {
    JsonValue::Object(entries.into_iter().map(|(k, v)| (k.to_string(), v)).collect())
}

#[test]
fn canonicalization_sorts_map_keys() {
    let value = obj(vec![("b", num("2")), ("a", obj(vec![("d", num("4")), ("c", num("3"))]))]);
    let encoded = encode(&canonicalize_value(&value));
    assert_eq!(encoded, "{\"a\":{\"c\":3,\"d\":4},\"b\":2}");
}

#[test]
fn canonicalization_keeps_last_value_of_repeated_key() {
    let value = obj(vec![("k", num("1")), ("a", JsonValue::Null), ("k", num("2"))]);
    assert_eq!(encode(&canonicalize_value(&value)), "{\"a\":null,\"k\":2}");
}

#[test]
fn canonicalization_keeps_array_order_and_scalars() {
    let value = JsonValue::Array(vec![
        num("3"),
        JsonValue::Text("x".to_string()),
        JsonValue::Bool(false),
        obj(vec![("z", num("1")), ("y", num("2"))]),
    ]);
    assert_eq!(encode(&canonicalize_value(&value)), "[3,\"x\",false,{\"y\":2,\"z\":1}]");
}

#[test]
fn canonicalization_is_idempotent_on_example() {
    let value = obj(vec![("seed", num("42")), ("model", obj(vec![("name", JsonValue::Text("SM".into())), ("fields", JsonValue::Array(vec![]))]))]);
    let once = canonicalize_value(&value);
    let twice = canonicalize_value(&once);
    assert_eq!(encode(&once), encode(&twice));
    assert_eq!(encode(&once), "{\"model\":{\"fields\":[],\"name\":\"SM\"},\"seed\":42}");
}

#[test]
fn key_order_is_code_point_order() {
    assert!(key_less("a", "b"));
    assert!(key_less("a", "ab"));
    assert!(!key_less("ab", "a"));
    assert!(!key_less("a", "a"));
    assert!(key_less("Z", "a"));
    assert!(key_less("", "a"));
}

#[test]
fn canonical_form_ignores_entry_order() {
    let a = obj(vec![("x", num("1")), ("y", obj(vec![("p", JsonValue::Null), ("q", num("2"))]))]);
    let b = obj(vec![("y", obj(vec![("q", num("2")), ("p", JsonValue::Null)])), ("x", num("1"))]);
    assert_eq!(encode(&canonicalize_value(&a)), encode(&canonicalize_value(&b)));
}
