use scylla_rust_mcp::json::{JsonValue, Member};
use scylla_rust_mcp::tools::{arg_array, arg_object, arg_ordering, arg_str, arg_u64};

fn extract_key(map: &Vec<Member>, key: &str) -> Option<String> {
    arg_str(Some(map), key)
}

fn text(name: &str, value: &str) -> Member {
    Member { name: name.to_string(), value: JsonValue::Text(value.to_string()) }
}

#[test]
fn extracts_required_string_arg() {
    let mut m = Vec::new();
    m.push(text("keyspace", "ks1"));
    assert_eq!(extract_key(&m, "keyspace").as_deref(), Some("ks1"));
}

#[test]
fn missing_required_string_arg() {
    let m = Vec::new();
    assert!(extract_key(&m, "keyspace").is_none());
}

#[test]
fn extracts_two_required_args() {
    let mut m = Vec::new();
    m.push(text("keyspace", "ks1"));
    m.push(text("table", "t1"));
    assert_eq!(extract_key(&m, "keyspace").as_deref(), Some("ks1"));
    assert_eq!(extract_key(&m, "table").as_deref(), Some("t1"));
}

#[test]
fn absent_arguments_give_nothing() {
    assert_eq!(arg_str(None, "keyspace"), None);
    assert_eq!(arg_u64(None, "limit"), None);
    assert!(arg_object(None, "filters").is_none());
    assert!(arg_array(None, "columns").is_none());
    assert!(arg_ordering(None).is_none());
}

#[test]
fn arguments_of_the_wrong_kind_give_nothing() {
    let m = vec![
        Member { name: "keyspace".into(), value: JsonValue::Int(3) },
        Member { name: "limit".into(), value: JsonValue::Text("5".into()) },
        Member { name: "filters".into(), value: JsonValue::Array(vec![]) },
        Member { name: "columns".into(), value: JsonValue::Object(vec![]) },
    ];
    assert_eq!(arg_str(Some(&m), "keyspace"), None);
    assert_eq!(arg_u64(Some(&m), "limit"), None);
    assert!(arg_object(Some(&m), "filters").is_none());
    assert!(arg_array(Some(&m), "columns").is_none());
}

#[test]
fn numbers_must_be_non_negative_integers() {
    let m = vec![
        Member { name: "a".into(), value: JsonValue::Int(0) },
        Member { name: "b".into(), value: JsonValue::Int(-1) },
        Member { name: "c".into(), value: JsonValue::Float(5.0f64.to_bits()) },
        Member { name: "d".into(), value: JsonValue::Int(i64::MAX) },
    ];
    assert_eq!(arg_u64(Some(&m), "a"), Some(0));
    assert_eq!(arg_u64(Some(&m), "b"), None);
    assert_eq!(arg_u64(Some(&m), "c"), None);
    assert_eq!(arg_u64(Some(&m), "d"), Some(i64::MAX as u64));
    let large = vec![Member {
        name: "limit".into(),
        value: JsonValue::Large { value: u64::MAX, nearest: (u64::MAX as f64).to_bits() },
    }];
    assert_eq!(arg_u64(Some(&large), "limit"), Some(u64::MAX));
}

#[test]
fn the_first_member_of_a_name_is_read() {
    let m = vec![text("keyspace", "first"), text("keyspace", "second")];
    assert_eq!(arg_str(Some(&m), "keyspace").as_deref(), Some("first"));
}

#[test]
fn ordering_is_read_under_either_name() {
    let snake = vec![Member { name: "order_by".into(), value: JsonValue::Array(vec![]) }];
    assert_eq!(arg_ordering(Some(&snake)).map(|v| v.len()), Some(0));
    let camel =
        vec![Member { name: "orderBy".into(), value: JsonValue::Array(vec![JsonValue::Null]) }];
    assert_eq!(arg_ordering(Some(&camel)).map(|v| v.len()), Some(1));
    let both = vec![
        Member { name: "orderBy".into(), value: JsonValue::Array(vec![JsonValue::Null]) },
        Member { name: "order_by".into(), value: JsonValue::Text("x".into()) },
    ];
    assert!(arg_ordering(Some(&both)).is_none());
}
