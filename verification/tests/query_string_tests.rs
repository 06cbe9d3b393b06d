use oxido::query_string::{QueryString, Value};

fn expect_single(q: &QueryString, key: &str, want: &str) {
    match q.get(key) {
        Some(Value::Single(v)) => assert_eq!(v, want),
        _ => panic!("expected a single value"),
    }
}

#[test]
fn should_decode_mixed_query_string() {
    let q = QueryString::from("a=1&b=2&c&d=&e===&d=7&d=abc");

    expect_single(&q, "a", "1");
    expect_single(&q, "b", "2");
    expect_single(&q, "c", "");
    expect_single(&q, "e", "==");
    match q.get("d") {
        Some(Value::Multiple(vs)) => {
            assert_eq!(vs.len(), 3);
            assert_eq!(vs[0], "");
            assert_eq!(vs[1], "7");
            assert_eq!(vs[2], "abc");
        },
        _ => panic!("expected multiple values for key d"),
    }
    assert!(q.get("zz").is_none());
}

#[test]
fn should_keep_values_in_first_to_last_order() {
    let q = QueryString::from("k=first&k=second&k=third");
    match q.get("k") {
        Some(Value::Multiple(vs)) => {
            assert_eq!(vs.len(), 3);
            assert_eq!(vs[0], "first");
            assert_eq!(vs[1], "second");
            assert_eq!(vs[2], "third");
        },
        _ => panic!("expected multiple values for key k"),
    }
}

#[test]
fn should_decode_empty_fragment_as_empty_key() {
    let q = QueryString::from("");
    expect_single(&q, "", "");
}

#[test]
fn should_keep_later_equals_signs_verbatim() {
    let q = QueryString::from("key=a=b=c");
    expect_single(&q, "key", "a=b=c");
}

#[test]
fn should_treat_keys_case_sensitively() {
    let q = QueryString::from("Key=1&key=2");
    expect_single(&q, "Key", "1");
    expect_single(&q, "key", "2");
}
