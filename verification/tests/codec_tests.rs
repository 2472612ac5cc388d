use roboctl::codec::encode;
use roboctl::parser::parse;
use roboctl::value::coerce;
use roboctl::value::Value;

#[test]
fn encode_simple_verb() {
    let p = parse("stop").unwrap();
    assert_eq!(encode(&p), "{\"cmd\":\"stop\"}");
}

#[test]
fn encode_walk_with_defaults() {
    let p = parse("move forward").unwrap();
    assert_eq!(
        encode(&p),
        "{\"cmd\":\"walk\",\"dir\":\"f\",\"mode\":\"crawl\",\"steps\":10,\"step_length\":80}"
    );
}

#[test]
fn encode_keeps_insertion_order() {
    let p = parse("move forward --steps 5").unwrap();
    assert_eq!(
        encode(&p),
        "{\"cmd\":\"walk\",\"dir\":\"f\",\"steps\":5,\"mode\":\"crawl\",\"step_length\":80}"
    );
}

#[test]
fn encode_leg_coordinates() {
    let p = parse("leg 2 1.0 2.0 3.0").unwrap();
    assert_eq!(encode(&p), "{\"cmd\":\"leg\",\"id\":2,\"x\":1.0,\"y\":2.0,\"z\":3.0}");
}

#[test]
fn encode_is_deterministic() {
    let a = parse("move left --steps 12 --note fast").unwrap();
    let b = parse("move left --steps 12 --note fast").unwrap();
    assert_eq!(encode(&a), encode(&b));
    assert_eq!(encode(&a).into_bytes(), encode(&b).into_bytes());
}

#[test]
fn encode_escapes_text() {
    let p = parse("move forward --note say\"hi\\now").unwrap();
    assert_eq!(
        encode(&p),
        "{\"cmd\":\"walk\",\"dir\":\"f\",\"note\":\"say\\\"hi\\\\now\",\"mode\":\"crawl\",\"steps\":10,\"step_length\":80}"
    );
}

#[test]
fn encode_negative_and_extreme_integers() {
    let p = parse("move forward --a -42 --b -9223372036854775808 --c 9223372036854775807")
        .unwrap();
    let s = encode(&p);
    assert!(s.contains("\"a\":-42"));
    assert!(s.contains("\"b\":-9223372036854775808"));
    assert!(s.contains("\"c\":9223372036854775807"));
}

#[test]
fn coercion_canonicalizes_float_text() {
    assert_eq!(coerce("+3.5"), Value::Float("3.5".to_string()));
    assert_eq!(coerce(".5"), Value::Float("0.5".to_string()));
    assert_eq!(coerce("3."), Value::Float("3.0".to_string()));
    assert_eq!(coerce("007.25"), Value::Float("7.25".to_string()));
    assert_eq!(coerce("1e3"), Value::Float("1e3".to_string()));
    assert_eq!(coerce("2E+07"), Value::Float("2e7".to_string()));
    assert_eq!(coerce("-1.5e-3"), Value::Float("-1.5e-3".to_string()));
}

#[test]
fn coercion_int_first_then_float_then_text() {
    assert_eq!(coerce("3"), Value::Int(3));
    assert_eq!(coerce("+7"), Value::Int(7));
    assert_eq!(coerce("007"), Value::Int(7));
    assert_eq!(coerce("3.5"), Value::Float("3.5".to_string()));
    assert_eq!(coerce("abc"), Value::Text("abc".to_string()));
    assert_eq!(coerce("1.2.3"), Value::Text("1.2.3".to_string()));
    assert_eq!(coerce("--"), Value::Text("--".to_string()));
}

#[test]
fn integer_overflowing_i64_becomes_float_text() {
    assert_eq!(
        coerce("99999999999999999999"),
        Value::Float("99999999999999999999".to_string())
    );
}

#[test]
fn non_finite_words_stay_text() {
    assert_eq!(coerce("inf"), Value::Text("inf".to_string()));
    assert_eq!(coerce("NaN"), Value::Text("NaN".to_string()));
    assert_eq!(coerce("-infinity"), Value::Text("-infinity".to_string()));
}
