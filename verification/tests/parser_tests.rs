use roboctl::parser::{parse, tokenize, ParseError};
use roboctl::value::Value;

fn text(s: &str) -> Value {
    Value::Text(s.to_string())
}

#[test]
fn empty_line_fails() {
    assert_eq!(parse("").unwrap_err(), ParseError::EmptyCommand);
    assert_eq!(parse("   \t  ").unwrap_err(), ParseError::EmptyCommand);
}

#[test]
fn unknown_verb_fails_with_verb() {
    let e = parse("fly up").unwrap_err();
    assert_eq!(e, ParseError::UnknownVerb("fly".to_string()));
    assert_eq!(e.message(), "Invalid action.");
}

#[test]
fn unknown_verb_is_lowercased() {
    let e = parse("JUMP").unwrap_err();
    assert_eq!(e, ParseError::UnknownVerb("jump".to_string()));
}

#[test]
fn all_recognized_verbs_parse() {
    for v in ["move", "turn", "stop", "sit", "stand", "dance", "wave", "leg"] {
        assert!(parse(v).is_ok(), "verb {} should parse", v);
    }
}

#[test]
fn simple_verbs_have_their_tag() {
    assert_eq!(parse("stop").unwrap().command, "stop");
    assert_eq!(parse("sit").unwrap().command, "sit");
    assert_eq!(parse("stand").unwrap().command, "stand");
    assert_eq!(parse("dance").unwrap().command, "dance");
    assert_eq!(parse("wave").unwrap().command, "wave");
    assert_eq!(parse("stop").unwrap().params.len(), 0);
}

#[test]
fn verb_is_lowercased() {
    let p = parse("MOVE ForWard").unwrap();
    assert_eq!(p.command, "walk");
    assert_eq!(p.params.get("dir"), Some(&text("f")));
}

#[test]
fn move_direction_mapping() {
    assert_eq!(parse("move forward").unwrap().params.get("dir"), Some(&text("f")));
    assert_eq!(parse("move backward").unwrap().params.get("dir"), Some(&text("b")));
    assert_eq!(parse("move left").unwrap().params.get("dir"), Some(&text("L")));
    assert_eq!(parse("move right").unwrap().params.get("dir"), Some(&text("R")));
}

#[test]
fn turn_direction_mapping_is_lowercase() {
    assert_eq!(parse("turn left").unwrap().params.get("dir"), Some(&text("l")));
    assert_eq!(parse("turn right").unwrap().params.get("dir"), Some(&text("r")));
}

#[test]
fn unmapped_direction_passes_through() {
    assert_eq!(parse("move sideways").unwrap().params.get("dir"), Some(&text("sideways")));
    assert_eq!(parse("turn forward").unwrap().params.get("dir"), Some(&text("forward")));
    // the word is matched lower-cased but passed through unchanged
    assert_eq!(parse("move SIDEways").unwrap().params.get("dir"), Some(&text("SIDEways")));
}

#[test]
fn defaults_fill_absent_keys() {
    let p = parse("move forward").unwrap();
    assert_eq!(p.params.get("mode"), Some(&text("crawl")));
    assert_eq!(p.params.get("steps"), Some(&Value::Int(10)));
    assert_eq!(p.params.get("step_length"), Some(&Value::Int(80)));
}

#[test]
fn explicit_flag_beats_default() {
    let p = parse("move forward --steps 5").unwrap();
    assert_eq!(p.params.get("steps"), Some(&Value::Int(5)));
    assert_eq!(p.params.get("mode"), Some(&text("crawl")));
    assert_eq!(p.params.get("step_length"), Some(&Value::Int(80)));
}

#[test]
fn default_merge_is_key_absent_only() {
    let p = parse("move forward --mode trot").unwrap();
    assert_eq!(p.params.get("mode"), Some(&text("trot")));
    assert_eq!(p.params.get("steps"), Some(&Value::Int(10)));
    assert_eq!(p.params.get("step_length"), Some(&Value::Int(80)));
}

#[test]
fn turn_scans_flags_too() {
    let p = parse("turn left --steps 3").unwrap();
    assert_eq!(p.command, "walk");
    assert_eq!(p.params.get("steps"), Some(&Value::Int(3)));
}

#[test]
fn numeric_coercion_order() {
    let p = parse("move forward --x 3 --y 3.5 --z abc").unwrap();
    assert_eq!(p.params.get("x"), Some(&Value::Int(3)));
    assert_eq!(p.params.get("y"), Some(&Value::Float("3.5".to_string())));
    assert_eq!(p.params.get("z"), Some(&text("abc")));
}

#[test]
fn flag_without_value_is_ignored() {
    let p = parse("move forward --speed").unwrap();
    assert_eq!(p.params.get("speed"), None);
    assert_eq!(p.params.get("mode"), Some(&text("crawl")));
}

#[test]
fn repeated_flag_keeps_last_value() {
    let p = parse("move forward --steps 5 --steps 7").unwrap();
    assert_eq!(p.params.get("steps"), Some(&Value::Int(7)));
}

#[test]
fn non_flag_tokens_are_skipped() {
    let p = parse("move forward quickly --steps 4").unwrap();
    assert_eq!(p.params.get("steps"), Some(&Value::Int(4)));
    assert_eq!(p.params.get("quickly"), None);
}

#[test]
fn repeated_dashes_are_stripped() {
    let p = parse("move forward ----steps 6").unwrap();
    assert_eq!(p.params.get("steps"), Some(&Value::Int(6)));
}

#[test]
fn leg_action_keyword() {
    let p = parse("leg 2 up").unwrap();
    assert_eq!(p.command, "leg");
    assert_eq!(p.params.get("id"), Some(&Value::Int(2)));
    assert_eq!(p.params.get("action"), Some(&text("up")));
    assert_eq!(p.params.len(), 2);
}

#[test]
fn leg_action_keywords_are_verbatim() {
    // only the exact lowercase keywords count; others are coordinate text
    let p = parse("leg 1 UP").unwrap();
    assert_eq!(p.params.get("action"), None);
    for a in ["up", "dn", "mf", "bk", "mid"] {
        let line = format!("leg 1 {}", a);
        let q = parse(&line).unwrap();
        assert_eq!(q.params.get("action"), Some(&text(a)));
    }
}

#[test]
fn leg_coordinates() {
    let p = parse("leg 2 1.0 2.0 3.0").unwrap();
    assert_eq!(p.params.get("id"), Some(&Value::Int(2)));
    assert_eq!(p.params.get("x"), Some(&Value::Float("1.0".to_string())));
    assert_eq!(p.params.get("y"), Some(&Value::Float("2.0".to_string())));
    assert_eq!(p.params.get("z"), Some(&Value::Float("3.0".to_string())));
}

#[test]
fn leg_bad_coordinate_is_omitted() {
    let p = parse("leg 2 1.5 oops 3.5").unwrap();
    assert_eq!(p.params.get("x"), Some(&Value::Float("1.5".to_string())));
    assert_eq!(p.params.get("y"), None);
    assert_eq!(p.params.get("z"), Some(&Value::Float("3.5".to_string())));
}

#[test]
fn leg_unparsable_id_is_omitted() {
    let p = parse("leg two up").unwrap();
    assert_eq!(p.params.get("id"), None);
    // the third token is still read as the action keyword
    assert_eq!(p.params.get("action"), Some(&text("up")));
    assert_eq!(p.params.len(), 1);
}

#[test]
fn empty_command_message() {
    assert_eq!(parse("").unwrap_err().message(), "empty command");
}

#[test]
fn tokenize_splits_on_whitespace() {
    assert_eq!(tokenize("  a \t b\u{3000}c  "), vec!["a", "b", "c"]);
    assert_eq!(tokenize(""), Vec::<String>::new());
}
