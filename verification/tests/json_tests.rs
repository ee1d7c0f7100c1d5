use bitwarden_rofi::json::{parse_json, Json};

#[test]
fn parses_scalars() {
    assert!(matches!(parse_json("null"), Some(Json::Null)));
    assert!(matches!(parse_json("true"), Some(Json::Bool(true))));
    assert!(matches!(parse_json("false"), Some(Json::Bool(false))));
    match parse_json("42.5e3") {
        Some(Json::Num(lex)) => assert_eq!(lex, "42.5e3"),
        other => panic!("unexpected parse: {:?}", other),
    }
}

#[test]
fn parses_strings_with_escapes() {
    match parse_json("\"a\\u0041\\n\\\"\\\\\"") {
        Some(Json::Str(s)) => assert_eq!(s, "aA\n\"\\"),
        other => panic!("unexpected parse: {:?}", other),
    }
}

#[test]
fn rejects_lone_surrogate_escape() {
    assert!(parse_json("\"\\uD800\"").is_none());
}

#[test]
fn parses_nested_structure() {
    let text = " { \"a\" : [ 1 , {\"b\": null} ] , \"c\" : \"d\" } ";
    match parse_json(text) {
        Some(Json::Obj(ms)) => {
            assert_eq!(ms.len(), 2);
            assert_eq!(ms[0].0, "a");
            match &ms[0].1 {
                Json::Arr(vs) => {
                    assert_eq!(vs.len(), 2);
                    assert!(matches!(&vs[0], Json::Num(lex) if lex == "1"));
                    assert!(matches!(&vs[1], Json::Obj(inner) if inner.len() == 1));
                },
                other => panic!("unexpected element: {:?}", other),
            }
            assert_eq!(ms[1].0, "c");
            assert!(matches!(&ms[1].1, Json::Str(s) if s == "d"));
        },
        other => panic!("unexpected parse: {:?}", other),
    }
}

#[test]
fn rejects_malformed_documents() {
    assert!(parse_json("").is_none());
    assert!(parse_json("{").is_none());
    assert!(parse_json("[1,]").is_none());
    assert!(parse_json("[1] trailing").is_none());
    assert!(parse_json("\"unterminated").is_none());
    assert!(parse_json("{\"a\" 1}").is_none());
    assert!(parse_json("nul").is_none());
}

#[test]
fn empty_containers() {
    assert!(matches!(parse_json("[]"), Some(Json::Arr(vs)) if vs.is_empty()));
    assert!(matches!(parse_json("{ }"), Some(Json::Obj(ms)) if ms.is_empty()));
}

#[test]
fn raw_control_characters_are_rejected_in_strings() {
    assert!(parse_json("\"a\u{1}b\"").is_none());
}
