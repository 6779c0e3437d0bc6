use weather_threads::json::Json;
use weather_threads::parse::parse_document;

fn chars(s: &str) -> Vec<char> {
    s.chars().collect()
}

fn parse(s: &str) -> Option<Json> {
    parse_document(&chars(s))
}

#[test]
fn parses_scalars() {
    assert_eq!(parse("null"), Some(Json::Null));
    assert_eq!(parse("true"), Some(Json::Bool(true)));
    assert_eq!(parse("false"), Some(Json::Bool(false)));
    assert_eq!(parse("42"), Some(Json::Num(chars("42"))));
    assert_eq!(parse("\"hi\""), Some(Json::Str(chars("hi"))));
}

#[test]
fn parses_nested_structures() {
    let doc = parse(r#"{"a":[1,{"b":null}],"c":""}"#).unwrap();
    let expected = Json::Obj(vec![
        (
            chars("a"),
            Json::Arr(vec![
                Json::Num(chars("1")),
                Json::Obj(vec![(chars("b"), Json::Null)]),
            ]),
        ),
        (chars("c"), Json::Str(Vec::new())),
    ]);
    assert_eq!(doc, expected);
}

#[test]
fn rejects_malformed_documents() {
    for bad in [
        "", " ", "nul", "truth", "fals", "{", "}", "[", "]", "[1,]", "[,1]", "{\"a\"}",
        "{\"a\":}", "{\"a\":1,}", "{a:1}", "{'a':1}", "\"unterminated", "\"bad\\escape\"",
        "[1] [2]", "01", "1 2",
    ] {
        assert_eq!(parse(bad), None, "{}", bad);
    }
}

#[test]
fn empty_containers_parse() {
    assert_eq!(parse("[]"), Some(Json::Arr(Vec::new())));
    assert_eq!(parse("{}"), Some(Json::Obj(Vec::new())));
    assert_eq!(parse(" [ ] "), Some(Json::Arr(Vec::new())));
    assert_eq!(parse(" { } "), Some(Json::Obj(Vec::new())));
}

#[test]
fn deep_nesting_parses() {
    let mut s = String::new();
    for _ in 0..100 {
        s.push('[');
    }
    s.push('0');
    for _ in 0..100 {
        s.push(']');
    }
    let mut expected = Json::Num(chars("0"));
    for _ in 0..100 {
        expected = Json::Arr(vec![expected]);
    }
    assert_eq!(parse(&s), Some(expected));
}

#[test]
fn get_member_returns_the_last_binding() {
    let doc = parse(r#"{"k":1,"k":2,"other":3}"#).unwrap();
    let k = chars("k");
    assert_eq!(doc.get_member(&k), Some(&Json::Num(chars("2"))));
    let missing = chars("absent");
    assert_eq!(doc.get_member(&missing), None);
}

#[test]
fn get_member_on_a_non_object_is_none() {
    let doc = parse("[1,2]").unwrap();
    let k = chars("k");
    assert_eq!(doc.get_member(&k), None);
}

#[test]
fn get_element_indexes_arrays_only() {
    let doc = parse(r#"[10, 20]"#).unwrap();
    assert_eq!(doc.get_element(0), Some(&Json::Num(chars("10"))));
    assert_eq!(doc.get_element(1), Some(&Json::Num(chars("20"))));
    assert_eq!(doc.get_element(2), None);
    let obj = parse("{}").unwrap();
    assert_eq!(obj.get_element(0), None);
}

#[test]
fn string_escapes_round_through_the_tree() {
    let doc = parse(r#""A\té""#).unwrap();
    assert_eq!(doc, Json::Str(chars("A\t\u{e9}")));
}
