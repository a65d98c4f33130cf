use mirage::json::JsonValue;
use mirage::number::JsonNumber;
use mirage::model::{Example, MediaType, OpenApi, Info, Operation, PathItem, Response, Schema};
use mirage::path::{is_path_param, match_path};
use mirage::query::parse_query;
use mirage::resolve::{
    build_body_from_response, build_not_found_response, build_response, build_response_from_operation,
    find_operation_for_method, handle_request, BodyKind,
};
use mirage::encode::encode_json;
use mirage::synth::{generate_from_schema, pick_example};
use mirage::text::parse_status;

fn s(x: &str) -> String {
    x.to_string()
}

fn schema(ty: Option<&str>) -> Schema {
    Schema { ty: ty.map(s), properties: vec![], items: None, enum_values: vec![], format: None }
}

fn media() -> MediaType {
    MediaType { example: None, examples: vec![], schema: None, example_param: None }
}

fn named(v: Option<JsonValue>) -> Example {
    Example { summary: None, value: v }
}

fn json_response(mt: MediaType) -> Response {
    Response { description: None, content: vec![(s("application/json"), mt)] }
}

fn operation(responses: Vec<(String, Response)>) -> Operation {
    Operation { summary: None, responses }
}

fn path_item(get: Option<Operation>) -> PathItem {
    PathItem { get, post: None, put: None, delete: None, patch: None }
}

fn api(paths: Vec<(String, PathItem)>) -> OpenApi {
    OpenApi { openapi: s("3.0.0"), info: Info { title: s("t"), version: s("1") }, paths }
}

fn text_of(v: &JsonValue) -> String {
    encode_json(v)
}

fn num(t: &str) -> JsonValue {
    JsonValue::Number(JsonNumber::parse(t).unwrap())
}

fn query(q: &str) -> mirage::query::QueryParams {
    parse_query(Some(q))
}

#[test]
fn scenario_example_on_parameter_path() {
    let mut mt = media();
    mt.example = Some(JsonValue::Object(vec![(s("id"), num("1"))]));
    let spec = api(vec![(s("/users/{id}"), path_item(Some(operation(vec![(s("200"), json_response(mt))]))))]);
    let r = handle_request(&spec, "GET", "/users/42", None);
    assert_eq!(r.status, 200);
    assert_eq!(r.content_type.as_deref(), Some("application/json"));
    assert_eq!(r.body, "{\"id\":1}");
}

#[test]
fn scenario_schema_array_of_integers() {
    let mut sc = schema(Some("array"));
    sc.items = Some(Box::new(schema(Some("integer"))));
    let mut mt = media();
    mt.schema = Some(sc);
    let spec = api(vec![(s("/items"), path_item(Some(operation(vec![(s("200"), json_response(mt))]))))]);
    let r = handle_request(&spec, "GET", "/items", None);
    assert_eq!(r.status, 200);
    assert_eq!(r.body, "[123]");
}

#[test]
fn scenario_example_chosen_by_query() {
    let mut mt = media();
    mt.example_param = Some(s("variant"));
    mt.examples = vec![
        (s("a"), named(Some(JsonValue::String(s("A"))))),
        (s("b"), named(Some(JsonValue::String(s("B"))))),
    ];
    let spec = api(vec![(s("/widgets"), path_item(Some(operation(vec![(s("200"), json_response(mt))]))))]);
    let r = handle_request(&spec, "GET", "/widgets", Some("variant=b"));
    assert_eq!(r.status, 200);
    assert_eq!(r.body, "\"B\"");
}

#[test]
fn scenario_undeclared_path() {
    let spec = api(vec![]);
    let r = handle_request(&spec, "GET", "/nope", None);
    assert_eq!(r.status, 404);
    assert_eq!(r.body, "No mock found for GET /nope");
    assert!(r.content_type.is_none());
}

#[test]
fn scenario_operation_without_responses() {
    let spec = api(vec![(s("/empty"), path_item(Some(operation(vec![]))))]);
    let r = handle_request(&spec, "GET", "/empty", None);
    assert_eq!(r.status, 404);
    assert_eq!(r.body, "No mock found for GET /empty");
    assert!(r.content_type.is_none());
}

#[test]
fn undeclared_method_is_not_found() {
    let mut mt = media();
    mt.example = Some(JsonValue::Bool(true));
    let spec = api(vec![(s("/a"), path_item(Some(operation(vec![(s("200"), json_response(mt))]))))]);
    let r = handle_request(&spec, "POST", "/a", None);
    assert_eq!(r.status, 404);
    assert_eq!(r.body, "No mock found for POST /a");
    let r = handle_request(&spec, "OPTIONS", "/a", None);
    assert_eq!(r.status, 404);
}

#[test]
fn generated_json_round_trips_through_a_json_parser() {
    let mut obj = schema(Some("object"));
    let mut arr = schema(Some("array"));
    arr.items = Some(Box::new(schema(Some("boolean"))));
    let mut text = schema(Some("string"));
    text.format = Some(s("uuid"));
    obj.properties = vec![
        (s("count"), schema(Some("integer"))),
        (s("flags"), arr),
        (s("id"), text),
        (s("price"), schema(Some("number"))),
    ];
    let v = generate_from_schema(&obj);
    let encoded = text_of(&v);
    let parsed: serde_json::Value = serde_json::from_str(&encoded).unwrap();
    let mut expected = serde_json::Map::new();
    expected.insert(s("count"), serde_json::Value::from(123));
    expected.insert(s("flags"), serde_json::Value::Array(vec![serde_json::Value::Bool(true)]));
    expected.insert(s("id"), serde_json::Value::String(s("00000000-0000-0000-0000-000000000000")));
    expected.insert(s("price"), serde_json::Value::from(123.45));
    assert_eq!(parsed, serde_json::Value::Object(expected));
    assert_eq!(serde_json::to_string(&parsed).unwrap(), encoded);
}

#[test]
fn string_escapes_round_trip() {
    let v = JsonValue::Array(vec![JsonValue::String(s("a\"b\\c\nd")), JsonValue::Null]);
    let encoded = text_of(&v);
    assert_eq!(encoded, "[\"a\\\"b\\\\c\\nd\",null]");
    let parsed: serde_json::Value = serde_json::from_str(&encoded).unwrap();
    assert_eq!(parsed, serde_json::Value::Array(vec![serde_json::Value::String(s("a\"b\\c\nd")), serde_json::Value::Null]));
}

#[test]
fn object_member_names_are_escaped() {
    let v = JsonValue::Object(vec![(s("q\"k"), JsonValue::Bool(false)), (s("n"), JsonValue::Null)]);
    assert_eq!(text_of(&v), "{\"q\\\"k\":false,\"n\":null}");
}

#[test]
fn path_templates_match_segment_by_segment() {
    assert!(match_path("/users/{id}", "/users/42"));
    assert!(match_path("/users", "/users/"));
    assert!(match_path("/users/", "/users"));
    assert!(match_path("//users///list", "/users/list"));
    assert!(!match_path("/users/{id}", "/users"));
    assert!(!match_path("/users/{id}", "/users/42/posts"));
    assert!(!match_path("/users/list", "/users/other"));
    assert!(match_path("/", ""));
    assert!(match_path("/a/{}", "/a/{}"));
    assert!(!match_path("/a/{}", "/a/x"));
}

#[test]
fn path_params_need_a_name() {
    assert!(is_path_param("{id}"));
    assert!(!is_path_param("{}"));
    assert!(!is_path_param("id"));
    assert!(!is_path_param("{id"));
    assert!(!is_path_param("id}"));
}

#[test]
fn query_pairs_last_value_wins() {
    let q = query("a=1&b=2&&c&a=3&d=x=y");
    assert_eq!(q.get("a").map(|v| v.as_str()), Some("3"));
    assert_eq!(q.get("b").map(|v| v.as_str()), Some("2"));
    assert_eq!(q.get("c").map(|v| v.as_str()), Some(""));
    assert_eq!(q.get("d").map(|v| v.as_str()), Some("x=y"));
    assert_eq!(q.get("e"), None);
    assert_eq!(q.pairs.len(), 5);
    assert!(parse_query(None).pairs.is_empty());
    assert!(parse_query(Some("")).pairs.is_empty());
}

#[test]
fn schema_mocks_by_type_and_format() {
    let cases = [
        (Some("string"), None, "\"string\""),
        (Some("string"), Some("date-time"), "\"2025-01-01T00:00:00Z\""),
        (Some("string"), Some("date"), "\"2025-01-01\""),
        (Some("string"), Some("uuid"), "\"00000000-0000-0000-0000-000000000000\""),
        (Some("string"), Some("email"), "\"string(email)\""),
        (Some("number"), None, "123.45"),
        (Some("integer"), None, "123"),
        (Some("boolean"), None, "true"),
        (Some("array"), None, "[]"),
        (Some("object"), None, "{}"),
        (None, None, "{}"),
        (Some("mystery"), None, "{}"),
    ];
    for (ty, format, want) in cases {
        let mut sc = schema(ty);
        sc.format = format.map(s);
        assert_eq!(text_of(&generate_from_schema(&sc)), want);
    }
}

#[test]
fn enum_wins_over_declared_type() {
    let mut sc = schema(Some("integer"));
    sc.enum_values = vec![JsonValue::String(s("red")), JsonValue::String(s("blue"))];
    assert_eq!(text_of(&generate_from_schema(&sc)), "\"red\"");
    let first = generate_from_schema(&sc);
    let second = generate_from_schema(&sc);
    assert_eq!(text_of(&first), text_of(&second));
}

#[test]
fn example_precedence_is_strict() {
    let mut mt = media();
    mt.example_param = Some(s("v"));
    mt.example = Some(JsonValue::String(s("single")));
    mt.examples = vec![
        (s("none"), named(None)),
        (s("x"), named(Some(JsonValue::String(s("named-x"))))),
        (s("y"), named(Some(JsonValue::String(s("named-y"))))),
    ];
    let pick = |mt: &MediaType, q: &str| pick_example(mt, &query(q)).map(|v| text_of(&v));
    assert_eq!(pick(&mt, "v=y"), Some(s("\"named-y\"")));
    assert_eq!(pick(&mt, "v=none"), Some(s("\"single\"")));
    assert_eq!(pick(&mt, "v=zzz"), Some(s("\"single\"")));
    assert_eq!(pick(&mt, ""), Some(s("\"single\"")));
    mt.example = None;
    assert_eq!(pick(&mt, ""), Some(s("\"named-x\"")));
    mt.examples = vec![(s("none"), named(None))];
    assert_eq!(pick(&mt, ""), None);
}

#[test]
fn ok_response_is_preferred() {
    let mut created = media();
    created.example = Some(JsonValue::String(s("created")));
    let mut ok = media();
    ok.example = Some(JsonValue::String(s("ok")));
    let op = operation(vec![(s("201"), json_response(created)), (s("200"), json_response(ok))]);
    let (status, body, ct) = build_response_from_operation(&op, &query("")).unwrap();
    assert_eq!(status, 200);
    assert_eq!(ct, "application/json");
    match body {
        Some(BodyKind::Json(v)) => assert_eq!(text_of(&v), "\"ok\""),
        _ => panic!("expected a JSON body"),
    }
}

#[test]
fn first_response_used_without_ok() {
    let mut created = media();
    created.example = Some(num("7"));
    let op = operation(vec![(s("201"), json_response(created)), (s("500"), json_response(media()))]);
    let (status, _, _) = build_response_from_operation(&op, &query("")).unwrap();
    assert_eq!(status, 201);
    let op = operation(vec![(s("default"), Response { description: None, content: vec![] })]);
    let (status, body, ct) = build_response_from_operation(&op, &query("")).unwrap();
    assert_eq!(status, 200);
    assert!(body.is_none());
    assert_eq!(ct, "text/plain");
    assert!(build_response_from_operation(&operation(vec![]), &query("")).is_none());
}

#[test]
fn other_content_types_use_examples_only() {
    let mut plain = media();
    plain.example = Some(JsonValue::String(s("hello")));
    let resp = Response { description: None, content: vec![(s("text/plain"), plain)] };
    let (body, ct) = build_body_from_response(&resp, &query("")).unwrap();
    assert_eq!(ct, "text/plain");
    match body {
        Some(BodyKind::Text(t)) => assert_eq!(t, "hello"),
        _ => panic!("expected a text body"),
    }
    let mut xml = media();
    xml.example = Some(num("5"));
    let resp = Response { description: None, content: vec![(s("application/xml"), xml)] };
    let (body, ct) = build_body_from_response(&resp, &query("")).unwrap();
    assert_eq!(ct, "application/xml");
    assert!(matches!(body, Some(BodyKind::Json(JsonValue::Number(_)))));
    let mut csv = media();
    csv.schema = Some(schema(Some("string")));
    let resp = Response { description: None, content: vec![(s("text/csv"), csv)] };
    let (body, ct) = build_body_from_response(&resp, &query("")).unwrap();
    assert_eq!(ct, "text/csv");
    assert!(body.is_none());
}

#[test]
fn wire_form_of_responses() {
    let r = build_response(201, Some(BodyKind::Text(s("hi"))), s("text/plain"));
    assert_eq!((r.status, r.body.as_str()), (201, "hi"));
    assert_eq!(r.content_type.as_deref(), Some("text/plain"));
    let r = build_response(42, None, s("text/plain"));
    assert_eq!(r.status, 200);
    assert_eq!(r.body, "");
    let r = build_response(1000, Some(BodyKind::Json(JsonValue::Array(vec![]))), s("application/json"));
    assert_eq!((r.status, r.body.as_str()), (200, "[]"));
    let r = build_not_found_response("DELETE", "/x/y");
    assert_eq!((r.status, r.body.as_str()), (404, "No mock found for DELETE /x/y"));
}

#[test]
fn status_keys_read_as_numbers() {
    assert_eq!(parse_status("200"), Some(200));
    assert_eq!(parse_status("+404"), Some(404));
    assert_eq!(parse_status("65535"), Some(65535));
    assert_eq!(parse_status("65536"), None);
    assert_eq!(parse_status("2xx"), None);
    assert_eq!(parse_status(""), None);
    assert_eq!(parse_status("+"), None);
    assert_eq!(parse_status("-1"), None);
}

#[test]
fn operations_by_method() {
    let mut item = path_item(Some(operation(vec![])));
    item.patch = Some(operation(vec![(s("204"), Response { description: None, content: vec![] })]));
    assert!(find_operation_for_method(&item, "GET").is_some());
    assert_eq!(find_operation_for_method(&item, "PATCH").unwrap().responses.len(), 1);
    assert!(find_operation_for_method(&item, "PUT").is_none());
    assert!(find_operation_for_method(&item, "get").is_none());
}

#[test]
fn control_characters_are_escaped() {
    let v = JsonValue::String(s("\u{1}\u{8}\t\u{c}\r\u{1f}/é"));
    let encoded = text_of(&v);
    assert_eq!(encoded, "\"\\u0001\\b\\t\\f\\r\\u001f/é\"");
    let parsed: serde_json::Value = serde_json::from_str(&encoded).unwrap();
    assert_eq!(parsed, serde_json::Value::String(s("\u{1}\u{8}\t\u{c}\r\u{1f}/é")));
}

#[test]
fn number_literals_are_checked() {
    for good in ["0", "-0", "123", "123.45", "-1.5e10", "2E+3", "7e-2"] {
        assert_eq!(JsonNumber::parse(good).map(|n| n.text().clone()), Some(s(good)), "{}", good);
    }
    for bad in ["", "-", "01", "1.", ".5", "1e", "1e+", "+1", "1.2.3", "abc", "12a"] {
        assert!(JsonNumber::parse(bad).is_none(), "{}", bad);
    }
}
