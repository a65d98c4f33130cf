use vstd::prelude::*;
use vstd::string::*;

use crate::encode::{encode_json, json_text};
use crate::json::{Json, JsonValue};
use crate::model::{entry, find_entry, OpenApi, Operation, PathItem, Response};
use crate::path::{match_path, path_matches};
use crate::query::{parse_query, query_pairs, QueryParams};
use crate::synth::{chosen_example, generate_from_schema, mock_value, pick_example};
use crate::text::{parse_status, same_text, status_number};

verus! {

/// The model of a response body.
pub enum BodyModel {
    Json(Json),
    Text(Seq<char>),
}

/// A response body: a structured value written as JSON, or plain text.
pub enum BodyKind {
    Json(JsonValue),
    Text(String),
}

impl View for BodyKind {
    type V = BodyModel;

    open spec fn view(&self) -> BodyModel {
        match self {
            BodyKind::Json(v) => BodyModel::Json(v@),
            BodyKind::Text(s) => BodyModel::Text(s@),
        }
    }
}

pub open spec fn body_view(b: Option<BodyKind>) -> Option<BodyModel> {
    match b {
        Some(k) => Some(k@),
        None => None,
    }
}

/// The answer to a request, as handed to the transport.
pub struct MockResponse {
    pub status: u16,
    /// The `Content-Type` header, when the response sets one.
    pub content_type: Option<String>,
    pub body: String,
}

/// The operation declared for an HTTP method; only GET, POST, PUT, DELETE
/// and PATCH have one.
pub open spec fn operation_for(p: PathItem, method: Seq<char>) -> Option<Operation> {
    if method == "GET"@ {
        p.get
    } else if method == "POST"@ {
        p.post
    } else if method == "PUT"@ {
        p.put
    } else if method == "DELETE"@ {
        p.delete
    } else if method == "PATCH"@ {
        p.patch
    } else {
        None
    }
}

/// The operation that `path_item` declares for `method`.
pub fn find_operation_for_method<'a>(path_item: &'a PathItem, method: &str) -> (r: Option<&'a Operation>)
    ensures
        r matches Some(o) ==> operation_for(*path_item, method@) == Some(*o),
        r is None ==> operation_for(*path_item, method@) is None,
{
    if same_text(method, "GET") {
        path_item.get.as_ref()
    } else if same_text(method, "POST") {
        path_item.post.as_ref()
    } else if same_text(method, "PUT") {
        path_item.put.as_ref()
    } else if same_text(method, "DELETE") {
        path_item.delete.as_ref()
    } else if same_text(method, "PATCH") {
        path_item.patch.as_ref()
    } else {
        None
    }
}

/// The body of a non-JSON content type: a string example as text, another
/// example as JSON, no body without an example.
pub open spec fn other_body(ex: Option<Json>) -> Option<BodyModel> {
    match ex {
        Some(Json::String(s)) => Some(BodyModel::Text(s)),
        Some(v) => Some(BodyModel::Json(v)),
        None => None,
    }
}

/// The body and content type of a response: nothing as `text/plain` when it
/// declares no content; else from `application/json`, by example and then by
/// schema; else from its first content type, by example only.
pub open spec fn body_for(resp: Response, q: Seq<(Seq<char>, Seq<char>)>) -> Option<(Option<BodyModel>, Seq<char>)> {
    let json = entry(resp.content@, "application/json"@);
    if resp.content.len() == 0 {
        Some((None, "text/plain"@))
    } else if json is Some && chosen_example(json->Some_0, q) is Some {
        Some((Some(BodyModel::Json(chosen_example(json->Some_0, q)->Some_0)), "application/json"@))
    } else if json is Some && json->Some_0.schema is Some {
        Some((Some(BodyModel::Json(mock_value(json->Some_0.schema->Some_0))), "application/json"@))
    } else {
        Some((other_body(chosen_example(resp.content[0].1, q)), resp.content[0].0@))
    }
}

pub open spec fn body_result_view(r: Option<(Option<BodyKind>, String)>) -> Option<(Option<BodyModel>, Seq<char>)> {
    match r {
        Some((b, ct)) => Some((body_view(b), ct@)),
        None => None,
    }
}

/// Chooses the body and content type of a declared response.
pub fn build_body_from_response(resp: &Response, query: &QueryParams) -> (r: Option<(Option<BodyKind>, String)>)
    ensures
        body_result_view(r) == body_for(*resp, query@),
{
    if resp.content.len() == 0 {
        return Some((None, "text/plain".to_owned()));
    }
    if let Some(mt) = find_entry(&resp.content, "application/json") {
        if let Some(example) = pick_example(mt, query) {
            return Some((Some(BodyKind::Json(example)), "application/json".to_owned()));
        }
        if let Some(schema) = &mt.schema {
            let value = generate_from_schema(schema);
            return Some((Some(BodyKind::Json(value)), "application/json".to_owned()));
        }
    }
    let (content_type, mt) = &resp.content[0];
    match pick_example(mt, query) {
        Some(JsonValue::String(s)) => Some((Some(BodyKind::Text(s)), content_type.clone())),
        Some(example) => Some((Some(BodyKind::Json(example)), content_type.clone())),
        None => Some((None, content_type.clone())),
    }
}

/// The status a status key stands for: its number, or 200 when it is not one.
pub open spec fn status_of(key: Seq<char>) -> u16 {
    match status_number(key) {
        Some(n) => n,
        None => 200,
    }
}

/// The outcome of an operation: nothing when it declares no response; the
/// `"200"` response when it gives a body; else the first declared response.
pub open spec fn operation_outcome(op: Operation, q: Seq<(Seq<char>, Seq<char>)>) -> Option<(u16, Option<BodyModel>, Seq<char>)> {
    let ok = entry(op.responses@, "200"@);
    if op.responses.len() == 0 {
        None
    } else if ok is Some && body_for(ok->Some_0, q) is Some {
        let (b, ct) = body_for(ok->Some_0, q)->Some_0;
        Some((200, b, ct))
    } else {
        match body_for(op.responses[0].1, q) {
            Some((b, ct)) => Some((status_of(op.responses[0].0@), b, ct)),
            None => None,
        }
    }
}

/// Every response yields a body and content type, so none is ever passed over.
pub proof fn lemma_body_always_given(resp: Response, q: Seq<(Seq<char>, Seq<char>)>)
    ensures
        body_for(resp, q) is Some,
{
}

/// An operation that declares a `"200"` response answers with it, with status
/// 200 and that response's body, whatever else it declares; it falls back to
/// another response only when none is declared under `"200"`.
pub proof fn lemma_ok_preferred(op: Operation, q: Seq<(Seq<char>, Seq<char>)>)
    ensures
        entry(op.responses@, "200"@) matches Some(ok) ==> operation_outcome(op, q) == Some(
            (200u16, body_for(ok, q)->Some_0.0, body_for(ok, q)->Some_0.1),
        ),
        entry(op.responses@, "200"@) is None && op.responses.len() > 0 ==> operation_outcome(op, q) == Some(
            (status_of(op.responses[0].0@), body_for(op.responses[0].1, q)->Some_0.0, body_for(op.responses[0].1, q)->Some_0.1),
        ),
{
    if entry(op.responses@, "200"@) is Some {
        assert(op.responses.len() > 0);
    }
}

pub open spec fn outcome_view(r: Option<(u16, Option<BodyKind>, String)>) -> Option<(u16, Option<BodyModel>, Seq<char>)> {
    match r {
        Some((s, b, ct)) => Some((s, body_view(b), ct@)),
        None => None,
    }
}

/// Chooses the status, body and content type that an operation answers with.
pub fn build_response_from_operation(operation: &Operation, query: &QueryParams) -> (r: Option<(u16, Option<BodyKind>, String)>)
    ensures
        outcome_view(r) == operation_outcome(*operation, query@),
{
    if operation.responses.len() == 0 {
        return None;
    }
    if let Some(resp) = find_entry(&operation.responses, "200") {
        if let Some(res) = build_body_from_response(resp, query) {
            return Some((200, res.0, res.1));
        }
    }
    let (status_code, resp) = &operation.responses[0];
    let status = match parse_status(status_code.as_str()) {
        Some(n) => n,
        None => 200,
    };
    match build_body_from_response(resp, query) {
        Some(res) => Some((status, res.0, res.1)),
        None => None,
    }
}

/// The status a response is sent with: 200 in place of one outside 100 to 999.
pub open spec fn wire_status(status: u16) -> u16 {
    if 100 <= status <= 999 {
        status
    } else {
        200
    }
}

/// `r` is the wire form of a status, body and content type: a JSON body as
/// its JSON text, a text body as itself, no body as nothing.
pub open spec fn is_wire_response(r: MockResponse, status: u16, body: Option<BodyModel>, content_type: Seq<char>) -> bool {
    &&& r.status == wire_status(status)
    &&& r.content_type matches Some(ct) && ct@ == content_type
    &&& match body {
        Some(BodyModel::Json(v)) => r.body@ == json_text(v),
        Some(BodyModel::Text(s)) => r.body@ == s,
        None => r.body@ == Seq::<char>::empty(),
    }
}

/// Puts a chosen status, body and content type into wire form.
pub fn build_response(status: u16, body_kind: Option<BodyKind>, content_type: String) -> (r: MockResponse)
    ensures
        is_wire_response(r, status, body_view(body_kind), content_type@),
{
    let status = if 100 <= status && status <= 999 { status } else { 200 };
    let body = match body_kind {
        Some(BodyKind::Json(value)) => encode_json(&value),
        Some(BodyKind::Text(s)) => s,
        None => String::new(),
    };
    MockResponse { status, content_type: Some(content_type), body }
}

/// The answer when nothing declared fits: status 404, no content type, and
/// the text `No mock found for <METHOD> <path>`.
pub open spec fn is_not_found(r: MockResponse, method: Seq<char>, path: Seq<char>) -> bool {
    &&& r.status == 404
    &&& r.content_type is None
    &&& r.body@ == "No mock found for "@ + method + " "@ + path
}

/// The answer to a request that nothing declared fits.
pub fn build_not_found_response(method: &str, path: &str) -> (r: MockResponse)
    ensures
        is_not_found(r, method@, path@),
{
    let mut body = "No mock found for ".to_owned();
    body.append(method);
    body.append(" ");
    body.append(path);
    MockResponse { status: 404, content_type: None, body }
}

/// `i` is the first declared path template that matches `path`.
pub open spec fn is_first_match(paths: Seq<(String, PathItem)>, path: Seq<char>, i: int) -> bool {
    &&& 0 <= i < paths.len()
    &&& path_matches(paths[i].0@, path)
    &&& forall|j: int| 0 <= j < i ==> !path_matches(#[trigger] paths[j].0@, path)
}

/// The entry of the first declared template that matches `path`.
pub open spec fn matching_path(paths: Seq<(String, PathItem)>, path: Seq<char>) -> Option<PathItem> {
    if exists|i: int| is_first_match(paths, path, i) {
        Some(paths[choose|i: int| is_first_match(paths, path, i)].1)
    } else {
        None
    }
}

/// The outcome of a request: from the operation of the first matching
/// template for the method, if there is one.
pub open spec fn request_outcome(api: OpenApi, method: Seq<char>, path: Seq<char>, q: Seq<(Seq<char>, Seq<char>)>) -> Option<(u16, Option<BodyModel>, Seq<char>)> {
    match matching_path(api.paths@, path) {
        Some(item) => match operation_for(item, method) {
            Some(op) => operation_outcome(op, q),
            None => None,
        },
        None => None,
    }
}

/// The query of a request as pairs: none without a query string.
pub open spec fn request_pairs(query: Option<&str>) -> Seq<(Seq<char>, Seq<char>)> {
    match query {
        Some(q) => query_pairs(q@),
        None => seq![],
    }
}

fn find_path_item<'a>(paths: &'a Vec<(String, PathItem)>, path: &str) -> (r: Option<&'a PathItem>)
    ensures
        r matches Some(p) ==> matching_path(paths@, path@) == Some(*p),
        r is None ==> matching_path(paths@, path@) is None,
{
    let mut i: usize = 0;
    while i < paths.len()
        invariant
            i <= paths.len(),
            forall|j: int| 0 <= j < i ==> !path_matches(#[trigger] paths@[j].0@, path@),
        decreases paths.len() - i,
    {
        if match_path(paths[i].0.as_str(), path) {
            proof {
                assert(is_first_match(paths@, path@, i as int));
                let c = choose|c: int| is_first_match(paths@, path@, c);
                if c < i {
                    assert(path_matches(paths@[c].0@, path@));
                } else if c > i {
                    assert(path_matches(paths@[i as int].0@, path@));
                }
            }
            return Some(&paths[i].1);
        }
        i = i + 1;
    }
    None
}

/// `r` answers the request: the wire form of its outcome, or the not-found
/// answer when it has none.
pub open spec fn answers(r: MockResponse, api: OpenApi, method: Seq<char>, path: Seq<char>, q: Seq<(Seq<char>, Seq<char>)>) -> bool {
    match request_outcome(api, method, path, q) {
        Some((status, body, content_type)) => is_wire_response(r, status, body, content_type),
        None => is_not_found(r, method, path),
    }
}

/// Two answers to equal requests against one description are equal in
/// status, content type and body.
pub proof fn lemma_answers_deterministic(
    first: MockResponse,
    second: MockResponse,
    api: OpenApi,
    method: Seq<char>,
    path: Seq<char>,
    q: Seq<(Seq<char>, Seq<char>)>,
)
    requires
        answers(first, api, method, path, q),
        answers(second, api, method, path, q),
    ensures
        first.status == second.status,
        first.body@ == second.body@,
        first.content_type is None <==> second.content_type is None,
        first.content_type matches Some(a) ==> second.content_type matches Some(b) && a@ == b@,
{
}

/// Answers a request (method, path and raw query string) from an API
/// description.
pub fn handle_request(api: &OpenApi, method: &str, path: &str, query: Option<&str>) -> (r: MockResponse)
    ensures
        answers(r, *api, method@, path@, request_pairs(query)),
{
    let params = parse_query(query);
    if let Some(path_item) = find_path_item(&api.paths, path) {
        if let Some(operation) = find_operation_for_method(path_item, method) {
            if let Some((status, body, content_type)) = build_response_from_operation(operation, &params) {
                return build_response(status, body, content_type);
            }
        }
    }
    build_not_found_response(method, path)
}

} // verus!
